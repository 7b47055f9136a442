use ytdlp_queue::db::Database;
use ytdlp_queue::executor::build_args;
use ytdlp_queue::executor::cancelled_event;
use ytdlp_queue::executor::completed_event;
use ytdlp_queue::executor::error_event;
use ytdlp_queue::executor::fail_missing_worker;
use ytdlp_queue::executor::on_stderr_line;
use ytdlp_queue::executor::OutputWatch;
use ytdlp_queue::executor::final_file_path;
use ytdlp_queue::executor::progress_event;
use ytdlp_queue::executor::report_progress;
use ytdlp_queue::executor::started_event;
use ytdlp_queue::executor::abandon_run;
use ytdlp_queue::executor::GlobalDownloadEvent;
use ytdlp_queue::executor::ProgressThrottle;
use ytdlp_queue::manager::DownloadManager;
use ytdlp_queue::progress::parse_progress_line;
use ytdlp_queue::scheduler::add_to_queue_at;
use ytdlp_queue::status::DownloadStatus;
use ytdlp_queue::types::DownloadRequest;
use ytdlp_queue::types::DownloadTaskInfo;
use ytdlp_queue::types::ProgressInfo;

fn request(video_id: &str) -> DownloadRequest {
    DownloadRequest {
        video_url: format!("https://www.youtube.com/watch?v={}", video_id),
        video_id: video_id.to_string(),
        title: "t".to_string(),
        format_id: "137+140".to_string(),
        quality_label: "1080p".to_string(),
        output_dir: None,
        cookie_browser: None,
    }
}

fn task() -> DownloadTaskInfo {
    let mut db = Database::new();
    let id = db.insert_download_at(&request("abc"), "/dl/%(title)s.%(ext)s", 1).unwrap();
    db.get_download(id).unwrap()
}

fn bare(task_id: u64, event_type: &str) -> GlobalDownloadEvent {
    GlobalDownloadEvent {
        task_id,
        event_type: event_type.to_string(),
        percent: None,
        speed: None,
        eta: None,
        file_path: None,
        file_size: None,
        message: None,
    }
}

#[test]
fn args_without_extras() {
    assert_eq!(
        build_args(&task(), None, None, false),
        vec![
            "--format",
            "137+140",
            "--output",
            "/dl/%(title)s.%(ext)s",
            "--progress-template",
            "download:%(progress._percent_str)s|%(progress._speed_str)s|%(progress._eta_str)s",
            "--newline",
            "--no-playlist",
            "--no-overwrites",
            "--encoding",
            "UTF-8",
            "https://www.youtube.com/watch?v=abc",
        ]
    );
}

#[test]
fn args_with_every_extra() {
    let args = build_args(&task(), Some("/opt/ffmpeg"), Some("firefox"), true);
    assert_eq!(
        args[11..].to_vec(),
        vec![
            "--windows-filenames",
            "--ffmpeg-location",
            "/opt/ffmpeg",
            "--cookies-from-browser",
            "firefox",
            "https://www.youtube.com/watch?v=abc",
        ]
    );
    assert_eq!(args.len(), 17);
    let only_cookies = build_args(&task(), None, Some("chrome"), false);
    assert_eq!(
        only_cookies[11..].to_vec(),
        vec!["--cookies-from-browser", "chrome", "https://www.youtube.com/watch?v=abc"]
    );
}

#[test]
fn events_carry_what_they_should() {
    assert_eq!(started_event(3), bare(3, "started"));
    let mut error = bare(3, "error");
    error.message = Some("boom".to_string());
    assert_eq!(error_event(3, "boom"), error);
    let mut cancelled = bare(3, "cancelled");
    cancelled.message = Some("다운로드가 취소되었습니다.".to_string());
    assert_eq!(cancelled_event(3), cancelled);
    let mut completed = bare(3, "completed");
    completed.percent = Some(100_000);
    completed.file_path = Some("/x.mp4".to_string());
    completed.file_size = Some(0);
    assert_eq!(completed_event(3, "/x.mp4", 0), completed);
    let mut progress = bare(3, "progress");
    progress.percent = Some(12_500);
    progress.speed = Some("...".to_string());
    progress.eta = Some("00:05:00".to_string());
    let info = parse_progress_line("12.5%|Unknown|00:05:00").unwrap();
    assert_eq!(progress_event(3, &info), progress);
}

#[test]
fn final_path_prefers_what_the_worker_announced() {
    let t = task();
    assert_eq!(final_file_path(&t, &None), "/dl/%(title)s.%(ext)s");
    assert_eq!(final_file_path(&t, &Some("/dl/real.mkv".to_string())), "/dl/real.mkv");
}

#[test]
fn progress_is_stored_when_a_report_is_due() {
    let mut db = Database::new();
    let id = db.insert_download_at(&request("abc"), "/dl/x", 1).unwrap();
    let mut throttle = ProgressThrottle::new();
    let info = |percent: u64| ProgressInfo { percent, speed: Some("1MiB/s".to_string()), eta: None };

    let first = report_progress(&mut db, &mut throttle, id, &info(1_000), 10_000).unwrap();
    assert_eq!(first.percent, Some(1_000));
    assert_eq!(first.eta, Some("...".to_string()));
    let row = db.get_download(id).unwrap();
    assert_eq!(row.progress, 1_000);
    assert_eq!(row.speed, Some("1MiB/s".to_string()));
    assert_eq!(row.eta, Some("...".to_string()));

    assert!(report_progress(&mut db, &mut throttle, id, &info(1_100), 10_100).is_none());
    assert_eq!(db.get_download(id).unwrap().progress, 1_000);
    assert!(report_progress(&mut db, &mut throttle, id, &info(1_199), 10_499).is_none());
    assert!(report_progress(&mut db, &mut throttle, id, &info(1_199), 9_000).is_none());
    assert!(report_progress(&mut db, &mut throttle, id, &info(1_199), 10_500).is_some());
    assert_eq!(db.get_download(id).unwrap().progress, 1_199);
    assert!(report_progress(&mut db, &mut throttle, id, &info(1_399), 10_501).is_some());
    assert!(report_progress(&mut db, &mut throttle, id, &info(1_400), 10_502).is_none());
    assert!(report_progress(&mut db, &mut throttle, id, &info(100_000), 10_503).is_some());
    assert!(report_progress(&mut db, &mut throttle, id, &info(100_000), 10_504).is_some());
}

#[test]
fn a_missing_worker_fails_the_task_and_frees_its_slot() {
    let mut db = Database::new();
    let mut m = DownloadManager::new(1);
    add_to_queue_at(&mut db, &mut m, &request("a"), "/a", 1).unwrap();
    add_to_queue_at(&mut db, &mut m, &request("b"), "/b", 2).unwrap();
    let end = fail_missing_worker(&mut db, &mut m, 1);
    assert_eq!(end.event, error_event(1, "yt-dlp not found"));
    assert_eq!(end.start, vec![2]);
    let row = db.get_download(1).unwrap();
    assert_eq!(row.status, DownloadStatus::Failed);
    assert_eq!(
        row.error_message,
        Some("yt-dlp not found. Please install via Homebrew or click Install.".to_string())
    );
    assert_eq!(m.active_count(), 1);
}

#[test]
fn an_abandoned_run_frees_its_slot_and_leaves_the_row() {
    let mut db = Database::new();
    let mut m = DownloadManager::new(1);
    add_to_queue_at(&mut db, &mut m, &request("a"), "/a", 1).unwrap();
    let _rx = m.register_cancel(1);
    assert!(abandon_run(&mut db, &mut m, 1).is_empty());
    assert_eq!(db.get_download(1).unwrap().status, DownloadStatus::Downloading);
    assert_eq!(m.active_count(), 0);
    assert!(!m.is_registered(1));
    assert!(abandon_run(&mut db, &mut m, 1).is_empty());
    assert_eq!(m.active_count(), 0);
}

#[test]
fn the_watch_follows_the_output_of_the_worker() {
    let mut db = Database::new();
    let id = db.insert_download_at(&request("abc"), "/dl/x", 1).unwrap();
    let mut watch = OutputWatch::new();
    assert!(watch.on_stdout_line(&mut db, id, "[youtube] abc: Downloading webpage\n", 0).is_none());
    assert!(watch
        .on_stdout_line(&mut db, id, "[download] Destination: /dl/x.f137.mp4\r\n", 1)
        .is_none());
    let first = watch.on_stdout_line(&mut db, id, "  1.0%|1MiB/s|00:10\n", 2).unwrap();
    assert_eq!(first.event_type, "progress");
    assert_eq!(first.percent, Some(1_000));
    assert!(watch.on_stdout_line(&mut db, id, "  1.1%|1MiB/s|00:10\n", 3).is_none());
    assert_eq!(db.get_download(id).unwrap().progress, 1_000);
    let late = watch.on_stdout_line(&mut db, id, "  1.1%|N/A|00:09\n", 502).unwrap();
    assert_eq!(late.speed, Some("...".to_string()));
    assert_eq!(db.get_download(id).unwrap().eta, Some("00:09".to_string()));
    assert!(watch
        .on_stdout_line(&mut db, id, "[Merger] Merging formats into \"/dl/x.mkv\"\n", 503)
        .is_none());
    assert!(watch.on_stdout_line(&mut db, id, "[Merger] Merging formats into \"/dl/y\n", 504).is_none());
    assert_eq!(watch.into_announced(), Some("/dl/x.mkv".to_string()));
    assert_eq!(OutputWatch::new().into_announced(), None);
}

#[test]
fn error_lines_are_kept_without_their_line_ends() {
    let mut kept = String::new();
    on_stderr_line(&mut kept, "WARNING: one \r\n");
    on_stderr_line(&mut kept, "ERROR: two\n");
    on_stderr_line(&mut kept, "\n");
    assert_eq!(kept, "WARNING: one\nERROR: two\n");
    let mut long = String::new();
    let line = "x".repeat(40_000);
    on_stderr_line(&mut long, &line);
    on_stderr_line(&mut long, &line);
    assert_eq!(long.len(), 64 * 1024);
    assert!(long.ends_with(&format!("\n{}", line)));
}
