use ytdlp_queue::db::Database;
use ytdlp_queue::db::MAX_ROW_ID;
use ytdlp_queue::error::AppError;
use ytdlp_queue::executor::begin_run;
use ytdlp_queue::executor::cancel_run;
use ytdlp_queue::executor::complete_run;
use ytdlp_queue::executor::complete_run_at;
use ytdlp_queue::executor::fail_run;
use ytdlp_queue::executor::start_run;
use ytdlp_queue::executor::RunStart;
use ytdlp_queue::manager::DownloadManager;
use ytdlp_queue::scheduler::add_to_queue;
use ytdlp_queue::scheduler::add_to_queue_at;
use ytdlp_queue::scheduler::cancel_all_downloads;
use ytdlp_queue::scheduler::cancel_download;
use ytdlp_queue::scheduler::output_dir;
use ytdlp_queue::scheduler::process_next_pending;
use ytdlp_queue::scheduler::retry_download;
use ytdlp_queue::scheduler::startup_recovery;
use ytdlp_queue::status::DownloadStatus;
use ytdlp_queue::types::DownloadRequest;

fn request(video_id: &str) -> DownloadRequest {
    DownloadRequest {
        video_url: format!("https://www.youtube.com/watch?v={}", video_id),
        video_id: video_id.to_string(),
        title: format!("title of {}", video_id),
        format_id: "22".to_string(),
        quality_label: "720p".to_string(),
        output_dir: None,
        cookie_browser: None,
    }
}

fn status_of(db: &Database, id: u64) -> DownloadStatus {
    db.get_download(id).unwrap().status
}

fn count(db: &Database, status: DownloadStatus) -> usize {
    db.all_tasks().iter().filter(|t| t.status == status).count()
}

#[test]
fn scenario_with_a_ceiling_of_two() {
    let mut db = Database::new();
    let mut m = DownloadManager::new(2);

    let t1 = add_to_queue_at(&mut db, &mut m, &request("t1"), "/dl/t1", 1).unwrap();
    let t2 = add_to_queue_at(&mut db, &mut m, &request("t2"), "/dl/t2", 2).unwrap();
    let t3 = add_to_queue_at(&mut db, &mut m, &request("t3"), "/dl/t3", 3).unwrap();
    assert_eq!((t1.task_id, t2.task_id, t3.task_id), (1, 2, 3));
    assert_eq!(t1.start, vec![1]);
    assert_eq!(t2.start, vec![2]);
    assert!(t3.start.is_empty());
    assert_eq!(status_of(&db, 1), DownloadStatus::Downloading);
    assert_eq!(status_of(&db, 2), DownloadStatus::Downloading);
    assert_eq!(status_of(&db, 3), DownloadStatus::Pending);
    assert_eq!(m.active_count(), 2);

    let task1 = match begin_run(&mut db, &mut m, 1) {
        RunStart::Go(t) => t,
        RunStart::Stop(_) => panic!("task 1 must run"),
    };
    let (_rx1, started) = start_run(&mut m, 1);
    assert_eq!(started.event_type, "started");
    let (rx2, _) = start_run(&mut m, 2);

    // T1 exits with success.
    let done = complete_run_at(&mut db, &mut m, &task1, "/dl/t1.mp4", 4096, 1000);
    assert_eq!(done.event.event_type, "completed");
    assert_eq!(done.event.file_path, Some("/dl/t1.mp4".to_string()));
    assert_eq!(done.event.file_size, Some(4096));
    assert_eq!(done.event.percent, Some(100_000));
    assert_eq!(done.start, vec![3]);
    assert_eq!(status_of(&db, 1), DownloadStatus::Completed);
    assert_eq!(status_of(&db, 3), DownloadStatus::Downloading);
    let history = db.all_history();
    assert_eq!(history.len(), 1);
    assert_eq!(history[0].video_id, "t1");
    assert_eq!(history[0].file_path, "/dl/t1.mp4");
    assert_eq!(history[0].file_size, Some(4096));
    assert_eq!(history[0].downloaded_at, 1000);
    assert_eq!(history[0].format, "22");
    assert_eq!(m.active_count(), 2);
    assert!(!m.is_registered(1));

    // T2 is cancelled in the middle of its run.
    assert!(cancel_download(&mut db, &mut m, 2));
    assert!(*rx2.borrow());
    assert_eq!(status_of(&db, 2), DownloadStatus::Cancelled);
    let ended = cancel_run(&mut db, &mut m, 2);
    assert_eq!(ended.event.event_type, "cancelled");
    assert_eq!(ended.event.message, Some("다운로드가 취소되었습니다.".to_string()));
    assert!(ended.start.is_empty());
    assert_eq!(status_of(&db, 2), DownloadStatus::Cancelled);
    assert_eq!(m.active_count(), 1);
    assert_eq!(db.get_active_count(), Ok(1));
    assert_eq!(status_of(&db, 3), DownloadStatus::Downloading);
}

#[test]
fn enqueue_fills_the_ceiling_and_queues_the_rest() {
    for ceiling in 1..5u32 {
        for n in 0..8u64 {
            let mut db = Database::new();
            let mut m = DownloadManager::new(ceiling);
            for k in 0..n {
                add_to_queue_at(&mut db, &mut m, &request("v"), "/v", k as i64).unwrap();
            }
            let running = n.min(ceiling as u64) as usize;
            assert_eq!(count(&db, DownloadStatus::Downloading), running);
            assert_eq!(count(&db, DownloadStatus::Pending), n as usize - running);
            assert_eq!(m.active_count() as usize, running);
        }
    }
}

#[test]
fn finished_runs_hand_their_slot_to_the_oldest_waiting_task() {
    let mut db = Database::new();
    let mut m = DownloadManager::new(2);
    for k in 0..5 {
        add_to_queue_at(&mut db, &mut m, &request("v"), "/v", k).unwrap();
    }
    let a = fail_run(&mut db, &mut m, 1, "stored", "shown");
    assert_eq!(a.start, vec![3]);
    assert_eq!(a.event.event_type, "error");
    assert_eq!(a.event.message, Some("shown".to_string()));
    assert_eq!(db.get_download(1).unwrap().error_message, Some("stored".to_string()));
    assert_eq!(status_of(&db, 1), DownloadStatus::Failed);
    let b = cancel_run(&mut db, &mut m, 2);
    assert_eq!(b.start, vec![4]);
    let t3 = db.get_download(3).unwrap();
    let c = complete_run_at(&mut db, &mut m, &t3, "/v.mp4", 1, 10);
    assert_eq!(c.start, vec![5]);
    assert_eq!(m.active_count(), 2);
    let d = cancel_run(&mut db, &mut m, 4);
    assert!(d.start.is_empty());
    assert_eq!(m.active_count(), 1);
    let e = cancel_run(&mut db, &mut m, 5);
    assert!(e.start.is_empty());
    assert_eq!(m.active_count(), 0);
    assert_eq!(count(&db, DownloadStatus::Pending), 0);
    assert_eq!(count(&db, DownloadStatus::Downloading), 0);
}

#[test]
fn dispatch_claims_as_many_as_there_are_slots() {
    let mut db = Database::new();
    let mut m = DownloadManager::new(3);
    for k in 0..4 {
        db.insert_download_at(&request("v"), "/v", 10 - k).unwrap();
    }
    assert!(m.try_acquire());
    assert_eq!(process_next_pending(&mut db, &mut m), vec![4, 3]);
    assert_eq!(m.active_count(), 3);
    assert_eq!(process_next_pending(&mut db, &mut m), Vec::<u64>::new());
    m.release();
    m.release();
    m.release();
    assert_eq!(process_next_pending(&mut db, &mut m), vec![2, 1]);
    assert_eq!(m.active_count(), 2);
    assert_eq!(process_next_pending(&mut db, &mut m), Vec::<u64>::new());
    assert_eq!(m.active_count(), 2);
}

#[test]
fn enqueue_fails_without_ids_and_takes_no_slot() {
    let mut db = Database::restore(Vec::new(), Vec::new(), MAX_ROW_ID + 1, 1).unwrap();
    let mut m = DownloadManager::new(2);
    let r = add_to_queue_at(&mut db, &mut m, &request("a"), "/a", 1);
    assert_eq!(
        r.err(),
        Some(AppError::DatabaseError("no identifier is left for a new row".to_string()))
    );
    assert_eq!(m.active_count(), 0);
    assert!(db.all_tasks().is_empty());
}

#[test]
fn output_dir_prefers_the_request() {
    let mut r = request("a");
    assert_eq!(output_dir(&r, "/home/me/Downloads"), "/home/me/Downloads");
    r.output_dir = Some("/mnt/videos".to_string());
    assert_eq!(output_dir(&r, "/home/me/Downloads"), "/mnt/videos");
}

#[test]
fn retry_reuses_the_row_and_its_id() {
    let mut db = Database::new();
    let mut m = DownloadManager::new(1);
    add_to_queue_at(&mut db, &mut m, &request("a"), "/a", 1).unwrap();
    fail_run(&mut db, &mut m, 1, "boom", "boom");
    assert_eq!(status_of(&db, 1), DownloadStatus::Failed);
    assert_eq!(m.active_count(), 0);

    assert_eq!(retry_download(&mut db, &mut m, 1), Ok(true));
    assert_eq!(db.all_tasks().len(), 1);
    let row = db.get_download(1).unwrap();
    assert_eq!(row.status, DownloadStatus::Downloading);
    assert_eq!(row.error_message, None);
    assert_eq!(m.active_count(), 1);

    cancel_download(&mut db, &mut m, 1);
    cancel_run(&mut db, &mut m, 1);
    assert_eq!(status_of(&db, 1), DownloadStatus::Cancelled);
    assert!(m.try_acquire());
    assert_eq!(retry_download(&mut db, &mut m, 1), Ok(false));
    assert_eq!(status_of(&db, 1), DownloadStatus::Pending);
    assert_eq!(db.all_tasks().len(), 1);
    m.release();
    assert_eq!(process_next_pending(&mut db, &mut m), vec![1]);
    assert_eq!(status_of(&db, 1), DownloadStatus::Downloading);
}

#[test]
fn retry_is_refused_for_other_tasks() {
    let mut db = Database::new();
    let mut m = DownloadManager::new(1);
    assert_eq!(
        retry_download(&mut db, &mut m, 7),
        Err(AppError::Custom("Download task not found".to_string()))
    );
    add_to_queue_at(&mut db, &mut m, &request("a"), "/a", 1).unwrap();
    add_to_queue_at(&mut db, &mut m, &request("b"), "/b", 2).unwrap();
    for id in [1, 2] {
        assert_eq!(
            retry_download(&mut db, &mut m, id),
            Err(AppError::Custom("Download task cannot be retried".to_string()))
        );
    }
    let t = db.get_download(1).unwrap();
    complete_run_at(&mut db, &mut m, &t, "/a.mp4", 1, 5);
    assert_eq!(
        retry_download(&mut db, &mut m, 1),
        Err(AppError::Custom("Download task cannot be retried".to_string()))
    );
    assert_eq!(status_of(&db, 1), DownloadStatus::Completed);
}

#[test]
fn a_cancelled_task_is_not_completed_by_its_run() {
    let mut db = Database::new();
    let mut m = DownloadManager::new(1);
    add_to_queue_at(&mut db, &mut m, &request("a"), "/a", 1).unwrap();
    let task = db.get_download(1).unwrap();
    let (rx, _) = start_run(&mut m, 1);
    assert!(cancel_download(&mut db, &mut m, 1));
    assert!(*rx.borrow());
    let end = complete_run_at(&mut db, &mut m, &task, "/a.mp4", 10, 99);
    assert_eq!(end.event.event_type, "cancelled");
    assert_eq!(status_of(&db, 1), DownloadStatus::Cancelled);
    assert!(db.all_history().is_empty());
    assert_eq!(m.active_count(), 0);
}

#[test]
fn a_completed_task_is_not_cancelled_afterwards() {
    let mut db = Database::new();
    let mut m = DownloadManager::new(1);
    add_to_queue_at(&mut db, &mut m, &request("a"), "/a", 1).unwrap();
    let task = db.get_download(1).unwrap();
    let (rx, _) = start_run(&mut m, 1);
    complete_run_at(&mut db, &mut m, &task, "/a.mp4", 10, 99);
    assert!(!cancel_download(&mut db, &mut m, 1));
    assert!(!*rx.borrow());
    assert_eq!(status_of(&db, 1), DownloadStatus::Completed);
    let late = fail_run(&mut db, &mut m, 1, "late", "late");
    assert_eq!(late.event.event_type, "cancelled");
    assert_eq!(status_of(&db, 1), DownloadStatus::Completed);
    assert_eq!(db.get_download(1).unwrap().error_message, None);
}

#[test]
fn a_task_cancelled_before_its_run_is_not_started() {
    let mut db = Database::new();
    let mut m = DownloadManager::new(1);
    add_to_queue_at(&mut db, &mut m, &request("a"), "/a", 1).unwrap();
    add_to_queue_at(&mut db, &mut m, &request("b"), "/b", 2).unwrap();
    assert!(cancel_download(&mut db, &mut m, 1));
    match begin_run(&mut db, &mut m, 1) {
        RunStart::Stop(start) => assert_eq!(start, vec![2]),
        RunStart::Go(_) => panic!("a cancelled task must not run"),
    }
    assert_eq!(m.active_count(), 1);
    assert_eq!(status_of(&db, 2), DownloadStatus::Downloading);
    match begin_run(&mut db, &mut m, 99) {
        RunStart::Stop(start) => assert!(start.is_empty()),
        RunStart::Go(_) => panic!("a task that is gone must not run"),
    }
    assert_eq!(m.active_count(), 0);
}

#[test]
fn cancel_all_cancels_every_active_task() {
    let mut db = Database::new();
    let mut m = DownloadManager::new(2);
    for k in 0..4 {
        add_to_queue_at(&mut db, &mut m, &request("v"), "/v", k).unwrap();
    }
    let (rx1, _) = start_run(&mut m, 1);
    let (rx2, _) = start_run(&mut m, 2);
    let t = db.get_download(1).unwrap();
    complete_run_at(&mut db, &mut m, &t, "/v.mp4", 1, 9);
    let (rx3, _) = start_run(&mut m, 3);
    let rx9 = m.register_cancel(9);
    assert_eq!(cancel_all_downloads(&mut db, &mut m), 3);
    assert_eq!(status_of(&db, 1), DownloadStatus::Completed);
    assert_eq!(status_of(&db, 2), DownloadStatus::Cancelled);
    assert_eq!(status_of(&db, 3), DownloadStatus::Cancelled);
    assert_eq!(status_of(&db, 4), DownloadStatus::Cancelled);
    assert!(!*rx1.borrow());
    assert!(*rx2.borrow());
    assert!(*rx3.borrow());
    assert!(!*rx9.borrow());
    assert!(m.is_registered(9));
    assert_eq!(m.active_count(), 0);
    assert_eq!(cancel_all_downloads(&mut db, &mut m), 0);
}

#[test]
fn recovery_fails_stuck_rows_and_starts_the_waiting_ones() {
    let mut db = Database::new();
    let mut m = DownloadManager::new(2);
    for k in 0..4 {
        add_to_queue_at(&mut db, &mut m, &request("v"), "/v", k).unwrap();
    }
    // The process ends here without a word; a new one loads what was stored.
    let (next_task, next_history) = db.next_ids();
    let mut db = Database::restore(db.all_tasks(), db.all_history(), next_task, next_history)
        .unwrap();
    let mut m = DownloadManager::new(2);
    let r = startup_recovery(&mut db, &mut m);
    assert_eq!(r.reset, 2);
    assert_eq!(r.start, vec![3, 4]);
    for id in [1, 2] {
        let row = db.get_download(id).unwrap();
        assert_eq!(row.status, DownloadStatus::Failed);
        assert_eq!(row.error_message, Some("App closed during download".to_string()));
    }
    assert_eq!(status_of(&db, 3), DownloadStatus::Downloading);
    assert_eq!(status_of(&db, 4), DownloadStatus::Downloading);
    assert_eq!(m.active_count(), 2);
    assert_eq!(db.get_active_count(), Ok(2));
}

fn now() -> i64 {
    std::time::SystemTime::now()
        .duration_since(std::time::UNIX_EPOCH)
        .unwrap()
        .as_secs() as i64
}

#[test]
fn enqueue_and_completion_are_stamped_by_the_clock() {
    let mut db = Database::new();
    let mut m = DownloadManager::new(1);
    let before = now();
    let first = add_to_queue(&mut db, &mut m, &request("a"), "/a").unwrap();
    let second = add_to_queue(&mut db, &mut m, &request("b"), "/b").unwrap();
    assert_eq!(first.start, vec![1]);
    assert!(second.start.is_empty());
    let task = db.get_download(1).unwrap();
    let done = complete_run(&mut db, &mut m, &task, "/a.mp4", 5);
    let after = now();
    assert_eq!(done.start, vec![2]);
    assert_eq!(done.event.event_type, "completed");
    let row = db.get_download(1).unwrap();
    assert_eq!(row.status, DownloadStatus::Completed);
    let at = row.completed_at.unwrap();
    assert!(before <= row.created_at && row.created_at <= at && at <= after);
    let history = db.all_history();
    assert_eq!(history.len(), 1);
    assert_eq!(history[0].downloaded_at, at);
    assert_eq!(status_of(&db, 2), DownloadStatus::Downloading);
}

#[test]
fn a_download_that_cannot_be_recorded_is_not_completed() {
    let mut db = Database::restore(Vec::new(), Vec::new(), 1, MAX_ROW_ID + 1).unwrap();
    let mut m = DownloadManager::new(1);
    add_to_queue_at(&mut db, &mut m, &request("a"), "/a", 1).unwrap();
    let task = db.get_download(1).unwrap();
    let end = complete_run_at(&mut db, &mut m, &task, "/a.mp4", 10, 99);
    assert_eq!(end.event.event_type, "error");
    assert_eq!(
        end.event.message,
        Some("Database error: no identifier is left for a new row".to_string())
    );
    let row = db.get_download(1).unwrap();
    assert_eq!(row.status, DownloadStatus::Failed);
    assert_eq!(row.completed_at, None);
    assert_eq!(
        row.error_message,
        Some("Database error: no identifier is left for a new row".to_string())
    );
    assert!(db.all_history().is_empty());
    assert_eq!(m.active_count(), 0);
}
