use ytdlp_queue::checksums::find_checksum;
use ytdlp_queue::checksums::parse_checksums;
use ytdlp_queue::db::map_download_row;
use ytdlp_queue::db::Database;
use ytdlp_queue::db::StoredTask;
use ytdlp_queue::deps::browser_checks;
use ytdlp_queue::deps::deletion_message;
use ytdlp_queue::deps::dependency_status;
use ytdlp_queue::deps::get_available_browsers;
use ytdlp_queue::deps::first_line;
use ytdlp_queue::deps::get_checksum_filename;
use ytdlp_queue::deps::update_info;
use ytdlp_queue::deps::DepInfo;
use ytdlp_queue::deps::DepInstallStage;
use ytdlp_queue::deps::DepSource;
use ytdlp_queue::deps::DepUpdateInfo;
use ytdlp_queue::deps::DependencyStatus;
use ytdlp_queue::deps::ArchiveFormat;
use ytdlp_queue::deps::Dependency;
use ytdlp_queue::deps::Os;
use ytdlp_queue::deps::Platform;
use ytdlp_queue::error::AppError;
use ytdlp_queue::paths::augmented_path;
use ytdlp_queue::paths::augmented_path_with_app;
use ytdlp_queue::paths::join;
use ytdlp_queue::scheduler::pause_download;
use ytdlp_queue::scheduler::resume_download;
use ytdlp_queue::settings::default_download_path;
use ytdlp_queue::settings::get_settings;
use ytdlp_queue::settings::AppSettings;
use ytdlp_queue::settings::StoredSettings;
use ytdlp_queue::status::DownloadStatus;
use ytdlp_queue::types::DownloadRequest;
use ytdlp_queue::types::HistoryItem;

fn request(video_id: &str) -> DownloadRequest {
    DownloadRequest {
        video_url: "u".to_string(),
        video_id: video_id.to_string(),
        title: "t".to_string(),
        format_id: "f".to_string(),
        quality_label: "q".to_string(),
        output_dir: None,
        cookie_browser: None,
    }
}

fn record(title: &str, downloaded_at: i64) -> HistoryItem {
    HistoryItem {
        id: 0,
        video_url: "u".to_string(),
        video_id: "v".to_string(),
        title: title.to_string(),
        quality_label: "q".to_string(),
        format: "f".to_string(),
        file_path: "/p".to_string(),
        file_size: None,
        downloaded_at,
    }
}

/// Runs a download titled `title` to its end at `at`, which records it.
fn record_download(db: &mut Database, title: &str, at: i64) {
    let id = db.insert_download_at(&request("v"), "/o", at).unwrap();
    db.update_download_status(id, &DownloadStatus::Downloading, None);
    db.complete_and_record(id, at, &record(title, at)).unwrap();
}

#[test]
fn pause_and_resume_are_not_offered() {
    let expected = Err(AppError::Custom("Not yet implemented".to_string()));
    assert_eq!(pause_download(1), expected);
    assert_eq!(resume_download(1), expected);
}

#[test]
fn stored_rows_are_read_back() {
    let stored = |status: &str| StoredTask {
        id: 7,
        video_url: "u".to_string(),
        video_id: "v".to_string(),
        title: "t".to_string(),
        format_id: "f".to_string(),
        quality_label: "q".to_string(),
        output_path: "/o".to_string(),
        status: status.to_string(),
        progress: 12_345,
        speed: Some("s".to_string()),
        eta: None,
        error_message: Some("e".to_string()),
        created_at: -5,
        completed_at: Some(9),
    };
    let row = map_download_row(stored("failed"));
    assert_eq!(row.id, 7);
    assert_eq!(row.status, DownloadStatus::Failed);
    assert_eq!(row.progress, 12_345);
    assert_eq!(row.speed, Some("s".to_string()));
    assert_eq!(row.eta, None);
    assert_eq!(row.error_message, Some("e".to_string()));
    assert_eq!(row.created_at, -5);
    assert_eq!(row.completed_at, Some(9));
    assert_eq!(row.output_path, "/o");
    assert_eq!(map_download_row(stored("nonsense")).status, DownloadStatus::Pending);
    assert_eq!(map_download_row(stored("downloading")).status, DownloadStatus::Downloading);
}

#[test]
fn queue_is_listed_newest_first_and_active_rows_oldest_first() {
    let mut db = Database::new();
    for at in [30, 10, 20, 10, 40] {
        db.insert_download_at(&request("v"), "/o", at).unwrap();
    }
    db.update_download_status(5, &DownloadStatus::Completed, None);
    db.update_download_status(3, &DownloadStatus::Downloading, None);
    let queue: Vec<u64> = db.get_download_queue().iter().map(|t| t.id).collect();
    assert_eq!(queue, vec![5, 1, 3, 4, 2]);
    let active: Vec<u64> = db.get_active_downloads().iter().map(|t| t.id).collect();
    assert_eq!(active, vec![2, 4, 3, 1]);
    assert!(Database::new().get_download_queue().is_empty());
    assert!(Database::new().get_active_downloads().is_empty());
}

#[test]
fn history_is_paged_latest_first() {
    let mut db = Database::new();
    for (k, at) in [50, 10, 40, 20, 30, 40].iter().enumerate() {
        record_download(&mut db, &format!("Title {}", k), *at);
    }
    let all = db.get_history(0, 100, None);
    let ids: Vec<u64> = all.items.iter().map(|h| h.id).collect();
    assert_eq!(ids, vec![1, 6, 3, 5, 4, 2]);
    assert_eq!(all.total_count, 6);
    assert_eq!(all.page, 0);
    assert_eq!(all.page_size, 100);

    let page = |p: u32, size: u32| -> Vec<u64> {
        db.get_history(p, size, None).items.iter().map(|h| h.id).collect()
    };
    assert_eq!(page(0, 4), vec![1, 6, 3, 5]);
    assert_eq!(page(1, 4), vec![4, 2]);
    assert_eq!(page(2, 4), Vec::<u64>::new());
    assert_eq!(page(u32::MAX, 100), Vec::<u64>::new());
    assert_eq!(page(5, 0), vec![2]);
    assert_eq!(db.get_history(0, 0, None).page_size, 1);
    assert_eq!(db.get_history(3, 1000, None).page_size, 100);
    assert_eq!(db.get_history(3, 1000, None).page, 3);
}

#[test]
fn history_search_ignores_the_case_of_english_letters() {
    let mut db = Database::new();
    record_download(&mut db, "Rust Verification", 1);
    record_download(&mut db, "cooking with rust", 2);
    record_download(&mut db, "100% _real_", 3);
    record_download(&mut db, "ÄPFEL", 4);
    let find = |words: &str| -> Vec<u64> {
        db.get_history(0, 100, Some(words)).items.iter().map(|h| h.id).collect()
    };
    assert_eq!(find("rust"), vec![2, 1]);
    assert_eq!(find("RUST V"), vec![1]);
    assert_eq!(find(""), vec![4, 3, 2, 1]);
    assert_eq!(find("%"), vec![3]);
    assert_eq!(find("_"), vec![3]);
    assert_eq!(find("äpfel"), Vec::<u64>::new());
    assert_eq!(find("Äpfel"), vec![4]);
    assert_eq!(find("nothing"), Vec::<u64>::new());
    assert_eq!(db.get_history(0, 1, Some("rust")).total_count, 2);
    assert_eq!(db.get_history(1, 1, Some("rust")).items[0].id, 1);
}

#[test]
fn helper_programs_are_known_by_name() {
    assert_eq!(Dependency::from_name("yt-dlp"), Some(Dependency::Ytdlp));
    assert_eq!(Dependency::from_name("ffmpeg"), Some(Dependency::Ffmpeg));
    assert_eq!(Dependency::from_name("deno"), Some(Dependency::Deno));
    assert_eq!(Dependency::from_name("curl"), None);
    for d in [Dependency::Ytdlp, Dependency::Ffmpeg, Dependency::Deno] {
        assert_eq!(Dependency::from_name(d.name()), Some(d));
    }
}

#[test]
fn helper_programs_have_their_sources() {
    let linux = Platform { os: Os::Linux, aarch64: false };
    let mac_arm = Platform { os: Os::Macos, aarch64: true };
    let win = Platform { os: Os::Windows, aarch64: false };
    assert_eq!(
        Dependency::Ytdlp.get_download_url(linux),
        "https://github.com/yt-dlp/yt-dlp/releases/latest/download/yt-dlp_linux"
    );
    assert_eq!(
        Dependency::Ytdlp.get_download_url(mac_arm),
        "https://github.com/yt-dlp/yt-dlp/releases/latest/download/yt-dlp_macos"
    );
    assert_eq!(
        Dependency::Ffmpeg.get_download_url(mac_arm),
        "https://github.com/vanloctech/ffmpeg-macos/releases/latest/download/ffmpeg-macos-arm64.tar.gz"
    );
    assert_eq!(
        Dependency::Ffmpeg.get_download_url(linux),
        "https://github.com/BtbN/FFmpeg-Builds/releases/download/latest/ffmpeg-master-latest-linux64-gpl.tar.xz"
    );
    assert_eq!(
        Dependency::Deno.get_download_url(win),
        "https://github.com/denoland/deno/releases/latest/download/deno-x86_64-pc-windows-msvc.zip"
    );
    assert_eq!(Dependency::Ytdlp.archive_format(Os::Linux), ArchiveFormat::Plain);
    assert_eq!(Dependency::Ffmpeg.archive_format(Os::Linux), ArchiveFormat::TarXz);
    assert_eq!(Dependency::Ffmpeg.archive_format(Os::Macos), ArchiveFormat::TarGz);
    assert_eq!(Dependency::Ffmpeg.archive_format(Os::Windows), ArchiveFormat::Zip);
    assert_eq!(Dependency::Deno.archive_format(Os::Macos), ArchiveFormat::Zip);
    assert_eq!(Dependency::Ffmpeg.get_binary_names(Os::Windows), vec!["ffmpeg.exe", "ffprobe.exe"]);
    assert_eq!(Dependency::Ffmpeg.get_binary_names(Os::Linux), vec!["ffmpeg", "ffprobe"]);
    assert_eq!(Dependency::Ytdlp.get_binary_names(Os::Macos), vec!["yt-dlp"]);
    assert_eq!(Dependency::Deno.get_binary_name(Os::Windows), "deno.exe");
    assert_eq!(get_checksum_filename(Os::Macos), "yt-dlp_macos");
    assert_eq!(get_checksum_filename(Os::Windows), "yt-dlp.exe");
    assert_eq!(get_checksum_filename(Os::Linux), "yt-dlp_linux");
}

#[test]
fn search_path_on_unix() {
    assert_eq!(
        augmented_path("/sbin:/x", Some("/home/me"), false),
        "/opt/homebrew/bin:/usr/local/bin:/usr/bin:/bin:/home/me/.local/bin:/home/me/.deno/bin:/sbin:/x"
    );
    assert_eq!(
        augmented_path("", None, false),
        "/opt/homebrew/bin:/usr/local/bin:/usr/bin:/bin"
    );
    assert_eq!(augmented_path_with_app("/data/bin", "/a:/b", false), "/data/bin:/a:/b");
}

#[test]
fn search_path_on_windows() {
    assert_eq!(
        augmented_path("C:\\Windows", None, true),
        "C:\\ProgramData\\chocolatey\\bin;C:\\Windows"
    );
    let full = augmented_path("", Some("C:\\Users\\me"), true);
    let dirs: Vec<&str> = full.split(';').collect();
    assert_eq!(
        dirs,
        vec![
            "C:\\Users\\me\\AppData\\Local\\Microsoft\\WinGet\\Links",
            "C:\\Users\\me\\scoop\\shims",
            "C:\\Users\\me\\AppData\\Local\\Programs\\Python\\Python313\\Scripts",
            "C:\\Users\\me\\AppData\\Local\\Programs\\Python\\Python312\\Scripts",
            "C:\\Users\\me\\AppData\\Local\\Programs\\Python\\Python311\\Scripts",
            "C:\\Users\\me\\AppData\\Local\\Programs\\Python\\Python310\\Scripts",
            "C:\\Users\\me\\AppData\\Local\\Programs\\Python\\Python3\\Scripts",
            "C:\\Users\\me\\.local\\bin",
            "C:\\Users\\me\\.deno\\bin",
            "C:\\ProgramData\\chocolatey\\bin",
        ]
    );
    assert_eq!(augmented_path_with_app("D:\\bin", "C:\\x", true), "D:\\bin;C:\\x");
}

#[test]
fn settings_fall_back_to_their_defaults() {
    let nothing = StoredSettings {
        download_path: None,
        default_quality: None,
        max_concurrent: None,
        filename_template: None,
        cookie_browser: None,
        auto_update_ytdlp: None,
        use_advanced_template: None,
        template_uploader_folder: None,
        template_upload_date: None,
        template_video_id: None,
        language: None,
        theme: None,
        minimize_to_tray: None,
        dep_mode: None,
    };
    let mut expected = AppSettings::default();
    expected.download_path = "/home/me/Downloads".to_string();
    assert_eq!(get_settings(nothing.clone(), "/home/me/Downloads"), expected);

    let mut some = nothing;
    some.download_path = Some("/mnt".to_string());
    some.max_concurrent = Some(7);
    some.cookie_browser = Some("firefox".to_string());
    some.auto_update_ytdlp = Some(false);
    some.template_video_id = Some(true);
    some.dep_mode = Some("system".to_string());
    some.minimize_to_tray = Some(true);
    let s = get_settings(some.clone(), "/home/me/Downloads");
    assert_eq!(s.download_path, "/mnt");
    assert_eq!(s.max_concurrent, 7);
    assert_eq!(s.cookie_browser, Some("firefox".to_string()));
    assert!(!s.auto_update_ytdlp);
    assert!(s.template_video_id);
    assert_eq!(s.dep_mode, "system");
    assert_eq!(s.minimize_to_tray, Some(true));
    assert_eq!(s.default_quality, "1080p");

    some.max_concurrent = Some(0x1_0000_0005);
    assert_eq!(get_settings(some, "").max_concurrent, 5);
}

#[test]
fn default_download_directory() {
    assert_eq!(default_download_path(Some("/home/me"), false), "/home/me/Downloads");
    assert_eq!(default_download_path(Some("C:\\Users\\me"), true), "C:\\Users\\me\\Downloads");
    assert_eq!(default_download_path(None, false), ".");
    assert_eq!(default_download_path(None, true), ".");
}

#[test]
fn dependency_status_is_put_together() {
    let lines = vec!["PATH: /bin".to_string(), "checking".to_string()];
    let s = dependency_status(Some("2024.05.01".to_string()), None, &lines);
    assert_eq!(
        s,
        DependencyStatus {
            ytdlp_installed: true,
            ytdlp_version: Some("2024.05.01".to_string()),
            ffmpeg_installed: false,
            ffmpeg_version: None,
            ytdlp_debug: Some("PATH: /bin\nchecking".to_string()),
        }
    );
    let none = dependency_status(None, Some("ffmpeg 7".to_string()), &Vec::new());
    assert!(!none.ytdlp_installed);
    assert!(none.ffmpeg_installed);
    assert_eq!(none.ytdlp_debug, None);
}

#[test]
fn helper_program_findings() {
    assert_eq!(
        DepInfo::app_managed(None, "/data/bin/yt-dlp".to_string()),
        DepInfo {
            installed: true,
            version: None,
            source: DepSource::AppManaged,
            path: Some("/data/bin/yt-dlp".to_string()),
        }
    );
    assert_eq!(
        DepInfo::on_system_path(Some("1".to_string())),
        DepInfo {
            installed: true,
            version: Some("1".to_string()),
            source: DepSource::SystemPath,
            path: None,
        }
    );
    assert_eq!(DepInfo::on_system_path(None), DepInfo::not_found());
    assert_eq!(DepInfo::found_at("/p".to_string(), true, None).source, DepSource::AppManaged);
    let system = DepInfo::found_at("/p".to_string(), false, Some("2".to_string()));
    assert_eq!(system.source, DepSource::SystemPath);
    assert_eq!(system.path, Some("/p".to_string()));
    assert!(system.installed);
    assert_eq!(
        update_info("2024.06.01".to_string()),
        DepUpdateInfo {
            current_version: None,
            latest_version: "2024.06.01".to_string(),
            update_available: true,
        }
    );
    assert_ne!(DepInstallStage::Downloading, DepInstallStage::Failed);
}

#[test]
fn first_line_names_the_version() {
    assert_eq!(first_line("ffmpeg version 7.0\nbuilt with gcc\n"), "ffmpeg version 7.0");
    assert_eq!(first_line("ffmpeg version 7.0\r\nbuilt"), "ffmpeg version 7.0");
    assert_eq!(first_line("one line"), "one line");
    assert_eq!(first_line("one line\r"), "one line\r");
    assert_eq!(first_line(""), "");
    assert_eq!(first_line("\nsecond"), "");
}

#[test]
fn texts_are_joined() {
    let parts = vec!["a".to_string(), "".to_string(), "c".to_string()];
    assert_eq!(join(&parts, ", "), "a, , c");
    assert_eq!(join(&Vec::new(), ", "), "");
    assert_eq!(join(&vec!["x".to_string()], ", "), "x");
}

#[test]
fn check_sums_are_read_line_by_line() {
    let text = "aa11  yt-dlp\nbb22 *yt-dlp.exe\r\n\ncc33\t  **yt-dlp_macos  \nnospace\n  dd44 x\nee55  yt-dlp_linux";
    let entries = parse_checksums(text);
    let expected: Vec<(String, String)> = [
        ("yt-dlp", "aa11"),
        ("yt-dlp.exe", "bb22"),
        ("yt-dlp_macos", "cc33"),
        ("dd44 x", ""),
        ("yt-dlp_linux", "ee55"),
    ]
    .iter()
    .map(|(n, h)| (n.to_string(), h.to_string()))
    .collect();
    assert_eq!(entries, expected);
    assert!(parse_checksums("").is_empty());
    assert!(parse_checksums("\n\n").is_empty());
    assert_eq!(parse_checksums("h \n"), vec![(String::new(), "h".to_string())]);
    assert_eq!(find_checksum(&entries, "yt-dlp.exe"), Some("bb22".to_string()));
    assert_eq!(find_checksum(&entries, "yt-dlp_linux"), Some("ee55".to_string()));
    assert_eq!(find_checksum(&entries, "yt-dlp_bsd"), None);
    let twice = parse_checksums("1 a\n2 a");
    assert_eq!(find_checksum(&twice, "a"), Some("1".to_string()));
}

#[test]
fn browsers_are_named_once_where_they_are_found() {
    let windows = browser_checks(Os::Windows);
    assert_eq!(windows.len(), 6);
    assert_eq!(windows[1], ("chrome", "C:\\Program Files (x86)\\Google\\Chrome\\Application\\chrome.exe"));
    assert_eq!(
        get_available_browsers(Os::Windows, &vec![true, true, false, true, false, true]),
        vec!["chrome", "firefox", "brave"]
    );
    assert_eq!(get_available_browsers(Os::Windows, &vec![false; 6]), Vec::<String>::new());
    assert_eq!(get_available_browsers(Os::Windows, &vec![false, true]), vec!["chrome"]);
    assert_eq!(get_available_browsers(Os::Windows, &Vec::new()), Vec::<String>::new());
    assert_eq!(
        get_available_browsers(Os::Macos, &vec![true, false, true, false, true]),
        vec!["chrome", "safari", "edge"]
    );
    assert_eq!(browser_checks(Os::Macos)[2], ("safari", "/Applications/Safari.app"));
    assert_eq!(
        get_available_browsers(Os::Linux, &Vec::new()),
        vec!["chrome", "chromium", "firefox", "brave"]
    );
}

#[test]
fn deletions_are_reported() {
    assert_eq!(
        deletion_message(Dependency::Ffmpeg, &vec!["ffmpeg".to_string(), "ffprobe".to_string()]),
        "ffmpeg: deleted ffmpeg, ffprobe"
    );
    assert_eq!(
        deletion_message(Dependency::Ytdlp, &Vec::new()),
        "yt-dlp: no app-managed binaries found"
    );
    assert_eq!(deletion_message(Dependency::Deno, &vec!["deno.exe".to_string()]), "deno: deleted deno.exe");
}
