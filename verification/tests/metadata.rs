use ytdlp_queue::error::AppError;
use ytdlp_queue::metadata::item_range;
use ytdlp_queue::metadata::metadata_error;
use ytdlp_queue::metadata::playlist_result;
use ytdlp_queue::metadata::video_info;
use ytdlp_queue::metadata::FormatInfo;
use ytdlp_queue::metadata::PlaylistEntry;
use ytdlp_queue::metadata::PlaylistResult;
use ytdlp_queue::metadata::RawEntry;
use ytdlp_queue::metadata::RawFormat;
use ytdlp_queue::metadata::RawVideo;
use ytdlp_queue::metadata::VideoInfo;

fn text(s: &str) -> Option<String> {
    Some(s.to_string())
}

fn raw_format(id: Option<&str>, ext: Option<&str>, vcodec: Option<&str>, acodec: Option<&str>) -> RawFormat {
    RawFormat {
        format_id: id.map(String::from),
        ext: ext.map(String::from),
        resolution: text("1920x1080"),
        format_note: text("1080p"),
        filesize: Some(10),
        vcodec: vcodec.map(String::from),
        acodec: acodec.map(String::from),
    }
}

fn raw_video() -> RawVideo {
    RawVideo {
        id: text("abc"),
        title: text("A title"),
        thumbnail: text("https://img/abc.jpg"),
        duration: Some(61),
        upload_date: text("20240501"),
        channel: text("Channel"),
        uploader: text("Uploader"),
        channel_url: None,
        uploader_url: text("https://uploader"),
        webpage_url: text("https://www.youtube.com/watch?v=abc"),
        filesize_approx: Some(1000),
        formats: Some(vec![
            raw_format(Some("137"), Some("mp4"), Some("avc1"), Some("none")),
            raw_format(None, Some("mp4"), None, None),
            raw_format(Some("140"), Some("m4a"), Some("none"), Some("mp4a")),
            raw_format(Some("x"), None, None, None),
            raw_format(Some("18"), Some("mp4"), None, None),
        ]),
    }
}

fn empty_entry() -> RawEntry {
    RawEntry {
        playlist_id: None,
        playlist_title: None,
        playlist: None,
        channel: None,
        playlist_uploader: None,
        uploader: None,
        playlist_count: None,
        id: None,
        url: None,
        title: None,
        duration: None,
        thumbnail: None,
        first_thumbnail: None,
    }
}

fn entry(id: &str) -> RawEntry {
    let mut e = empty_entry();
    e.id = text(id);
    e
}

#[test]
fn video_record_is_made_of_what_the_worker_told() {
    let format = |id: &str, ext: &str, v: Option<&str>, a: Option<&str>, hv: bool, ha: bool| FormatInfo {
        format_id: id.to_string(),
        ext: ext.to_string(),
        resolution: text("1920x1080"),
        quality_label: text("1080p"),
        filesize: Some(10),
        vcodec: v.map(String::from),
        acodec: a.map(String::from),
        has_video: hv,
        has_audio: ha,
    };
    assert_eq!(
        video_info(&raw_video(), "asked"),
        Ok(VideoInfo {
            url: "https://www.youtube.com/watch?v=abc".to_string(),
            video_id: "abc".to_string(),
            title: "A title".to_string(),
            thumbnail: "https://img/abc.jpg".to_string(),
            duration: 61,
            upload_date: "20240501".to_string(),
            channel: "Channel".to_string(),
            channel_url: "https://uploader".to_string(),
            formats: vec![
                format("137", "mp4", Some("avc1"), Some("none"), true, false),
                format("140", "m4a", Some("none"), Some("mp4a"), false, true),
                format("18", "mp4", None, None, true, true),
            ],
            filesize_approx: Some(1000),
        })
    );
}

#[test]
fn missing_fields_of_a_video_are_left_empty() {
    let raw = RawVideo {
        id: text("abc"),
        title: text("t"),
        thumbnail: None,
        duration: None,
        upload_date: None,
        channel: None,
        uploader: None,
        channel_url: None,
        uploader_url: None,
        webpage_url: None,
        filesize_approx: None,
        formats: Some(Vec::new()),
    };
    let v = video_info(&raw, "https://asked").unwrap();
    assert_eq!(v.url, "https://asked");
    assert_eq!(v.thumbnail, "");
    assert_eq!(v.duration, 0);
    assert_eq!(v.upload_date, "");
    assert_eq!(v.channel, "");
    assert_eq!(v.channel_url, "");
    assert!(v.formats.is_empty());
    assert_eq!(v.filesize_approx, None);
    let mut by_uploader = raw;
    by_uploader.uploader = text("U");
    assert_eq!(video_info(&by_uploader, "x").unwrap().channel, "U");
}

#[test]
fn a_video_needs_its_id_title_and_formats() {
    let mut raw = raw_video();
    raw.formats = None;
    assert_eq!(
        video_info(&raw, "x"),
        Err(AppError::MetadataError("Missing formats array".to_string()))
    );
    raw.title = None;
    assert_eq!(video_info(&raw, "x"), Err(AppError::MetadataError("Missing title".to_string())));
    raw.id = None;
    assert_eq!(
        video_info(&raw, "x"),
        Err(AppError::MetadataError("Missing video id".to_string()))
    );
}

#[test]
fn item_ranges_count_from_one() {
    assert_eq!(item_range(0, 50), text("1:50"));
    assert_eq!(item_range(1, 50), text("51:100"));
    assert_eq!(item_range(3, 1), text("4:4"));
    assert_eq!(item_range(2, 0), text("1:0"));
    assert_eq!(item_range(u32::MAX, 99998), text("429488139565411:429488139665408"));
    assert_eq!(item_range(0, 99999), None);
    assert_eq!(item_range(7, u32::MAX), None);
}

#[test]
fn playlist_record_is_made_of_the_entries() {
    let mut first = entry("aaaaaaaaaaa");
    first.playlist_id = text("PL1");
    first.playlist = text("By name");
    first.playlist_uploader = text("Owner");
    first.uploader = text("Other");
    first.title = text("First");
    first.duration = Some(5);
    first.first_thumbnail = text("https://img/1");
    let mut second = empty_entry();
    second.url = text("https://vimeo.com/1");
    second.thumbnail = text("https://img/2");
    second.first_thumbnail = text("https://img/2b");
    second.playlist_id = text("ignored");
    let nameless = empty_entry();
    let mut blank = empty_entry();
    blank.id = text("");
    blank.url = text("https://unused");
    let raw = vec![first, nameless, second, blank, entry("ccccccccccc")];
    assert_eq!(
        playlist_result(&raw, "https://asked", 0, 50),
        Ok(PlaylistResult {
            playlist_id: "PL1".to_string(),
            title: "By name".to_string(),
            url: "https://asked".to_string(),
            video_count: None,
            channel_name: text("Owner"),
            entries: vec![
                PlaylistEntry {
                    url: "https://www.youtube.com/watch?v=aaaaaaaaaaa".to_string(),
                    video_id: "aaaaaaaaaaa".to_string(),
                    title: text("First"),
                    duration: Some(5),
                    thumbnail: text("https://img/1"),
                },
                PlaylistEntry {
                    url: "https://vimeo.com/1".to_string(),
                    video_id: "https://vimeo.com/1".to_string(),
                    title: None,
                    duration: None,
                    thumbnail: text("https://img/2"),
                },
                PlaylistEntry {
                    url: "https://www.youtube.com/watch?v=ccccccccccc".to_string(),
                    video_id: "ccccccccccc".to_string(),
                    title: None,
                    duration: None,
                    thumbnail: None,
                },
            ],
        })
    );
}

#[test]
fn playlist_facts_fall_back() {
    let raw = vec![entry("a"), entry("b")];
    let url = "https://www.youtube.com/playlist?list=PL-from_url&x=1";
    let paged = playlist_result(&raw, url, 2, 50).unwrap();
    assert_eq!(paged.playlist_id, "PL-from_url");
    assert_eq!(paged.title, "Unknown Playlist");
    assert_eq!(paged.channel_name, None);
    assert_eq!(paged.video_count, None);
    let whole = playlist_result(&raw, "nothing", 0, 99999).unwrap();
    assert_eq!(whole.playlist_id, "");
    assert_eq!(whole.video_count, Some(2));
    let mut counted = raw.clone();
    counted[0].playlist_count = Some(120);
    counted[0].playlist_title = text("Title");
    counted[0].playlist = text("Name");
    counted[0].channel = text("C");
    let r = playlist_result(&counted, "nothing", 0, 99999).unwrap();
    assert_eq!(r.video_count, Some(120));
    assert_eq!(r.title, "Title");
    assert_eq!(r.channel_name, text("C"));
}

#[test]
fn an_empty_page_ends_the_playlist_unless_it_is_the_first() {
    assert_eq!(
        playlist_result(&Vec::new(), "u", 0, 50),
        Err(AppError::MetadataError("No entries found in playlist".to_string()))
    );
    assert_eq!(
        playlist_result(&Vec::new(), "u", 3, 50),
        Ok(PlaylistResult {
            playlist_id: String::new(),
            title: String::new(),
            url: "u".to_string(),
            video_count: None,
            channel_name: None,
            entries: Vec::new(),
        })
    );
    let nameless = playlist_result(&vec![empty_entry()], "u", 0, 50).unwrap();
    assert!(nameless.entries.is_empty());
    assert_eq!(nameless.title, "Unknown Playlist");
}

#[test]
fn refusals_are_told_apart() {
    let metadata = |m: &str| AppError::MetadataError(m.to_string());
    assert_eq!(metadata_error("ERROR: Private video"), metadata("비공개 비디오입니다. 접근할 수 없습니다."));
    assert_eq!(metadata_error("Sign in to confirm your age"), metadata("비공개 비디오입니다. 접근할 수 없습니다."));
    assert_eq!(metadata_error("ERROR: Video unavailable"), metadata("이 비디오는 사용할 수 없습니다."));
    assert_eq!(metadata_error("is not available"), metadata("이 비디오는 사용할 수 없습니다."));
    assert_eq!(
        metadata_error("'x' is not a valid URL"),
        AppError::InvalidUrl("지원하지 않는 URL 형식입니다.".to_string())
    );
    assert_eq!(
        metadata_error("Unsupported URL: x"),
        AppError::InvalidUrl("지원하지 않는 URL 형식입니다.".to_string())
    );
    assert_eq!(
        metadata_error("HTTP Error 429"),
        AppError::NetworkError("요청이 너무 많습니다. 잠시 후 다시 시도하세요.".to_string())
    );
    assert_eq!(
        metadata_error("Too Many Requests"),
        AppError::NetworkError("요청이 너무 많습니다. 잠시 후 다시 시도하세요.".to_string())
    );
    assert_eq!(
        metadata_error("No video formats found"),
        metadata("비디오 형식을 찾을 수 없습니다. 라이브 스트림일 수 있습니다.")
    );
    assert_eq!(
        metadata_error("this page is restricted"),
        metadata("연령 제한 콘텐츠입니다. 설정에서 쿠키 브라우저를 설정하세요.")
    );
}

#[test]
fn other_refusals_show_their_last_line() {
    let metadata = |m: &str| AppError::MetadataError(m.to_string());
    assert_eq!(metadata_error("one\ntwo"), metadata("yt-dlp 오류: two"));
    assert_eq!(metadata_error("one\r\ntwo\r\n"), metadata("yt-dlp 오류: two"));
    assert_eq!(metadata_error("one\n\n"), metadata("yt-dlp 오류: "));
    assert_eq!(metadata_error(""), metadata("yt-dlp 오류: "));
    assert_eq!(metadata_error("\n"), metadata("yt-dlp 오류: "));
    assert_eq!(metadata_error("two\r"), metadata("yt-dlp 오류: two\r"));
}
