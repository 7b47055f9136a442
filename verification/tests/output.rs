use ytdlp_queue::output::append_limited;
use ytdlp_queue::output::failure_message;
use ytdlp_queue::output::parse_destination_line;
use ytdlp_queue::output::STDERR_BUFFER_LIMIT_BYTES;

#[test]
fn download_append_limited_keeps_recent_tail() {
    let mut output = String::new();

    append_limited(&mut output, "12345", 8);
    append_limited(&mut output, "6789", 8);

    assert_eq!(output, "345\n6789");
}

#[test]
fn executor_append_limited_keeps_recent_tail() {
    let mut output = String::new();

    append_limited(&mut output, "12345", 8);
    append_limited(&mut output, "6789", 8);

    assert_eq!(output, "345\n6789");
}

#[test]
fn append_limited_joins_lines_that_fit() {
    let mut output = String::new();
    append_limited(&mut output, "one", 64);
    assert_eq!(output, "one");
    append_limited(&mut output, "two", 64);
    assert_eq!(output, "one\ntwo");
    append_limited(&mut output, "", 64);
    assert_eq!(output, "one\ntwo\n");
}

#[test]
fn append_limited_never_cuts_inside_a_character() {
    let mut output = String::new();
    append_limited(&mut output, "aé한b", 5);
    // 7 bytes in all; two are over, and the cut at byte 2 falls inside "é".
    assert_eq!(output, "한b");
    let mut all = String::new();
    append_limited(&mut all, "한한", 1);
    assert_eq!(all, "");
    let mut exact = String::new();
    append_limited(&mut exact, "abcdef", 6);
    assert_eq!(exact, "abcdef");
    append_limited(&mut exact, "g", 6);
    assert_eq!(exact, "cdef\ng");
}

#[test]
fn append_limited_with_no_room_keeps_nothing() {
    let mut output = "abc".to_string();
    append_limited(&mut output, "def", 0);
    assert_eq!(output, "");
}

#[test]
fn stderr_limit_is_64_kib() {
    assert_eq!(STDERR_BUFFER_LIMIT_BYTES, 64 * 1024);
}

#[test]
fn destination_of_a_download_line() {
    assert_eq!(
        parse_destination_line("[download] Destination: /tmp/a b.mp4"),
        Some("/tmp/a b.mp4".to_string())
    );
    assert_eq!(
        parse_destination_line("[download] Destination:   /tmp/x.mp4  \r\n"),
        Some("/tmp/x.mp4".to_string())
    );
    assert_eq!(
        parse_destination_line("[ExtractAudio] Destination: /tmp/x.mp3"),
        Some("/tmp/x.mp3".to_string())
    );
}

#[test]
fn destination_of_a_merger_line() {
    assert_eq!(
        parse_destination_line("[Merger] Merging formats into \"/tmp/x.mkv\""),
        Some("/tmp/x.mkv".to_string())
    );
    assert_eq!(
        parse_destination_line("[Merger] Merging formats into \"/tmp/x.mkv\"  "),
        Some("/tmp/x.mkv".to_string())
    );
    assert_eq!(parse_destination_line("[Merger] Merging formats into \"/tmp/x.mkv"), None);
    assert_eq!(parse_destination_line("[Merger] Merging formats into \""), None);
    assert_eq!(
        parse_destination_line("[Merger] Merging formats into \"\""),
        Some(String::new())
    );
}

#[test]
fn other_lines_announce_no_file() {
    assert_eq!(parse_destination_line(""), None);
    assert_eq!(parse_destination_line("45.2%|2.5MiB/s|00:01:30"), None);
    assert_eq!(parse_destination_line(" [download] Destination: /tmp/x"), None);
    assert_eq!(parse_destination_line("[download] Destination:"), None);
    assert_eq!(parse_destination_line("[download] Destination: "), None);
}

#[test]
fn failure_with_code_one_names_the_last_line() {
    let stderr = "WARNING: slow\nERROR: Video unavailable\n\n  ";
    assert_eq!(
        failure_message(Some(1), stderr),
        format!("ERROR: Video unavailable\n\n[stderr]: {}", stderr)
    );
    assert_eq!(
        failure_message(Some(1), "first\r\nsecond\r\n"),
        "second\n\n[stderr]: first\r\nsecond\r\n"
    );
    assert_eq!(failure_message(Some(1), "only\r"), "only\r\n\n[stderr]: only\r");
}

#[test]
fn failure_with_code_one_and_nothing_to_show() {
    assert_eq!(failure_message(Some(1), ""), "다운로드 중 오류가 발생했습니다.");
    assert_eq!(
        failure_message(Some(1), " \n\t\n"),
        "다운로드 중 오류가 발생했습니다.\n\n[stderr]:  \n\t\n"
    );
}

#[test]
fn failure_on_cookies() {
    assert_eq!(
        failure_message(Some(1), "ERROR: Could not copy Chrome cookie database"),
        "브라우저 쿠키에 접근할 수 없습니다. 브라우저를 완전히 종료하거나, Firefox 쿠키를 사용하세요."
    );
    assert_eq!(
        failure_message(Some(1), "Could not copy the file"),
        "Could not copy the file\n\n[stderr]: Could not copy the file"
    );
}

#[test]
fn failure_on_the_network() {
    assert_eq!(
        failure_message(Some(2), "timeout"),
        "네트워크 연결 문제입니다. 인터넷 연결을 확인하세요.\n\n[stderr]: timeout"
    );
}

#[test]
fn failure_on_the_encoding() {
    let expected = "인코딩 오류로 다운로드에 실패했습니다.\n\nWindows 설정 → 시간 및 언어 → 관리 언어 설정 → 시스템 로캘 변경 → 'Beta: 세계 언어 지원을 위해 Unicode UTF-8 사용'을 활성화한 후 재시작하세요.\n\n[stderr]: codec cp949 failed";
    assert_eq!(failure_message(Some(120), "codec cp949 failed"), expected);
    for word in ["cp932", "TextIOWrapper", "Errno 22", "UnicodeEncodeError"] {
        assert!(failure_message(Some(120), word).starts_with("인코딩 오류로"));
    }
    assert_eq!(
        failure_message(Some(120), "other"),
        "yt-dlp exited with code: 120\n\n[stderr]: other"
    );
}

#[test]
fn failure_with_any_other_code() {
    assert_eq!(failure_message(Some(3), "x"), "yt-dlp exited with code: 3\n\n[stderr]: x");
    assert_eq!(failure_message(Some(0), ""), "yt-dlp exited with code: 0\n\n[stderr]: ");
    assert_eq!(
        failure_message(Some(-15), "x"),
        "yt-dlp exited with code: -15\n\n[stderr]: x"
    );
    assert_eq!(
        failure_message(Some(i32::MIN), "x"),
        "yt-dlp exited with code: -2147483648\n\n[stderr]: x"
    );
    assert_eq!(
        failure_message(Some(i32::MAX), "x"),
        "yt-dlp exited with code: 2147483647\n\n[stderr]: x"
    );
}

#[test]
fn failure_without_an_exit_code() {
    assert_eq!(
        failure_message(None, "killed"),
        "다운로드 프로세스가 예기치 않게 종료되었습니다.\n\n[stderr]: killed"
    );
}
