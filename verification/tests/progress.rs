use ytdlp_queue::progress::parse_progress_line;
use ytdlp_queue::progress::progress_template;
use ytdlp_queue::progress::should_report;
use ytdlp_queue::progress::shown;
use ytdlp_queue::types::ProgressInfo;

fn percent_of(info: &ProgressInfo) -> f32 {
    info.percent as f32 / 1000.0
}

#[test]
fn test_parse_valid_progress() {
    let line = "45.2%|2.5MiB/s|00:01:30";
    let info = parse_progress_line(line).unwrap();
    assert_eq!(percent_of(&info), 45.2);
    assert_eq!(info.speed, Some("2.5MiB/s".to_string()));
    assert_eq!(info.eta, Some("00:01:30".to_string()));
}

#[test]
fn test_parse_with_leading_whitespace() {
    let line = "  0.0%|N/A|N/A";
    let info = parse_progress_line(line).unwrap();
    assert_eq!(percent_of(&info), 0.0);
    assert_eq!(info.speed, None);
    assert_eq!(info.eta, None);
}

#[test]
fn test_parse_unknown_speed() {
    let line = "12.5%|Unknown|00:05:00";
    let info = parse_progress_line(line).unwrap();
    assert_eq!(percent_of(&info), 12.5);
    assert_eq!(info.speed, None);
    assert_eq!(info.eta, Some("00:05:00".to_string()));
}

#[test]
fn test_parse_na_values() {
    let line = "99.9%|N/A|N/A";
    let info = parse_progress_line(line).unwrap();
    assert_eq!(percent_of(&info), 99.9);
    assert_eq!(info.speed, None);
    assert_eq!(info.eta, None);
}

#[test]
fn test_parse_100_percent() {
    let line = "100.0%|3.1MiB/s|00:00:00";
    let info = parse_progress_line(line).unwrap();
    assert_eq!(percent_of(&info), 100.0);
    assert_eq!(info.speed, Some("3.1MiB/s".to_string()));
    assert_eq!(info.eta, Some("00:00:00".to_string()));
}

#[test]
fn test_parse_invalid_line() {
    let line = "Some other output from yt-dlp";
    assert!(parse_progress_line(line).is_none());
}

#[test]
fn test_progress_template_format() {
    let template = progress_template();
    assert!(template.contains("progress._percent_str"));
    assert!(template.contains("progress._speed_str"));
    assert!(template.contains("progress._eta_str"));
}

#[test]
fn progress_template_is_exact() {
    assert_eq!(
        progress_template(),
        "download:%(progress._percent_str)s|%(progress._speed_str)s|%(progress._eta_str)s"
    );
}

#[test]
fn parse_gives_exact_thousandths() {
    assert_eq!(parse_progress_line("45.2%|a|b").unwrap().percent, 45_200);
    assert_eq!(parse_progress_line("7%|a|b").unwrap().percent, 7_000);
    assert_eq!(parse_progress_line("7.%|a|b").unwrap().percent, 7_000);
    assert_eq!(parse_progress_line(".5%|a|b").unwrap().percent, 500);
    assert_eq!(parse_progress_line("1.2345%|a|b").unwrap().percent, 1_234);
    assert_eq!(parse_progress_line("0012.05%|a|b").unwrap().percent, 12_050);
}

#[test]
fn parse_saturates_on_huge_numbers() {
    let info = parse_progress_line("99999999999999999999999.5%|a|b").unwrap();
    assert_eq!(info.percent, u64::MAX);
    let edge = parse_progress_line("18446744073709550.999%|a|b").unwrap();
    assert_eq!(edge.percent, 18_446_744_073_709_550_999);
    let over = parse_progress_line("18446744073709551%|a|b").unwrap();
    assert_eq!(over.percent, u64::MAX);
}

#[test]
fn parse_rejects_what_is_no_report() {
    assert!(parse_progress_line("").is_none());
    assert!(parse_progress_line("%|a|b").is_none());
    assert!(parse_progress_line(".%|a|b").is_none());
    assert!(parse_progress_line("1.2.3%|a|b").is_none());
    assert!(parse_progress_line("12.5|a|b").is_none());
    assert!(parse_progress_line("12.5%").is_none());
    assert!(parse_progress_line("12.5%|a").is_none());
    assert!(parse_progress_line("12.5%a|b|c").is_none());
    assert!(parse_progress_line("12.5%|a|b|c").is_none());
    assert!(parse_progress_line("x12.5%|a|b").is_none());
    assert!(parse_progress_line("download:12.5%|a|b").is_none());
}

#[test]
fn parse_trims_the_line_and_the_fields() {
    let info = parse_progress_line(" \t 3.5%|  1MiB/s  | 00:10 \r\n").unwrap();
    assert_eq!(info.percent, 3_500);
    assert_eq!(info.speed, Some("1MiB/s".to_string()));
    assert_eq!(info.eta, Some("00:10".to_string()));
    let empty = parse_progress_line("3.5%||").unwrap();
    assert_eq!(empty.speed, None);
    assert_eq!(empty.eta, None);
    let blank = parse_progress_line("3.5%|  | Unknown ").unwrap();
    assert_eq!(blank.speed, None);
    assert_eq!(blank.eta, None);
    let inner = parse_progress_line("3.5%|a b|N/A x").unwrap();
    assert_eq!(inner.speed, Some("a b".to_string()));
    assert_eq!(inner.eta, Some("N/A x".to_string()));
}

#[test]
fn first_report_is_always_due() {
    assert!(should_report(None, 0, 0));
    assert!(should_report(None, 50_000, 0));
}

#[test]
fn later_report_is_due_on_step_interval_or_completion() {
    assert!(!should_report(Some(10_000), 10_199, 499));
    assert!(should_report(Some(10_000), 10_200, 0));
    assert!(should_report(Some(10_000), 9_800, 0));
    assert!(!should_report(Some(10_000), 9_801, 0));
    assert!(should_report(Some(10_000), 10_000, 500));
    assert!(should_report(Some(99_950), 100_000, 0));
    assert!(should_report(Some(100_000), 100_000, 0));
}

#[test]
fn missing_fields_are_shown_as_dots() {
    assert_eq!(shown(&None), "...");
    assert_eq!(shown(&Some("5MiB/s".to_string())), "5MiB/s");
}
