use kavimo::errors::DownloadError;
use kavimo::video::{first_path_segment, parse_video, KavimoArgs, Video};

#[test]
fn a_link_line_becomes_a_session() {
    let v = parse_video("https://stream.example.com/chn2rbqavgjt/embed").unwrap();
    assert_eq!(v.video_host, "stream.example.com");
    assert_eq!(v.video_id, "chn2rbqavgjt");
    assert_eq!(v.desired_quality, None);
    assert_eq!(v.quality_index, 0);
    assert!(v.time_range.is_none());
}

#[test]
fn a_second_field_is_the_desired_quality() {
    let v = parse_video("https://stream.example.com/abc/iframe 720").unwrap();
    assert_eq!(v.desired_quality.as_deref(), Some("720"));
    assert_eq!(v.video_id, "abc");
}

#[test]
fn ip_literal_hosts_are_rejected() {
    assert_eq!(
        parse_video("https://192.168.1.10/abc/iframe").unwrap_err(),
        DownloadError::InvalidLink
    );
}

#[test]
fn non_urls_are_rejected() {
    assert_eq!(parse_video("not a url").unwrap_err(), DownloadError::InvalidLink);
    assert_eq!(parse_video("").unwrap_err(), DownloadError::InvalidLink);
}

#[test]
fn first_path_segment_reads_past_the_slash() {
    assert_eq!(first_path_segment("/abc/def").as_deref(), Some("abc"));
    assert_eq!(first_path_segment("/abc").as_deref(), Some("abc"));
    assert_eq!(first_path_segment("/").as_deref(), Some(""));
    assert_eq!(first_path_segment(""), None);
    assert_eq!(first_path_segment("abc"), None);
}

#[test]
fn session_setters_keep_the_rest() {
    let mut v = Video::new("id".to_string(), "host".to_string(), None);
    v.set_quality_index(2);
    assert_eq!(v.quality_index, 2);
    assert_eq!(v.video_id, "id");
    v.set_time_range(kavimo::timer::TimeRange { start: 10, end: 20 });
    let w = v.time_range.unwrap();
    assert_eq!(w.start, 10);
    assert_eq!(w.end, 20);
}

#[test]
fn timer_flag_needs_the_batch_file() {
    let args = KavimoArgs { file: None, timer: Some("01:00:00-02:00:00".to_string()) };
    assert!(!args.validate());
    let args = KavimoArgs {
        file: Some("list.txt".to_string()),
        timer: Some("01:00:00-02:00:00".to_string()),
    };
    assert!(args.validate());
    let args = KavimoArgs { file: None, timer: None };
    assert!(args.validate());
}

#[test]
fn errors_describe_themselves() {
    assert_eq!(DownloadError::AlreadyDownloaded.message(), "video already downloaded");
    assert_eq!(DownloadError::TimerExpired.message(), "timer went out of range");
    assert!(!DownloadError::BadStatus.message().is_empty());
}
