use invidious::templates::format_length;
use invidious::yt_backend::extractors::parse_length_seconds;

#[test]
fn lengths_under_an_hour() {
    assert_eq!(format_length(0), "0:00");
    assert_eq!(format_length(59), "0:59");
    assert_eq!(format_length(630), "10:30");
    assert_eq!(format_length(3599), "59:59");
}

#[test]
fn lengths_with_hours() {
    assert_eq!(format_length(3600), "1:00:00");
    assert_eq!(format_length(5445), "1:30:45");
    assert_eq!(format_length(36061), "10:01:01");
}

#[test]
fn negative_lengths_keep_their_sign() {
    assert_eq!(format_length(-5), "0:-5");
    assert_eq!(format_length(-65), "-1:-5");
}

#[test]
fn formatted_lengths_read_back() {
    for n in [-3599i64, -65, -5, 0, 7, 59, 60, 630, 3599, 3600, 5445, 86399, 123456, i32::MAX as i64] {
        assert_eq!(parse_length_seconds(&format_length(n)), Some(n as i32));
    }
}

#[test]
fn whole_negative_hours_are_not_written() {
    assert_eq!(format_length(-3600), "0:00");
    assert_eq!(format_length(-3661), "-1:-1");
}

#[test]
fn a_rendered_length_reads_back() {
    for n in [0i64, 1, 59, 60, 630, 3599, 3600, 5445, 36061, -5, -65, -3599, 2147483647] {
        assert_eq!(
            invidious::yt_backend::extractors::parse_length_seconds(&format_length(n)),
            Some(n as i32)
        );
    }
}
