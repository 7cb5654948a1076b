use invidious::yt_backend::url_sanitizer::{percent_escape, UrlSanitizer, UrlType};

#[test]
fn test_determine_url_type() {
    assert_eq!(UrlSanitizer::determine_url_type("watch"), UrlType::Watch);
    assert_eq!(UrlSanitizer::determine_url_type("shorts"), UrlType::Watch);
    assert_eq!(
        UrlSanitizer::determine_url_type("channel"),
        UrlType::Channel
    );
    assert_eq!(
        UrlSanitizer::determine_url_type("@handle"),
        UrlType::Channel
    );
    assert_eq!(
        UrlSanitizer::determine_url_type("playlist"),
        UrlType::Playlist
    );
    assert_eq!(UrlSanitizer::determine_url_type("search"), UrlType::Search);
}

#[test]
fn test_extract_video_id() {
    assert_eq!(
        UrlSanitizer::extract_video_id("https://www.youtube.com/watch?v=dQw4w9WgXcQ"),
        Some("dQw4w9WgXcQ".to_string())
    );
    assert_eq!(
        UrlSanitizer::extract_video_id("https://youtu.be/dQw4w9WgXcQ"),
        Some("dQw4w9WgXcQ".to_string())
    );
    assert_eq!(
        UrlSanitizer::extract_video_id("https://www.youtube.com/embed/dQw4w9WgXcQ"),
        Some("dQw4w9WgXcQ".to_string())
    );
    assert_eq!(
        UrlSanitizer::extract_video_id("https://www.youtube.com/shorts/dQw4w9WgXcQ"),
        Some("dQw4w9WgXcQ".to_string())
    );
}

#[test]
fn test_is_ascii_word() {
    assert!(UrlSanitizer::is_ascii_word("video123"));
    assert!(UrlSanitizer::is_ascii_word("test_video"));
    assert!(UrlSanitizer::is_ascii_word("abc-def"));
    assert!(!UrlSanitizer::is_ascii_word("test video"));
    assert!(!UrlSanitizer::is_ascii_word("test/video"));
}

#[test]
fn more_url_types() {
    assert_eq!(UrlSanitizer::determine_url_type("c"), UrlType::Channel);
    assert_eq!(UrlSanitizer::determine_url_type("mix"), UrlType::Playlist);
    assert_eq!(UrlSanitizer::determine_url_type("results"), UrlType::Search);
    assert_eq!(UrlSanitizer::determine_url_type("feed"), UrlType::Unknown);
    assert_eq!(UrlSanitizer::determine_url_type(""), UrlType::Unknown);
}

#[test]
fn allowed_parameters() {
    assert_eq!(UrlSanitizer::allowed_params_for_type(UrlType::Playlist), &["list"]);
    assert_eq!(
        UrlSanitizer::allowed_params_for_type(UrlType::Channel),
        &["u", "user", "lb"]
    );
    assert_eq!(
        UrlSanitizer::allowed_params_for_type(UrlType::Search),
        &["q", "search_query", "sp"]
    );
    assert_eq!(UrlSanitizer::allowed_params_for_type(UrlType::Watch).len(), 9);
    assert!(UrlSanitizer::allowed_params_for_type(UrlType::Unknown).is_empty());
}

#[test]
fn normalising_adds_a_scheme() {
    assert_eq!(UrlSanitizer::normalize_url("youtube.com/watch"), "https://youtube.com/watch");
    assert_eq!(UrlSanitizer::normalize_url("http://a.b"), "http://a.b");
    assert_eq!(UrlSanitizer::normalize_url("https://a.b"), "https://a.b");
}

#[test]
fn non_ascii_is_not_a_word() {
    assert!(!UrlSanitizer::is_ascii_word("vidéo"));
    assert!(UrlSanitizer::is_ascii_word(""));
}

#[test]
fn percent_escaping() {
    assert_eq!(percent_escape("abc-_.~XYZ09"), "abc-_.~XYZ09");
    assert_eq!(percent_escape("a b&c"), "a%20b%26c");
    assert_eq!(percent_escape("é"), "%C3%A9");
}

#[test]
fn processing_keeps_allowed_parameters_only() {
    assert_eq!(
        UrlSanitizer::process("https://www.youtube.com/watch?v=abc&foo=bar&t=10"),
        "https://www.youtube.com/watch?v=abc&t=10"
    );
    assert_eq!(
        UrlSanitizer::process("https://www.youtube.com/channel/UC1?u=1&x=2"),
        "https://www.youtube.com/channel/UC1?u=1"
    );
    // `@` is not a word character, so a handle is dropped from the path.
    assert_eq!(
        UrlSanitizer::process("youtube.com/@handle/videos?u=1&x=2"),
        "https://www.youtube.com/videos"
    );
    assert_eq!(
        UrlSanitizer::process("https://www.youtube.com/results?search_query=a%20b"),
        "https://www.youtube.com/results?search_query=a%20b"
    );
}

#[test]
fn processing_drops_what_it_cannot_keep() {
    assert_eq!(UrlSanitizer::process("https://www.youtube.com/"), "https://www.youtube.com/");
    assert_eq!(
        UrlSanitizer::process("https://www.youtube.com/feed/x?v=1"),
        "https://www.youtube.com/feed/x"
    );
    assert_eq!(UrlSanitizer::process("https://exa mple.com/watch"), "https://www.youtube.com/");
}

#[test]
fn video_ids_that_are_not_found() {
    assert_eq!(UrlSanitizer::extract_video_id("https://www.youtube.com/feed/trending"), None);
    assert_eq!(UrlSanitizer::extract_video_id("https://example.com/watch?v=x"), None);
    assert_eq!(UrlSanitizer::extract_video_id("https://www.youtube.com/watch?list=x"), None);
    assert_eq!(
        UrlSanitizer::extract_video_id("www.youtube.com/v/abc"),
        Some("abc".to_string())
    );
}

#[test]
fn playlist_ids() {
    assert_eq!(
        UrlSanitizer::extract_playlist_id("https://www.youtube.com/playlist?list=PL123"),
        Some("PL123".to_string())
    );
    assert_eq!(UrlSanitizer::extract_playlist_id("https://www.youtube.com/watch?v=1"), None);
}

#[test]
fn channel_ids() {
    assert_eq!(
        UrlSanitizer::extract_channel_id("https://www.youtube.com/channel/UC123"),
        Some("UC123".to_string())
    );
    assert_eq!(
        UrlSanitizer::extract_channel_id("https://www.youtube.com/@someone"),
        Some("someone".to_string())
    );
    assert_eq!(
        UrlSanitizer::extract_channel_id("https://www.youtube.com/c/name"),
        Some("name".to_string())
    );
    assert_eq!(
        UrlSanitizer::extract_channel_id("https://www.youtube.com/user/old"),
        Some("old".to_string())
    );
    assert_eq!(UrlSanitizer::extract_channel_id("https://www.youtube.com/watch"), None);
}

#[test]
fn escaped_text_has_no_delimiters() {
    let e = percent_escape("a&b=c#d/e?f g");
    assert_eq!(e, "a%26b%3Dc%23d%2Fe%3Ff%20g");
    assert!(!e.contains('&') && !e.contains('=') && !e.contains('#') && !e.contains('/') && !e.contains('?'));
}
