use invidious::proxy::{
    ggpht_url, request_header_allowed, response_header_kept, storyboard_url, subdomain_url,
    video_thumbnail_url, videoplayback_url, yts_image_url,
};

#[test]
fn request_headers_that_pass() {
    assert!(request_header_allowed("accept"));
    assert!(request_header_allowed("user-agent"));
    assert!(request_header_allowed("x-forwarded-host"));
    assert!(!request_header_allowed("cookie"));
    assert!(!request_header_allowed("Accept"));
    assert!(!request_header_allowed(""));
}

#[test]
fn response_headers_that_are_dropped() {
    assert!(!response_header_kept("connection"));
    assert!(!response_header_kept("content-length"));
    assert!(!response_header_kept("www-authenticate"));
    assert!(response_header_kept("content-type"));
    assert!(response_header_kept("cache-control"));
}

#[test]
fn asset_addresses() {
    assert_eq!(ggpht_url("a/b"), "https://yt3.ggpht.com/a/b");
    assert_eq!(video_thumbnail_url("id", "hq.jpg"), "https://i.ytimg.com/vi/id/hq.jpg");
    assert_eq!(yts_image_url("x.png"), "https://www.youtube.com/yts/img/x.png");
    assert_eq!(subdomain_url("i"), "https://i.ytimg.com");
    assert_eq!(
        storyboard_url(
            "vid",
            "sb",
            "M0.jpg",
            &vec![("sigh".to_string(), "abc".to_string()), ("x".to_string(), "1".to_string())]
        ),
        "https://i.ytimg.com/sb/vid/sb/M0.jpg/L1?sigh=abc&x=1"
    );
    assert_eq!(storyboard_url("a", "b", "c", &vec![]), "https://i.ytimg.com/sb/a/b/c/L1?");
}

#[test]
fn stream_addresses() {
    assert_eq!(
        videoplayback_url("p?x=1", None),
        "https://r3---sn-4g5e6l7e.googlevideo.com/videoplayback/p?x=1"
    );
    assert_eq!(
        videoplayback_url("p", Some("rr1.googlevideo.com")),
        "https://rr1.googlevideo.com/videoplayback/p"
    );
    assert_eq!(
        videoplayback_url("p", Some("r1.c.youtube.com")),
        "https://r1.c.youtube.com/videoplayback/p"
    );
    assert_eq!(
        videoplayback_url("p", Some("example.org")),
        "https://r3---sn-4g5e6l7e.googlevideo.com/videoplayback/p"
    );
}
