use invidious::json::Json;
use invidious::yt_backend::youtube_api::{ClientConfig, ClientType};

fn text<'a>(j: &'a Json, path: &[&str]) -> Option<&'a str> {
    let mut cur = j;
    for k in path {
        cur = cur.get(k)?;
    }
    cur.as_str()
}

#[test]
fn test_client_type_names() {
    assert_eq!(ClientType::Web.name(), "WEB");
    assert_eq!(ClientType::Android.name(), "ANDROID");
    assert_eq!(ClientType::IOS.name(), "IOS");
}

#[test]
fn test_client_config_default() {
    let config = ClientConfig::default();
    assert_eq!(config.region, "US");
    assert_eq!(config.name(), "WEB");
}

#[test]
fn test_client_config_context() {
    let config = ClientConfig::new(ClientType::Android, "US");
    let context = config.build_context(Some("test_video_id"));

    assert_eq!(text(&context, &["client", "clientName"]), Some("ANDROID"));
    assert_eq!(text(&context, &["client", "gl"]), Some("US"));
}

#[test]
fn client_details() {
    assert_eq!(ClientType::default(), ClientType::Web);
    assert_eq!(ClientType::WebMobile.name(), "MWEB");
    assert_eq!(ClientType::TvHtml5.name_proto(), "7");
    assert_eq!(ClientType::Android.version(), "19.35.36");
    assert_eq!(ClientType::AndroidScreenEmbed.screen(), Some("EMBED"));
    assert_eq!(ClientType::Web.screen(), None);
    assert_eq!(ClientType::AndroidTestSuite.android_sdk_version(), Some(33));
    assert_eq!(ClientType::IOS.android_sdk_version(), None);
    assert_eq!(ClientType::IOSMusic.device_make(), Some("Apple"));
    assert_eq!(ClientType::IOS.device_model(), Some("iPhone14,5"));
    assert_eq!(ClientType::WebMobile.os_version(), Some("13"));
    assert_eq!(ClientType::TvSimply.platform(), None);
    assert_eq!(ClientType::IOSEmbedded.os_name(), Some("iPhone"));
    assert!(ClientType::Web.user_agent().is_none());
    assert!(ClientType::Android.user_agent().unwrap().starts_with("com.google.android.youtube/19.35.36"));
}

#[test]
fn context_of_a_web_client() {
    let config = ClientConfig::new(ClientType::Web, "DE");
    let context = config.build_context(None);
    assert_eq!(text(&context, &["client", "hl"]), Some("en"));
    assert_eq!(text(&context, &["client", "gl"]), Some("DE"));
    assert_eq!(text(&context, &["client", "clientVersion"]), Some("2.20250222.10.00"));
    assert_eq!(text(&context, &["client", "osName"]), Some("Windows"));
    assert_eq!(text(&context, &["client", "platform"]), Some("DESKTOP"));
    assert!(context.get("client").unwrap().get("clientScreen").is_none());
    assert!(context.get("thirdParty").is_none());
}

#[test]
fn context_of_an_embedded_client() {
    let config = ClientConfig::new(ClientType::AndroidScreenEmbed, "US");
    let context = config.build_context(Some("vid"));
    assert_eq!(text(&context, &["client", "clientScreen"]), Some("EMBED"));
    assert_eq!(
        context.get("client").unwrap().get("androidSdkVersion").unwrap().as_i64(),
        Some(33)
    );
    assert_eq!(
        text(&context, &["thirdParty", "embedUrl"]),
        Some("https://www.youtube.com/embed/vid")
    );
    let without_video = config.build_context(None);
    assert!(without_video.get("thirdParty").is_none());
}

#[test]
fn request_headers() {
    let headers = ClientConfig::new(ClientType::IOS, "US").headers();
    let names: Vec<&str> = headers.iter().map(|(k, _)| k.as_str()).collect();
    assert_eq!(
        names,
        vec![
            "Content-Type",
            "Accept-Encoding",
            "x-goog-api-format-version",
            "x-youtube-client-name",
            "x-youtube-client-version",
            "User-Agent"
        ]
    );
    assert_eq!(headers[3].1, "5");
    assert_eq!(headers[4].1, "20.11.6");
    let web = ClientConfig::new(ClientType::Web, "US").headers();
    assert_eq!(web.len(), 5);
    assert_eq!(web[0].1, "application/json; charset=UTF-8");
}

#[test]
fn config_delegates_to_its_client_type() {
    let config = ClientConfig::new(ClientType::TvHtml5ScreenEmbed, "JP");
    assert_eq!(config.name(), "TVHTML5_SIMPLY_EMBEDDED_PLAYER");
    assert_eq!(config.name_proto(), "85");
    assert_eq!(config.version(), "2.0");
    assert_eq!(config.region, "JP");
}

#[test]
fn user_agents_name_the_client_version() {
    let all = [
        ClientType::Web,
        ClientType::WebEmbeddedPlayer,
        ClientType::WebMobile,
        ClientType::WebScreenEmbed,
        ClientType::WebCreator,
        ClientType::Android,
        ClientType::AndroidEmbeddedPlayer,
        ClientType::AndroidScreenEmbed,
        ClientType::AndroidTestSuite,
        ClientType::IOS,
        ClientType::IOSEmbedded,
        ClientType::IOSMusic,
        ClientType::TvHtml5,
        ClientType::TvHtml5ScreenEmbed,
        ClientType::TvSimply,
    ];
    let mut with_agent = 0;
    for t in all {
        if let Some(ua) = t.user_agent() {
            assert!(ua.contains(t.version()));
            with_agent += 1;
        }
    }
    assert_eq!(with_agent, 6);
    assert!(ClientType::AndroidEmbeddedPlayer.user_agent().is_none());
    assert!(ClientType::IOSMusic.user_agent().unwrap().contains("/7.14 "));
}
