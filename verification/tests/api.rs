use invidious::api::{
    channel_json, comments_json, error_json, hashtag_json, hashtag_unavailable_json, is_mix_id,
    mix_json, mix_video_id, playlist_json, popular_json, resolved_url_json, search_query,
    search_results_json, search_suggestions, search_unavailable_json, suggestions_payload,
    suggestions_url, trending_json,
    video_json, video_unavailable_json,
};
use invidious::json::Json;
use invidious::yt_backend::extractors::{
    Channel, Comment, CommentsResponse, Hashtag, Playlist, PlaylistVideo, SearchResult, Thumbnail,
    Video, VideoBadges,
};

/// The JSON text of a value, entries in their order.
fn render(j: &Json) -> String {
    match j {
        Json::Null => "null".to_string(),
        Json::Bool(b) => b.to_string(),
        Json::Int(n) => n.to_string(),
        Json::OtherNumber => "0.5".to_string(),
        Json::Str(s) => format!("\"{}\"", s),
        Json::Array(v) => format!("[{}]", v.iter().map(render).collect::<Vec<_>>().join(",")),
        Json::Object(e) => format!(
            "{{{}}}",
            e.iter()
                .map(|(k, v)| format!("\"{}\":{}", k, render(v)))
                .collect::<Vec<_>>()
                .join(",")
        ),
    }
}

fn s(x: &str) -> Json {
    Json::Str(x.to_string())
}

fn obj(entries: Vec<(&str, Json)>) -> Json {
    Json::Object(entries.into_iter().map(|(k, v)| (k.to_string(), v)).collect())
}

fn video(id: &str) -> Video {
    Video {
        id: id.to_string(),
        title: "T".to_string(),
        author: "A".to_string(),
        author_id: "UCa".to_string(),
        author_thumbnail: Some("at".to_string()),
        published: None,
        views: 10,
        length_seconds: 61,
        description_html: "D".to_string(),
        thumbnails: vec![Thumbnail { url: "u".to_string(), width: 1, height: 2 }],
        badges: VideoBadges::from_bits(256),
        premiere_timestamp: None,
        live_now: false,
        author_verified: true,
    }
}

#[test]
fn search_answer_describes_each_kind() {
    let results = vec![
        SearchResult::Video(video("v1")),
        SearchResult::Channel(Channel {
            id: "UCc".to_string(),
            name: "C".to_string(),
            handle: None,
            thumbnail: None,
            subscriber_count: Some(5),
            video_count: None,
            description_html: "".to_string(),
            author_verified: false,
            auto_generated: false,
        }),
        SearchResult::Playlist(Playlist {
            id: "PL".to_string(),
            title: "P".to_string(),
            author: "A".to_string(),
            author_id: "UCa".to_string(),
            video_count: 3,
            thumbnail: Some("pt".to_string()),
            videos: vec![],
        }),
        SearchResult::Hashtag(Hashtag { tag: "#t".to_string(), url: "/hashtag/t".to_string(), video_count: 7 }),
    ];
    assert_eq!(
        render(&search_results_json(&results)),
        [
            "[{\"type\":\"video\",\"title\":\"T\",\"videoId\":\"v1\",\"author\":\"A\",\"authorId\":\"UCa\",",
            "\"videoThumbnails\":[{\"url\":\"u\",\"width\":1,\"height\":2}],\"viewCount\":10,",
            "\"lengthSeconds\":61,\"published\":null,\"liveNow\":false},",
            "{\"type\":\"channel\",\"title\":\"C\",\"channelId\":\"UCc\",\"author\":\"C\",\"authorId\":\"UCc\",",
            "\"authorThumbnails\":[],\"subCount\":5,\"videoCount\":null,\"description\":\"\"},",
            "{\"type\":\"playlist\",\"title\":\"P\",\"playlistId\":\"PL\",\"author\":\"A\",\"authorId\":\"UCa\",",
            "\"videoCount\":3,\"thumbnail\":\"pt\"},",
            "{\"type\":\"hashtag\",\"title\":\"#t\",\"hashtag\":\"#t\",\"url\":\"/hashtag/t\",\"videoCount\":7}]"
        ]
        .concat()
    );
    assert_eq!(render(&search_results_json(&vec![])), "[]");
}

#[test]
fn search_query_falls_back() {
    assert_eq!(search_query(Some("a"), Some("b")), "a");
    assert_eq!(search_query(None, Some("b")), "b");
    assert_eq!(search_query(None, None), "");
    assert_eq!(render(&search_unavailable_json("q")), "{\"query\":\"q\",\"results\":[]}");
}

#[test]
fn video_lists_keep_only_videos() {
    let results = vec![
        SearchResult::Hashtag(Hashtag { tag: "#t".to_string(), url: "/h".to_string(), video_count: 1 }),
        SearchResult::Video(video("v1")),
        SearchResult::Video(video("v2")),
    ];
    let one = "{\"videoId\":\"v1\",\"title\":\"T\",\"videoThumbnails\":[{\"url\":\"u\",\"width\":1,\"height\":2}],\"author\":\"A\",\"authorId\":\"UCa\",\"viewCount\":10,\"lengthSeconds\":61,\"published\":null,\"liveNow\":false}";
    let two = one.replace("v1", "v2");
    assert_eq!(
        render(&trending_json(&results, "music")),
        format!("{{\"videos\":[{},{}],\"category\":\"music\"}}", one, two)
    );
    assert_eq!(render(&popular_json(&results)), format!("{{\"videos\":[{},{}]}}", one, two));
    assert_eq!(
        render(&hashtag_json("rust", &results)),
        format!("{{\"hashtag\":\"rust\",\"videos\":[{0},{1}],\"results\":[{0},{1}]}}", one, two)
    );
    assert_eq!(render(&hashtag_unavailable_json("rust")), "{\"hashtag\":\"rust\",\"videos\":[]}");
    assert_eq!(render(&popular_json(&vec![])), "{\"videos\":[]}");
}

#[test]
fn video_answer() {
    let j = video_json(&video("v1"), "10 views");
    assert_eq!(j.get("authorUrl").and_then(|v| v.as_str()), Some("/channel/UCa"));
    assert_eq!(j.get("viewCountText").and_then(|v| v.as_str()), Some("10 views"));
    assert_eq!(j.get("isPremium").and_then(|v| v.as_bool()), Some(true));
    assert_eq!(j.get("verified").and_then(|v| v.as_bool()), Some(true));
    assert_eq!(j.get("descriptionHtml").and_then(|v| v.as_str()), Some("D"));
    assert_eq!(
        render(j.get("authorThumbnails").unwrap()),
        "[{\"url\":\"at\",\"width\":48,\"height\":48}]"
    );
    assert!(matches!(j.get("likeCount"), Some(Json::Null)));
    match &j {
        Json::Object(e) => assert_eq!(e.len(), 28),
        _ => panic!("not an object"),
    }
    assert_eq!(
        render(&video_unavailable_json("x")),
        "{\"videoId\":\"x\",\"title\":\"Video Title\",\"description\":\"Description unavailable\"}"
    );
    assert_eq!(render(&error_json("boom")), "{\"error\":\"boom\"}");
}

#[test]
fn comments_answer() {
    let c = Comment {
        id: "c1".to_string(),
        author: "W".to_string(),
        author_thumbnail: None,
        author_id: "UCw".to_string(),
        content: "hi".to_string(),
        published: "now".to_string(),
        like_count: 4,
        is_verified: true,
        is_verified_author: false,
        replies: vec![],
    };
    let r = CommentsResponse { comments: vec![c], continuation: Some("tok".to_string()) };
    assert_eq!(
        render(&comments_json("v", &r)),
        [
            "{\"videoId\":\"v\",\"comments\":[{\"commentId\":\"c1\",\"content\":\"hi\",\"author\":\"W\",",
            "\"authorThumbnails\":[],\"authorId\":\"UCw\",\"published\":\"now\",\"likeCount\":4,",
            "\"isVerified\":true,\"isPinned\":false}],\"continuation\":\"tok\"}"
        ]
        .concat()
    );
    let empty = CommentsResponse { comments: vec![], continuation: None };
    assert_eq!(render(&comments_json("v", &empty)), "{\"videoId\":\"v\",\"comments\":[]}");
}

#[test]
fn channel_answer() {
    let c = Channel {
        id: "UCc".to_string(),
        name: "C".to_string(),
        handle: None,
        thumbnail: Some("t".to_string()),
        subscriber_count: None,
        video_count: None,
        description_html: "d".to_string(),
        author_verified: true,
        auto_generated: false,
    };
    let j = channel_json(&c);
    assert_eq!(j.get("authorUrl").and_then(|v| v.as_str()), Some("/channel/UCc"));
    assert_eq!(render(j.get("authorThumbnails").unwrap()), "[{\"url\":\"t\",\"width\":88,\"height\":88}]");
    assert_eq!(
        render(j.get("tabs").unwrap()),
        "[\"home\",\"videos\",\"shorts\",\"streams\",\"playlists\",\"community\",\"channels\",\"about\"]"
    );
    assert!(matches!(j.get("subCount"), Some(Json::Null)));
    assert_eq!(j.get("isFamilyFriendly").and_then(|v| v.as_bool()), Some(true));
}

#[test]
fn playlist_and_mix_answers() {
    let p = Playlist {
        id: "PL".to_string(),
        title: "P".to_string(),
        author: "".to_string(),
        author_id: "".to_string(),
        video_count: 1,
        thumbnail: None,
        videos: vec![PlaylistVideo { id: "v".to_string(), title: "V".to_string(), length_seconds: 5 }],
    };
    let j = playlist_json(&p);
    assert_eq!(
        render(j.get("videos").unwrap()),
        "[{\"title\":\"V\",\"videoId\":\"v\",\"author\":\"\",\"authorId\":\"\",\"videoThumbnails\":[],\"lengthSeconds\":5,\"index\":0,\"indexId\":\"v\"}]"
    );
    assert_eq!(j.get("description").and_then(|v| v.as_str()), Some(""));
    assert!(is_mix_id("RDabc"));
    assert!(!is_mix_id("PLabc"));
    assert_eq!(mix_video_id("RDdQw4w9WgXcQextra"), "dQw4w9WgXcQ");
    assert_eq!(mix_video_id("RDshort"), "short");
    assert_eq!(mix_video_id("PLx"), "");
    let m = mix_json("RDx", &vec![video("v1")]);
    assert_eq!(
        render(&m),
        "{\"relatedVideoId\":\"RDx\",\"mix\":[{\"title\":\"T\",\"videoId\":\"v1\",\"author\":\"A\",\"authorId\":\"UCa\",\"authorUrl\":\"/channel/UCa\",\"videoThumbnails\":[{\"url\":\"u\",\"width\":1,\"height\":2}],\"lengthSeconds\":61}]}"
    );
}

#[test]
fn resolved_addresses() {
    let response = obj(vec![(
        "endpoint",
        obj(vec![("browseId", s("UCabc")), ("startTimeSeconds", Json::Int(30))]),
    )]);
    assert_eq!(
        render(&resolved_url_json(&response, "https://youtu.be/x")),
        "{\"browseId\":\"UCabc\",\"ucid\":\"UCabc\",\"videoId\":null,\"playlistId\":null,\"startTimeSeconds\":30,\"url\":\"https://youtu.be/x\"}"
    );
    let other = obj(vec![("endpoint", obj(vec![("browseId", s("FEtrending"))]))]);
    let j = resolved_url_json(&other, "u");
    assert!(matches!(j.get("ucid"), Some(Json::Null)));
    assert_eq!(j.get("browseId").and_then(|v| v.as_str()), Some("FEtrending"));
}

#[test]
fn suggestions() {
    let response = Json::Array(vec![
        s("query"),
        Json::Array(vec![
            Json::Array(vec![s("first"), Json::Int(0)]),
            Json::Array(vec![Json::Int(1)]),
            s("not a list"),
            Json::Array(vec![s("second")]),
        ]),
    ]);
    assert_eq!(search_suggestions(&response), vec!["first".to_string(), "second".to_string()]);
    assert!(search_suggestions(&Json::Array(vec![s("q")])).is_empty());
    assert!(search_suggestions(&s("x")).is_empty());
}

#[test]
fn suggestion_address_encodes_the_query() {
    assert_eq!(
        suggestions_url("a b&c"),
        "https://suggestqueries-clients6.youtube.com/complete/search?client=youtube&hl=en&gl=US&q=a%20b%26c&gs_ri=youtube&ds=yt"
    );
    assert_eq!(
        suggestions_url("é"),
        "https://suggestqueries-clients6.youtube.com/complete/search?client=youtube&hl=en&gl=US&q=%C3%A9&gs_ri=youtube&ds=yt"
    );
}

#[test]
fn suggestion_reply_loses_its_wrapper() {
    let reply = "window.google.ac.h([\"q\",[]])";
    let payload = suggestions_payload(reply.as_bytes()).unwrap();
    assert_eq!(payload, b"[\"q\",[]])".to_vec());
    assert_eq!(suggestions_payload(&[b'x'; 21]), Some(vec![b'x'; 2]));
    assert_eq!(suggestions_payload(&[b'x'; 20]), None);
    assert_eq!(suggestions_payload(b""), None);
}
