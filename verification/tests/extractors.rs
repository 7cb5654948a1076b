use invidious::json::Json;
use invidious::yt_backend::extractors::{
    count_text, parse_length_seconds, Channel, CommentsResponse, Hashtag, Playlist, SearchResult,
    Video, VideoBadges,
};

fn s(x: &str) -> Json {
    Json::Str(x.to_string())
}

fn obj(entries: Vec<(&str, Json)>) -> Json {
    Json::Object(entries.into_iter().map(|(k, v)| (k.to_string(), v)).collect())
}

fn arr(items: Vec<Json>) -> Json {
    Json::Array(items)
}

fn run(text: &str, browse_id: &str) -> Json {
    obj(vec![
        ("text", s(text)),
        (
            "navigationEndpoint",
            obj(vec![("browseEndpoint", obj(vec![("browseId", s(browse_id))]))]),
        ),
    ])
}

fn thumb(url: &str, w: i64, h: i64) -> Json {
    obj(vec![("url", s(url)), ("width", Json::Int(w)), ("height", Json::Int(h))])
}

/// The count reader of the server: the numeral read as a float, scaled by
/// the multiplier and cut to an integer.
fn parse_count(x: &str) -> Option<i64> {
    let c = count_text(x)?;
    let num: f64 = c.numeral.parse().ok()?;
    Some((num * c.multiplier as f64) as i64)
}

#[test]
fn test_parse_length_seconds() {
    assert_eq!(parse_length_seconds("10:30"), Some(630));
    assert_eq!(parse_length_seconds("1:30:45"), Some(5445));
    assert_eq!(parse_length_seconds("59"), Some(59));
}

#[test]
fn length_texts_that_do_not_parse() {
    assert_eq!(parse_length_seconds(""), None);
    assert_eq!(parse_length_seconds("a:10"), None);
    assert_eq!(parse_length_seconds("1:2:3:4"), None);
    assert_eq!(parse_length_seconds("-5"), Some(-5));
    assert_eq!(parse_length_seconds("+7"), Some(7));
}

#[test]
fn test_parse_count() {
    assert_eq!(parse_count("1.5M"), Some(1500000));
    assert_eq!(parse_count("500K"), Some(500000));
    assert_eq!(parse_count("100"), Some(100));
}

#[test]
fn count_texts_split_into_numeral_and_multiplier() {
    let c = count_text("1,234 views").unwrap();
    assert_eq!(c.numeral, "1234");
    assert_eq!(c.multiplier, 1);
    let c = count_text("1.5M subscribers").unwrap();
    assert_eq!(c.numeral, "1.5");
    assert_eq!(c.multiplier, 1_000_000);
    let c = count_text("2B").unwrap();
    assert_eq!(c.multiplier, 1_000_000_000);
    assert!(count_text("no digits").is_none());
    assert!(count_text("1.2.3").is_none());
    assert!(count_text(".").is_none());
}

#[test]
fn video_badges() {
    let b = VideoBadges::from_bits(1 | 256);
    assert!(b.has_live_now());
    assert!(!b.has_new());
    assert!(b.has_premium());
    assert!(VideoBadges::from_bits(2).has_new());
}

#[test]
fn video_from_player_response() {
    let response = obj(vec![(
        "videoDetails",
        obj(vec![
            ("title", obj(vec![("simpleText", s("A title"))])),
            ("author", obj(vec![("simpleText", s("Someone"))])),
            ("channelId", s("UC123")),
            ("viewCount", s("1234")),
            ("lengthSeconds", s("212")),
            ("shortDescription", s("About")),
            ("isLive", Json::Bool(true)),
            (
                "thumbnail",
                obj(vec![("thumbnails", arr(vec![thumb("t1", 120, 90), obj(vec![("width", Json::Int(1))])]))]),
            ),
            ("authorThumbnail", obj(vec![("thumbnails", arr(vec![thumb("a1", 48, 48)]))])),
        ]),
    )]);
    let v = Video::from_api_response(response, "vid1");
    assert_eq!(v.id, "vid1");
    assert_eq!(v.title, "A title");
    assert_eq!(v.author, "Someone");
    assert_eq!(v.author_id, "UC123");
    assert_eq!(v.views, 1234);
    assert_eq!(v.length_seconds, 212);
    assert_eq!(v.description_html, "About");
    assert!(v.live_now);
    assert_eq!(v.author_thumbnail, Some("a1".to_string()));
    assert_eq!(v.thumbnails.len(), 1);
    assert_eq!(v.thumbnails[0].url, "t1");
    assert_eq!(v.thumbnails[0].width, 120);
    assert_eq!(v.thumbnails[0].height, 90);
    assert_eq!(v.published, None);
}

#[test]
fn video_from_empty_player_response() {
    let v = Video::from_api_response(obj(vec![]), "x");
    assert_eq!(v.id, "x");
    assert_eq!(v.title, "");
    assert_eq!(v.views, 0);
    assert_eq!(v.length_seconds, 0);
    assert!(!v.live_now);
    assert!(v.thumbnails.is_empty());
}

fn video_renderer() -> Json {
    obj(vec![
        ("videoId", s("abc")),
        ("title", obj(vec![("runs", arr(vec![obj(vec![("text", s("Run title"))])]))])),
        ("ownerText", obj(vec![("runs", arr(vec![run("Owner", "UCowner")]))])),
        ("viewCountText", obj(vec![("simpleText", s("1,234 views"))])),
        ("lengthText", obj(vec![("simpleText", s("10:30"))])),
        ("thumbnail", obj(vec![("thumbnails", arr(vec![thumb("t", 1, 2)]))])),
        (
            "badges",
            arr(vec![obj(vec![("metadataBadgeRenderer", obj(vec![("label", s("LIVE"))]))])]),
        ),
    ])
}

#[test]
fn video_from_search_renderer() {
    let v = Video::from_video_renderer(&video_renderer()).unwrap();
    assert_eq!(v.id, "abc");
    assert_eq!(v.title, "Run title");
    assert_eq!(v.author, "Owner");
    assert_eq!(v.author_id, "UCowner");
    assert_eq!(v.views, 1234);
    assert_eq!(v.length_seconds, 630);
    assert!(v.live_now);
    assert_eq!(v.thumbnails.len(), 1);
}

#[test]
fn video_renderer_without_id_is_skipped() {
    assert!(Video::from_video_renderer(&obj(vec![("title", s("x"))])).is_none());
}

#[test]
fn related_videos_read_titles_from_runs_only() {
    let response = obj(vec![(
        "contents",
        obj(vec![(
            "twoColumnWatchNextResults",
            obj(vec![(
                "secondaryResults",
                obj(vec![(
                    "secondaryResults",
                    obj(vec![(
                        "results",
                        arr(vec![
                            obj(vec![(
                                "videoRenderer",
                                obj(vec![
                                    ("videoId", s("r1")),
                                    ("title", obj(vec![("simpleText", s("Simple"))])),
                                    ("shortBylineText", obj(vec![("runs", arr(vec![run("By", "UCby")]))])),
                                    ("lengthText", obj(vec![("simpleText", s("1:00"))])),
                                ]),
                            )]),
                            obj(vec![("compactRadioRenderer", obj(vec![]))]),
                            obj(vec![(
                                "videoRenderer",
                                obj(vec![
                                    ("videoId", s("r2")),
                                    ("title", obj(vec![("runs", arr(vec![obj(vec![("text", s("Second"))])]))])),
                                ]),
                            )]),
                        ]),
                    )]),
                )]),
            )]),
        )]),
    )]);
    let vs = Video::from_related_videos(response);
    assert_eq!(vs.len(), 2);
    assert_eq!(vs[0].id, "r1");
    assert_eq!(vs[0].title, "");
    assert_eq!(vs[0].author, "By");
    assert_eq!(vs[0].author_id, "UCby");
    assert_eq!(vs[0].length_seconds, 60);
    assert_eq!(vs[1].id, "r2");
    assert_eq!(vs[1].title, "Second");
}

#[test]
fn channel_from_browse_response() {
    let response = obj(vec![
        (
            "metadata",
            obj(vec![(
                "channelMetadataRenderer",
                obj(vec![
                    ("title", s("Chan")),
                    ("handle", s("@chan")),
                    ("avatar", obj(vec![("thumbnails", arr(vec![thumb("av", 88, 88)]))])),
                ]),
            )]),
        ),
        (
            "contents",
            obj(vec![(
                "twoColumnBrowseResultsRenderer",
                obj(vec![(
                    "tabs",
                    arr(vec![obj(vec![(
                        "tabRenderer",
                        obj(vec![(
                            "content",
                            obj(vec![(
                                "sectionListRenderer",
                                obj(vec![(
                                    "contents",
                                    arr(vec![obj(vec![(
                                        "itemSectionRenderer",
                                        obj(vec![(
                                            "contents",
                                            arr(vec![obj(vec![(
                                                "channelHeaderLinksRenderer",
                                                obj(vec![("subscriberCount", s("1.5M subscribers"))]),
                                            )])]),
                                        )]),
                                    )])]),
                                )]),
                            )]),
                        )]),
                    )])]),
                )]),
            )]),
        ),
    ]);
    let c = Channel::from_api_response(response, "UCchan", &parse_count);
    assert_eq!(c.id, "UCchan");
    assert_eq!(c.name, "Chan");
    assert_eq!(c.handle, Some("@chan".to_string()));
    assert_eq!(c.thumbnail, Some("av".to_string()));
    assert_eq!(c.subscriber_count, Some(1_500_000));
    assert_eq!(c.video_count, None);
}

#[test]
fn channel_from_search_renderer() {
    let r = obj(vec![
        ("channelId", s("UCx")),
        ("title", obj(vec![("simpleText", s("X"))])),
        ("subscriberCountText", obj(vec![("simpleText", s("@xhandle"))])),
        ("videoCountText", obj(vec![("simpleText", s("12K subscribers"))])),
    ]);
    let c = Channel::from_channel_renderer(&r, &parse_count).unwrap();
    assert_eq!(c.id, "UCx");
    assert_eq!(c.name, "X");
    assert_eq!(c.handle, Some("@xhandle".to_string()));
    // The handle has no digits, so the subscriber count is not a number.
    assert_eq!(c.subscriber_count, None);
    assert_eq!(c.video_count, Some(12_000));
    assert!(Channel::from_channel_renderer(&obj(vec![]), &parse_count).is_none());
}

#[test]
fn playlist_from_search_renderer() {
    let r = obj(vec![
        ("playlistId", s("PL1")),
        ("title", obj(vec![("simpleText", s("List"))])),
        ("shortBylineText", obj(vec![("runs", arr(vec![run("Maker", "UCm")]))])),
        ("videoCount", s("25")),
        (
            "thumbnails",
            arr(vec![obj(vec![("thumbnails", arr(vec![thumb("pt", 1, 1)]))])]),
        ),
    ]);
    let p = Playlist::from_playlist_renderer(&r, &parse_count).unwrap();
    assert_eq!(p.id, "PL1");
    assert_eq!(p.title, "List");
    assert_eq!(p.author, "Maker");
    assert_eq!(p.author_id, "UCm");
    assert_eq!(p.video_count, 25);
    assert_eq!(p.thumbnail, Some("pt".to_string()));
    assert!(p.videos.is_empty());
}

#[test]
fn hashtag_from_renderer() {
    let r = obj(vec![
        ("hashtag", obj(vec![("simpleText", s("#rust"))])),
        ("hashtagVideoCount", obj(vec![("simpleText", s("1.2K videos"))])),
    ]);
    let h = Hashtag::from_hashtag_renderer(&r, &parse_count).unwrap();
    assert_eq!(h.tag, "#rust");
    assert_eq!(h.url, "/hashtag/rust");
    assert_eq!(h.video_count, 1200);
    let with_url = obj(vec![
        ("hashtag", obj(vec![("simpleText", s("#a"))])),
        (
            "onTapCommand",
            obj(vec![(
                "commandMetadata",
                obj(vec![("webCommandMetadata", obj(vec![("url", s("/hashtag/a?x"))]))]),
            )]),
        ),
    ]);
    let h = Hashtag::from_hashtag_renderer(&with_url, &parse_count).unwrap();
    assert_eq!(h.url, "/hashtag/a?x");
    assert_eq!(h.video_count, 0);
}

#[test]
fn search_response_keeps_known_items_in_order() {
    let items = arr(vec![
        obj(vec![("videoRenderer", video_renderer())]),
        obj(vec![("shelfRenderer", obj(vec![]))]),
        obj(vec![("channelRenderer", obj(vec![("channelId", s("UCc"))]))]),
        obj(vec![("videoRenderer", obj(vec![]))]),
        obj(vec![("hashtagTileRenderer", obj(vec![("hashtag", obj(vec![("simpleText", s("#t"))]))]))]),
    ]);
    let response = obj(vec![(
        "contents",
        obj(vec![(
            "twoColumnSearchResultsRenderer",
            obj(vec![(
                "primaryContents",
                obj(vec![(
                    "sectionListRenderer",
                    obj(vec![(
                        "contents",
                        arr(vec![
                            obj(vec![("itemSectionRenderer", obj(vec![("contents", items)]))]),
                            obj(vec![("continuationItemRenderer", obj(vec![]))]),
                        ]),
                    )]),
                )]),
            )]),
        )]),
    )]);
    let results = SearchResult::from_search_response(response, &parse_count);
    assert_eq!(results.len(), 3);
    assert!(matches!(&results[0], SearchResult::Video(v) if v.id == "abc"));
    assert!(matches!(&results[1], SearchResult::Channel(c) if c.id == "UCc"));
    assert!(matches!(&results[2], SearchResult::Hashtag(h) if h.tag == "#t"));
}

#[test]
fn playlist_from_browse_response() {
    let videos = arr(vec![
        obj(vec![(
            "playlistVideoRenderer",
            obj(vec![
                ("videoId", s("v1")),
                ("title", obj(vec![("runs", arr(vec![obj(vec![("text", s("One"))])]))])),
                ("lengthText", obj(vec![("simpleText", s("3:05"))])),
            ]),
        )]),
        obj(vec![("playlistVideoRenderer", obj(vec![("title", s("no id"))]))]),
        obj(vec![("playlistVideoRenderer", obj(vec![("videoId", s("v2"))]))]),
    ]);
    let response = obj(vec![
        ("metadata", obj(vec![("playlistMetadataRenderer", obj(vec![("title", s("My list"))]))])),
        (
            "contents",
            obj(vec![(
                "twoColumnBrowseResultsRenderer",
                obj(vec![(
                    "tabs",
                    arr(vec![obj(vec![(
                        "tabRenderer",
                        obj(vec![(
                            "content",
                            obj(vec![(
                                "sectionListRenderer",
                                obj(vec![(
                                    "contents",
                                    arr(vec![obj(vec![(
                                        "itemSectionRenderer",
                                        obj(vec![(
                                            "contents",
                                            arr(vec![obj(vec![(
                                                "playlistVideoListRenderer",
                                                obj(vec![("contents", videos)]),
                                            )])]),
                                        )]),
                                    )])]),
                                )]),
                            )]),
                        )]),
                    )])]),
                )]),
            )]),
        ),
    ]);
    let p = Playlist::from_api_response(response, "PLx");
    assert_eq!(p.id, "PLx");
    assert_eq!(p.title, "My list");
    assert_eq!(p.video_count, 2);
    assert_eq!(p.videos.len(), 2);
    assert_eq!(p.videos[0].id, "v1");
    assert_eq!(p.videos[0].title, "One");
    assert_eq!(p.videos[0].length_seconds, 185);
    assert_eq!(p.videos[1].id, "v2");
    assert_eq!(p.videos[1].title, "");
    assert_eq!(p.author, "");
}

fn comment(id: &str, text: &[&str], votes: &str, badge: bool) -> Json {
    let mut entries = vec![
        ("commentId", s(id)),
        ("authorText", obj(vec![("runs", arr(vec![obj(vec![("text", s("Writer"))])]))])),
        (
            "authorEndpoint",
            obj(vec![("browseEndpoint", obj(vec![("browseId", s("UCw"))]))]),
        ),
        (
            "contentText",
            obj(vec![("runs", arr(text.iter().map(|t| obj(vec![("text", s(t))])).collect()))]),
        ),
        ("publishedTimeText", obj(vec![("runs", arr(vec![obj(vec![("text", s("1 day ago"))])]))])),
        ("voteCount", obj(vec![("simpleText", s(votes))])),
    ];
    if badge {
        entries.push(("authorCommentBadge", obj(vec![])));
    }
    obj(entries)
}

#[test]
fn comments_with_replies_and_continuation() {
    let thread = obj(vec![(
        "commentThreadRenderer",
        obj(vec![
            ("comment", obj(vec![("commentRenderer", comment("c1", &["Hello ", "world"], "1.2K", true))])),
            (
                "replies",
                obj(vec![(
                    "commentRepliesRenderer",
                    obj(vec![(
                        "comments",
                        arr(vec![
                            obj(vec![("commentRenderer", comment("r1", &["reply"], "3", false))]),
                            obj(vec![("commentRenderer", obj(vec![]))]),
                        ]),
                    )]),
                )]),
            ),
        ]),
    )]);
    let response = obj(vec![(
        "contents",
        obj(vec![(
            "twoColumnWatchNextResults",
            obj(vec![
                (
                    "results",
                    obj(vec![(
                        "results",
                        obj(vec![(
                            "comments",
                            obj(vec![(
                                "header",
                                obj(vec![(
                                    "commentsHeaderRenderer",
                                    obj(vec![(
                                        "commentSort",
                                        obj(vec![(
                                            "sortFilterMenuRenderer",
                                            obj(vec![("comments", arr(vec![thread, obj(vec![])]))]),
                                        )]),
                                    )]),
                                )]),
                            )]),
                        )]),
                    )]),
                ),
                (
                    "secondaryResults",
                    obj(vec![(
                        "secondaryResults",
                        obj(vec![(
                            "continuations",
                            arr(vec![obj(vec![(
                                "nextContinuationData",
                                obj(vec![("continuation", s("TOKEN"))]),
                            )])]),
                        )]),
                    )]),
                ),
            ]),
        )]),
    )]);
    let r = CommentsResponse::from_api_response(response, &parse_count);
    assert_eq!(r.continuation, Some("TOKEN".to_string()));
    assert_eq!(r.comments.len(), 1);
    let c = &r.comments[0];
    assert_eq!(c.id, "c1");
    assert_eq!(c.author, "Writer");
    assert_eq!(c.author_id, "UCw");
    assert_eq!(c.content, "Hello world");
    assert_eq!(c.published, "1 day ago");
    assert_eq!(c.like_count, 1200);
    assert!(c.is_verified);
    assert!(!c.is_verified_author);
    assert_eq!(c.replies.len(), 1);
    assert_eq!(c.replies[0].id, "r1");
    assert_eq!(c.replies[0].like_count, 3);
    assert!(!c.replies[0].is_verified);
    assert!(c.replies[0].replies.is_empty());
}

#[test]
fn object_lookups_take_the_last_entry() {
    let j = obj(vec![("k", s("first")), ("k", s("second"))]);
    assert_eq!(j.get("k").and_then(|v| v.as_str()), Some("second"));
    assert!(j.get("missing").is_none());
    assert!(s("x").get("k").is_none());
}
