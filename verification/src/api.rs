//! The JSON documents that the `/api/v1` endpoints answer with, built from
//! what the extractors read.
//!
//! Each function here is the part of an endpoint that shapes its answer; the
//! endpoint makes the request and hands the result over.

use vstd::prelude::*;
use crate::json::{
    deref_opt, get, items_view, jarray, jat, jint, json_str, json_view, jstr, member, object_view, opt_get,
    opt_view, push_entry, push_item, Json, JsonView,
};
use crate::text::{chars_of, has_prefix, push_str, starts_with, string_of};
use crate::yt_backend::url_sanitizer::{escape_text, percent_escape};
use crate::yt_backend::extractors::{
    comment_head, playlist_video_view, thumb_views, Channel, ChannelView, Comment, CommentView,
    CommentsResponse, HashtagView, Playlist, PlaylistVideo, PlaylistView, SearchResult,
    SearchResultView, Thumbnail, Video, VideoView,
};

verus! {

// ---------------------------------------------------------------------------
// Pieces
// ---------------------------------------------------------------------------

/// An optional string: the string, or `null`.
pub open spec fn opt_text_v(o: Option<Seq<char>>) -> JsonView {
    match o {
        Some(s) => JsonView::Str(s),
        None => JsonView::Null,
    }
}

/// An optional number: the number, or `null`.
pub open spec fn opt_int_v(o: Option<i64>) -> JsonView {
    match o {
        Some(n) => JsonView::Int(n),
        None => JsonView::Null,
    }
}

/// The object that describes one thumbnail.
pub open spec fn thumb_v(t: (Seq<char>, u32, u32)) -> JsonView {
    JsonView::Object(
        seq![
            ("url"@, JsonView::Str(t.0)),
            ("width"@, JsonView::Int(t.1 as i64)),
            ("height"@, JsonView::Int(t.2 as i64)),
        ],
    )
}

/// The array that describes a list of thumbnails.
pub open spec fn thumbs_v(ts: Seq<(Seq<char>, u32, u32)>) -> JsonView {
    JsonView::Array(ts.map_values(|t: (Seq<char>, u32, u32)| thumb_v(t)))
}

/// The author thumbnails of an item: one square thumbnail of `size` where
/// the item has an address for it, none otherwise.
pub open spec fn author_thumbs_v(t: Option<Seq<char>>, size: i64) -> JsonView {
    match t {
        Some(url) => JsonView::Array(
            seq![
                JsonView::Object(
                    seq![
                        ("url"@, JsonView::Str(url)),
                        ("width"@, JsonView::Int(size)),
                        ("height"@, JsonView::Int(size)),
                    ],
                ),
            ],
        ),
        None => JsonView::Array(Seq::empty()),
    }
}

fn opt_text_json(o: &Option<String>) -> (r: Json)
    ensures
        json_view(r) == opt_text_v(match o {
            Some(s) => Some(s@),
            None => None,
        }),
{
    match o {
        Some(s) => json_str(s.as_str()),
        None => Json::Null,
    }
}

fn opt_int_json(o: Option<i64>) -> (r: Json)
    ensures
        json_view(r) == opt_int_v(o),
{
    match o {
        Some(n) => Json::Int(n),
        None => Json::Null,
    }
}

/// The array that describes a list of thumbnails.
pub fn thumbnails_json(ts: &Vec<Thumbnail>) -> (r: Json)
    ensures
        json_view(r) == thumbs_v(thumb_views(ts@)),
{
    let ghost tv = thumb_views(ts@);
    let mut items: Vec<Json> = Vec::new();
    let mut i: usize = 0;
    while i < ts.len()
        invariant
            tv == thumb_views(ts@),
            i <= ts@.len(),
            items_view(items@) == tv.take(i as int).map_values(|t: (Seq<char>, u32, u32)| thumb_v(t)),
        decreases ts@.len() - i,
    {
        let t = &ts[i];
        let mut e: Vec<(String, Json)> = Vec::new();
        push_entry(&mut e, "url", json_str(t.url.as_str()));
        push_entry(&mut e, "width", Json::Int(t.width as i64));
        push_entry(&mut e, "height", Json::Int(t.height as i64));
        assert(tv[i as int] == (t.url@, t.width, t.height));
        assert(object_view(e@) =~= seq![
            ("url"@, JsonView::Str(t.url@)),
            ("width"@, JsonView::Int(t.width as i64)),
            ("height"@, JsonView::Int(t.height as i64)),
        ]);
        let obj = Json::Object(e);
        assert(json_view(obj) == thumb_v(tv[i as int]));
        push_item(&mut items, obj);
        assert(tv.take(i + 1) =~= tv.take(i as int).push(tv[i as int]));
        assert(items_view(items@) =~= tv.take(i + 1).map_values(
            |t: (Seq<char>, u32, u32)| thumb_v(t),
        ));
        i = i + 1;
    }
    assert(tv.take(ts@.len() as int) =~= tv);
    Json::Array(items)
}

/// The author thumbnails of an item.
pub fn author_thumbnails_json(t: &Option<String>, size: i64) -> (r: Json)
    ensures
        json_view(r) == author_thumbs_v(
            match t {
                Some(s) => Some(s@),
                None => None,
            },
            size,
        ),
{
    let mut items: Vec<Json> = Vec::new();
    match t {
        Some(url) => {
            let mut e: Vec<(String, Json)> = Vec::new();
            push_entry(&mut e, "url", json_str(url.as_str()));
            push_entry(&mut e, "width", Json::Int(size));
            push_entry(&mut e, "height", Json::Int(size));
            let ghost ev = seq![
                ("url"@, JsonView::Str(url@)),
                ("width"@, JsonView::Int(size)),
                ("height"@, JsonView::Int(size)),
            ];
            assert(object_view(e@) =~= ev);
            let obj = Json::Object(e);
            assert(json_view(obj) == JsonView::Object(ev));
            push_item(&mut items, obj);
            assert(items_view(items@) =~= seq![JsonView::Object(ev)]);
        },
        None => {
            assert(items_view(items@) =~= Seq::<JsonView>::empty());
        },
    }
    let r = Json::Array(items);
    assert(json_view(r) =~~= author_thumbs_v(
        match t {
            Some(s) => Some(s@),
            None => None,
        },
        size,
    ));
    r
}

/// The answer of an endpoint whose request failed.
pub fn error_json(message: &str) -> (r: Json)
    ensures
        json_view(r) == JsonView::Object(seq![("error"@, JsonView::Str(message@))]),
{
    let mut e: Vec<(String, Json)> = Vec::new();
    push_entry(&mut e, "error", json_str(message));
    let r = Json::Object(e);
    assert(json_view(r) =~~= JsonView::Object(seq![("error"@, JsonView::Str(message@))]));
    r
}

// ---------------------------------------------------------------------------
// Search results
// ---------------------------------------------------------------------------

/// The object that describes a video found by a search.
pub open spec fn search_video_v(v: VideoView) -> JsonView {
    JsonView::Object(
        seq![
            ("type"@, JsonView::Str("video"@)),
            ("title"@, JsonView::Str(v.title)),
            ("videoId"@, JsonView::Str(v.id)),
            ("author"@, JsonView::Str(v.author)),
            ("authorId"@, JsonView::Str(v.author_id)),
            ("videoThumbnails"@, thumbs_v(v.thumbnails)),
            ("viewCount"@, JsonView::Int(v.views)),
            ("lengthSeconds"@, JsonView::Int(v.length_seconds as i64)),
            ("published"@, opt_text_v(v.published)),
            ("liveNow"@, JsonView::Bool(v.live_now)),
        ],
    )
}

/// The object that describes a channel found by a search.
pub open spec fn search_channel_v(c: ChannelView) -> JsonView {
    JsonView::Object(
        seq![
            ("type"@, JsonView::Str("channel"@)),
            ("title"@, JsonView::Str(c.name)),
            ("channelId"@, JsonView::Str(c.id)),
            ("author"@, JsonView::Str(c.name)),
            ("authorId"@, JsonView::Str(c.id)),
            ("authorThumbnails"@, author_thumbs_v(c.thumbnail, 88)),
            ("subCount"@, opt_int_v(c.subscriber_count)),
            ("videoCount"@, opt_int_v(c.video_count)),
            ("description"@, JsonView::Str(c.description_html)),
        ],
    )
}

/// The object that describes a playlist found by a search.
pub open spec fn search_playlist_v(p: PlaylistView) -> JsonView {
    JsonView::Object(
        seq![
            ("type"@, JsonView::Str("playlist"@)),
            ("title"@, JsonView::Str(p.title)),
            ("playlistId"@, JsonView::Str(p.id)),
            ("author"@, JsonView::Str(p.author)),
            ("authorId"@, JsonView::Str(p.author_id)),
            ("videoCount"@, JsonView::Int(p.video_count)),
            ("thumbnail"@, opt_text_v(p.thumbnail)),
        ],
    )
}

/// The object that describes a hashtag found by a search.
pub open spec fn search_hashtag_v(h: HashtagView) -> JsonView {
    JsonView::Object(
        seq![
            ("type"@, JsonView::Str("hashtag"@)),
            ("title"@, JsonView::Str(h.tag)),
            ("hashtag"@, JsonView::Str(h.tag)),
            ("url"@, JsonView::Str(h.url)),
            ("videoCount"@, JsonView::Int(h.video_count)),
        ],
    )
}

/// The object that describes one search result.
pub open spec fn search_item_v(r: SearchResultView) -> JsonView {
    match r {
        SearchResultView::Video(v) => search_video_v(v),
        SearchResultView::Channel(c) => search_channel_v(c),
        SearchResultView::Playlist(p) => search_playlist_v(p),
        SearchResultView::Hashtag(h) => search_hashtag_v(h),
    }
}

/// The object that describes one search result.
pub fn search_item_json(item: &SearchResult) -> (r: Json)
    ensures
        json_view(r) == search_item_v(item@),
{
    let mut e: Vec<(String, Json)> = Vec::new();
    match item {
        SearchResult::Video(v) => {
            push_entry(&mut e, "type", json_str("video"));
            push_entry(&mut e, "title", json_str(v.title.as_str()));
            push_entry(&mut e, "videoId", json_str(v.id.as_str()));
            push_entry(&mut e, "author", json_str(v.author.as_str()));
            push_entry(&mut e, "authorId", json_str(v.author_id.as_str()));
            push_entry(&mut e, "videoThumbnails", thumbnails_json(&v.thumbnails));
            push_entry(&mut e, "viewCount", Json::Int(v.views));
            push_entry(&mut e, "lengthSeconds", Json::Int(v.length_seconds as i64));
            push_entry(&mut e, "published", opt_text_json(&v.published));
            push_entry(&mut e, "liveNow", Json::Bool(v.live_now));
            assert(object_view(e@) =~= search_video_v(v@)->Object_0);
        },
        SearchResult::Channel(c) => {
            push_entry(&mut e, "type", json_str("channel"));
            push_entry(&mut e, "title", json_str(c.name.as_str()));
            push_entry(&mut e, "channelId", json_str(c.id.as_str()));
            push_entry(&mut e, "author", json_str(c.name.as_str()));
            push_entry(&mut e, "authorId", json_str(c.id.as_str()));
            push_entry(&mut e, "authorThumbnails", author_thumbnails_json(&c.thumbnail, 88));
            push_entry(&mut e, "subCount", opt_int_json(c.subscriber_count));
            push_entry(&mut e, "videoCount", opt_int_json(c.video_count));
            push_entry(&mut e, "description", json_str(c.description_html.as_str()));
            assert(object_view(e@) =~= search_channel_v(c@)->Object_0);
        },
        SearchResult::Playlist(p) => {
            push_entry(&mut e, "type", json_str("playlist"));
            push_entry(&mut e, "title", json_str(p.title.as_str()));
            push_entry(&mut e, "playlistId", json_str(p.id.as_str()));
            push_entry(&mut e, "author", json_str(p.author.as_str()));
            push_entry(&mut e, "authorId", json_str(p.author_id.as_str()));
            push_entry(&mut e, "videoCount", Json::Int(p.video_count));
            push_entry(&mut e, "thumbnail", opt_text_json(&p.thumbnail));
            assert(object_view(e@) =~= search_playlist_v(p@)->Object_0);
        },
        SearchResult::Hashtag(h) => {
            push_entry(&mut e, "type", json_str("hashtag"));
            push_entry(&mut e, "title", json_str(h.tag.as_str()));
            push_entry(&mut e, "hashtag", json_str(h.tag.as_str()));
            push_entry(&mut e, "url", json_str(h.url.as_str()));
            push_entry(&mut e, "videoCount", Json::Int(h.video_count));
            assert(object_view(e@) =~= search_hashtag_v(h@)->Object_0);
        },
    }
    Json::Object(e)
}

/// The views of a list of search results.
pub open spec fn result_views(rs: Seq<SearchResult>) -> Seq<SearchResultView> {
    rs.map_values(|r: SearchResult| r@)
}

/// The array that answers a search: one object per result, in order.
pub fn search_results_json(results: &Vec<SearchResult>) -> (r: Json)
    ensures
        json_view(r) == JsonView::Array(
            result_views(results@).map_values(|x: SearchResultView| search_item_v(x)),
        ),
{
    let ghost rv = result_views(results@);
    let mut items: Vec<Json> = Vec::new();
    let mut i: usize = 0;
    while i < results.len()
        invariant
            rv == result_views(results@),
            i <= results@.len(),
            items_view(items@) == rv.take(i as int).map_values(|x: SearchResultView| search_item_v(x)),
        decreases results@.len() - i,
    {
        let item = search_item_json(&results[i]);
        push_item(&mut items, item);
        assert(rv.take(i + 1) =~= rv.take(i as int).push(rv[i as int]));
        assert(items_view(items@) =~= rv.take(i + 1).map_values(|x: SearchResultView| search_item_v(x)));
        i = i + 1;
    }
    assert(rv.take(results@.len() as int) =~= rv);
    Json::Array(items)
}

/// The query of a search request: `q`, else `search`, else nothing.
pub fn search_query<'a>(q: Option<&'a str>, search: Option<&'a str>) -> (r: &'a str)
    ensures
        r@ == match q {
            Some(s) => s@,
            None => match search {
                Some(s) => s@,
                None => Seq::empty(),
            },
        },
{
    proof {
        reveal_strlit("");
    }
    match q {
        Some(s) => s,
        None => match search {
            Some(s) => s,
            None => "",
        },
    }
}

/// The answer of the search endpoint when no request can be made.
pub fn search_unavailable_json(query: &str) -> (r: Json)
    ensures
        json_view(r) == JsonView::Object(
            seq![("query"@, JsonView::Str(query@)), ("results"@, JsonView::Array(Seq::empty()))],
        ),
{
    let mut e: Vec<(String, Json)> = Vec::new();
    push_entry(&mut e, "query", json_str(query));
    let empty = Json::Array(Vec::new());
    assert(json_view(empty) =~~= JsonView::Array(Seq::empty()));
    push_entry(&mut e, "results", empty);
    assert(object_view(e@) =~= seq![
        ("query"@, JsonView::Str(query@)),
        ("results"@, JsonView::Array(Seq::empty())),
    ]);
    Json::Object(e)
}

// ---------------------------------------------------------------------------
// Video lists
// ---------------------------------------------------------------------------

fn empty_array() -> (r: Json)
    ensures
        json_view(r) == JsonView::Array(Seq::empty()),
{
    let r = Json::Array(Vec::new());
    assert(json_view(r) =~~= JsonView::Array(Seq::empty()));
    r
}

/// The object that describes a video in a list of trending, popular or
/// hashtag videos.
pub open spec fn video_summary_v(v: VideoView) -> JsonView {
    JsonView::Object(
        seq![
            ("videoId"@, JsonView::Str(v.id)),
            ("title"@, JsonView::Str(v.title)),
            ("videoThumbnails"@, thumbs_v(v.thumbnails)),
            ("author"@, JsonView::Str(v.author)),
            ("authorId"@, JsonView::Str(v.author_id)),
            ("viewCount"@, JsonView::Int(v.views)),
            ("lengthSeconds"@, JsonView::Int(v.length_seconds as i64)),
            ("published"@, opt_text_v(v.published)),
            ("liveNow"@, JsonView::Bool(v.live_now)),
        ],
    )
}

/// The objects that describe the videos among `rs`, in order; the other
/// results are left out.
pub open spec fn video_summaries(rs: Seq<SearchResultView>) -> Seq<JsonView>
    decreases rs.len(),
{
    if rs.len() == 0 {
        Seq::empty()
    } else {
        match rs.last() {
            SearchResultView::Video(v) => video_summaries(rs.drop_last()).push(video_summary_v(v)),
            _ => video_summaries(rs.drop_last()),
        }
    }
}

fn video_summary_json(v: &Video) -> (r: Json)
    ensures
        json_view(r) == video_summary_v(v@),
{
    let mut e: Vec<(String, Json)> = Vec::new();
    push_entry(&mut e, "videoId", json_str(v.id.as_str()));
    push_entry(&mut e, "title", json_str(v.title.as_str()));
    push_entry(&mut e, "videoThumbnails", thumbnails_json(&v.thumbnails));
    push_entry(&mut e, "author", json_str(v.author.as_str()));
    push_entry(&mut e, "authorId", json_str(v.author_id.as_str()));
    push_entry(&mut e, "viewCount", Json::Int(v.views));
    push_entry(&mut e, "lengthSeconds", Json::Int(v.length_seconds as i64));
    push_entry(&mut e, "published", opt_text_json(&v.published));
    push_entry(&mut e, "liveNow", Json::Bool(v.live_now));
    assert(object_view(e@) =~= video_summary_v(v@)->Object_0);
    Json::Object(e)
}

/// The array that describes the videos among `results`, in order.
pub fn video_summaries_json(results: &Vec<SearchResult>) -> (r: Json)
    ensures
        json_view(r) == JsonView::Array(video_summaries(result_views(results@))),
{
    let ghost rv = result_views(results@);
    let mut items: Vec<Json> = Vec::new();
    let mut i: usize = 0;
    while i < results.len()
        invariant
            rv == result_views(results@),
            i <= results@.len(),
            items_view(items@) == video_summaries(rv.take(i as int)),
        decreases results@.len() - i,
    {
        assert(rv.take(i + 1).drop_last() =~= rv.take(i as int));
        assert(rv.take(i + 1).last() == results@[i as int]@);
        match &results[i] {
            SearchResult::Video(v) => {
                push_item(&mut items, video_summary_json(v));
            },
            _ => {},
        }
        i = i + 1;
    }
    assert(rv.take(results@.len() as int) =~= rv);
    Json::Array(items)
}

/// The answer of the trending endpoint: the videos among the results and
/// the category asked for.
pub fn trending_json(results: &Vec<SearchResult>, category: &str) -> (r: Json)
    ensures
        json_view(r) == JsonView::Object(
            seq![
                ("videos"@, JsonView::Array(video_summaries(result_views(results@)))),
                ("category"@, JsonView::Str(category@)),
            ],
        ),
{
    let mut e: Vec<(String, Json)> = Vec::new();
    push_entry(&mut e, "videos", video_summaries_json(results));
    push_entry(&mut e, "category", json_str(category));
    assert(object_view(e@) =~= seq![
        ("videos"@, JsonView::Array(video_summaries(result_views(results@)))),
        ("category"@, JsonView::Str(category@)),
    ]);
    Json::Object(e)
}

/// The answer of the popular endpoint: the videos among the results.
pub fn popular_json(results: &Vec<SearchResult>) -> (r: Json)
    ensures
        json_view(r) == JsonView::Object(
            seq![("videos"@, JsonView::Array(video_summaries(result_views(results@))))],
        ),
{
    let mut e: Vec<(String, Json)> = Vec::new();
    push_entry(&mut e, "videos", video_summaries_json(results));
    assert(object_view(e@) =~= seq![
        ("videos"@, JsonView::Array(video_summaries(result_views(results@)))),
    ]);
    Json::Object(e)
}

/// The answer of the hashtag endpoint: the tag, and the videos among the
/// results twice, as `videos` and as `results`.
pub fn hashtag_json(hashtag: &str, results: &Vec<SearchResult>) -> (r: Json)
    ensures
        json_view(r) == JsonView::Object(
            seq![
                ("hashtag"@, JsonView::Str(hashtag@)),
                ("videos"@, JsonView::Array(video_summaries(result_views(results@)))),
                ("results"@, JsonView::Array(video_summaries(result_views(results@)))),
            ],
        ),
{
    let mut e: Vec<(String, Json)> = Vec::new();
    push_entry(&mut e, "hashtag", json_str(hashtag));
    push_entry(&mut e, "videos", video_summaries_json(results));
    push_entry(&mut e, "results", video_summaries_json(results));
    assert(object_view(e@) =~= seq![
        ("hashtag"@, JsonView::Str(hashtag@)),
        ("videos"@, JsonView::Array(video_summaries(result_views(results@)))),
        ("results"@, JsonView::Array(video_summaries(result_views(results@)))),
    ]);
    Json::Object(e)
}

/// The answer of the hashtag endpoint when no request can be made.
pub fn hashtag_unavailable_json(hashtag: &str) -> (r: Json)
    ensures
        json_view(r) == JsonView::Object(
            seq![("hashtag"@, JsonView::Str(hashtag@)), ("videos"@, JsonView::Array(Seq::empty()))],
        ),
{
    let mut e: Vec<(String, Json)> = Vec::new();
    push_entry(&mut e, "hashtag", json_str(hashtag));
    push_entry(&mut e, "videos", empty_array());
    assert(object_view(e@) =~= seq![
        ("hashtag"@, JsonView::Str(hashtag@)),
        ("videos"@, JsonView::Array(Seq::empty())),
    ]);
    Json::Object(e)
}

// ---------------------------------------------------------------------------
// Videos
// ---------------------------------------------------------------------------

fn channel_url(id: &str) -> (r: String)
    ensures
        r@ == "/channel/"@ + id@,
{
    let mut r = "/channel/".to_owned();
    push_str(&mut r, id);
    r
}

/// The answer of the videos endpoint; `view_count_text` is the view count
/// as it is shown (such as `1.5M views`).
pub open spec fn video_v(v: VideoView, view_count_text: Seq<char>) -> JsonView {
    JsonView::Object(
        seq![
            ("videoId"@, JsonView::Str(v.id)),
            ("title"@, JsonView::Str(v.title)),
            ("description"@, JsonView::Str(v.description_html)),
            ("descriptionHtml"@, JsonView::Str(v.description_html)),
            ("published"@, opt_text_v(v.published)),
            ("publishedText"@, opt_text_v(v.published)),
            ("videoThumbnails"@, thumbs_v(v.thumbnails)),
            ("relatedStreams"@, JsonView::Array(Seq::empty())),
            ("author"@, JsonView::Str(v.author)),
            ("authorId"@, JsonView::Str(v.author_id)),
            ("authorUrl"@, JsonView::Str("/channel/"@ + v.author_id)),
            ("authorThumbnails"@, author_thumbs_v(v.author_thumbnail, 48)),
            ("subCount"@, JsonView::Null),
            ("verified"@, JsonView::Bool(v.author_verified)),
            ("lengthSeconds"@, JsonView::Int(v.length_seconds as i64)),
            ("viewCount"@, JsonView::Int(v.views)),
            ("viewCountText"@, JsonView::Str(view_count_text)),
            ("likeCount"@, JsonView::Null),
            ("dislikeCount"@, JsonView::Null),
            ("liveNow"@, JsonView::Bool(v.live_now)),
            ("isPremium"@, JsonView::Bool(v.badges & 256 != 0)),
            ("isUpcoming"@, JsonView::Bool(false)),
            ("premiereTimestamp"@, JsonView::Null),
            ("allowedRegions"@, JsonView::Array(Seq::empty())),
            ("authorVerified"@, JsonView::Bool(v.author_verified)),
            ("captions"@, JsonView::Array(Seq::empty())),
            ("storyboards"@, JsonView::Array(Seq::empty())),
            ("recommends"@, JsonView::Array(Seq::empty())),
        ],
    )
}

/// The answer of the videos endpoint for a video.
pub fn video_json(v: &Video, view_count_text: &str) -> (r: Json)
    ensures
        json_view(r) == video_v(v@, view_count_text@),
{
    let mut e: Vec<(String, Json)> = Vec::new();
    push_entry(&mut e, "videoId", json_str(v.id.as_str()));
    push_entry(&mut e, "title", json_str(v.title.as_str()));
    push_entry(&mut e, "description", json_str(v.description_html.as_str()));
    push_entry(&mut e, "descriptionHtml", json_str(v.description_html.as_str()));
    push_entry(&mut e, "published", opt_text_json(&v.published));
    push_entry(&mut e, "publishedText", opt_text_json(&v.published));
    push_entry(&mut e, "videoThumbnails", thumbnails_json(&v.thumbnails));
    push_entry(&mut e, "relatedStreams", empty_array());
    push_entry(&mut e, "author", json_str(v.author.as_str()));
    push_entry(&mut e, "authorId", json_str(v.author_id.as_str()));
    push_entry(&mut e, "authorUrl", Json::Str(channel_url(v.author_id.as_str())));
    push_entry(&mut e, "authorThumbnails", author_thumbnails_json(&v.author_thumbnail, 48));
    push_entry(&mut e, "subCount", Json::Null);
    push_entry(&mut e, "verified", Json::Bool(v.author_verified));
    push_entry(&mut e, "lengthSeconds", Json::Int(v.length_seconds as i64));
    push_entry(&mut e, "viewCount", Json::Int(v.views));
    push_entry(&mut e, "viewCountText", json_str(view_count_text));
    push_entry(&mut e, "likeCount", Json::Null);
    push_entry(&mut e, "dislikeCount", Json::Null);
    push_entry(&mut e, "liveNow", Json::Bool(v.live_now));
    push_entry(&mut e, "isPremium", Json::Bool(v.badges.has_premium()));
    push_entry(&mut e, "isUpcoming", Json::Bool(false));
    push_entry(&mut e, "premiereTimestamp", Json::Null);
    push_entry(&mut e, "allowedRegions", empty_array());
    push_entry(&mut e, "authorVerified", Json::Bool(v.author_verified));
    push_entry(&mut e, "captions", empty_array());
    push_entry(&mut e, "storyboards", empty_array());
    push_entry(&mut e, "recommends", empty_array());
    assert(object_view(e@) =~= video_v(v@, view_count_text@)->Object_0);
    Json::Object(e)
}

/// The answer of the videos endpoint when no request can be made.
pub fn video_unavailable_json(id: &str) -> (r: Json)
    ensures
        json_view(r) == JsonView::Object(
            seq![
                ("videoId"@, JsonView::Str(id@)),
                ("title"@, JsonView::Str("Video Title"@)),
                ("description"@, JsonView::Str("Description unavailable"@)),
            ],
        ),
{
    let mut e: Vec<(String, Json)> = Vec::new();
    push_entry(&mut e, "videoId", json_str(id));
    push_entry(&mut e, "title", json_str("Video Title"));
    push_entry(&mut e, "description", json_str("Description unavailable"));
    assert(object_view(e@) =~= seq![
        ("videoId"@, JsonView::Str(id@)),
        ("title"@, JsonView::Str("Video Title"@)),
        ("description"@, JsonView::Str("Description unavailable"@)),
    ]);
    Json::Object(e)
}

// ---------------------------------------------------------------------------
// Comments
// ---------------------------------------------------------------------------

/// The object that describes one comment.
pub open spec fn comment_v(c: CommentView) -> JsonView {
    JsonView::Object(
        seq![
            ("commentId"@, JsonView::Str(c.id)),
            ("content"@, JsonView::Str(c.content)),
            ("author"@, JsonView::Str(c.author)),
            ("authorThumbnails"@, author_thumbs_v(c.author_thumbnail, 48)),
            ("authorId"@, JsonView::Str(c.author_id)),
            ("published"@, JsonView::Str(c.published)),
            ("likeCount"@, JsonView::Int(c.like_count)),
            ("isVerified"@, JsonView::Bool(c.is_verified)),
            ("isPinned"@, JsonView::Bool(false)),
        ],
    )
}

/// The answer of the comments endpoint: the video, its comments in order,
/// and the continuation token where there is one.
pub open spec fn comments_v(id: Seq<char>, comments: Seq<Comment>, continuation: Option<Seq<char>>) -> JsonView {
    JsonView::Object(
        seq![
            ("videoId"@, JsonView::Str(id)),
            ("comments"@, JsonView::Array(comments.map_values(|c: Comment| comment_v(comment_head(c))))),
        ] + match continuation {
            Some(t) => seq![("continuation"@, JsonView::Str(t))],
            None => Seq::empty(),
        },
    )
}

fn comment_json(c: &Comment) -> (r: Json)
    ensures
        json_view(r) == comment_v(comment_head(*c)),
{
    let mut e: Vec<(String, Json)> = Vec::new();
    push_entry(&mut e, "commentId", json_str(c.id.as_str()));
    push_entry(&mut e, "content", json_str(c.content.as_str()));
    push_entry(&mut e, "author", json_str(c.author.as_str()));
    push_entry(&mut e, "authorThumbnails", author_thumbnails_json(&c.author_thumbnail, 48));
    push_entry(&mut e, "authorId", json_str(c.author_id.as_str()));
    push_entry(&mut e, "published", json_str(c.published.as_str()));
    push_entry(&mut e, "likeCount", Json::Int(c.like_count));
    push_entry(&mut e, "isVerified", Json::Bool(c.is_verified));
    push_entry(&mut e, "isPinned", Json::Bool(false));
    assert(object_view(e@) =~= comment_v(comment_head(*c))->Object_0);
    Json::Object(e)
}

/// The answer of the comments endpoint for a video.
pub fn comments_json(id: &str, response: &CommentsResponse) -> (r: Json)
    ensures
        json_view(r) == comments_v(id@, response.comments@, opt_view(response.continuation)),
{
    let cs = &response.comments;
    let ghost f = |c: Comment| comment_v(comment_head(c));
    let mut items: Vec<Json> = Vec::new();
    let mut i: usize = 0;
    while i < cs.len()
        invariant
            f == (|c: Comment| comment_v(comment_head(c))),
            i <= cs@.len(),
            items_view(items@) == cs@.take(i as int).map_values(f),
        decreases cs@.len() - i,
    {
        push_item(&mut items, comment_json(&cs[i]));
        assert(cs@.take(i + 1) =~= cs@.take(i as int).push(cs@[i as int]));
        assert(items_view(items@) =~= cs@.take(i + 1).map_values(f));
        i = i + 1;
    }
    assert(cs@.take(cs@.len() as int) =~= cs@);
    let mut e: Vec<(String, Json)> = Vec::new();
    push_entry(&mut e, "videoId", json_str(id));
    push_entry(&mut e, "comments", Json::Array(items));
    match &response.continuation {
        Some(t) => push_entry(&mut e, "continuation", json_str(t.as_str())),
        None => {},
    }
    assert(object_view(e@) =~= comments_v(id@, response.comments@, opt_view(response.continuation))->Object_0);
    Json::Object(e)
}

// ---------------------------------------------------------------------------
// Channels
// ---------------------------------------------------------------------------

/// The tabs a channel offers.
pub open spec fn channel_tabs() -> Seq<JsonView> {
    seq![
        JsonView::Str("home"@),
        JsonView::Str("videos"@),
        JsonView::Str("shorts"@),
        JsonView::Str("streams"@),
        JsonView::Str("playlists"@),
        JsonView::Str("community"@),
        JsonView::Str("channels"@),
        JsonView::Str("about"@),
    ]
}

/// The answer of the channel endpoint.
pub open spec fn channel_v(c: ChannelView) -> JsonView {
    JsonView::Object(
        seq![
            ("author"@, JsonView::Str(c.name)),
            ("authorId"@, JsonView::Str(c.id)),
            ("authorUrl"@, JsonView::Str("/channel/"@ + c.id)),
            ("authorBanners"@, JsonView::Array(Seq::empty())),
            ("authorThumbnails"@, author_thumbs_v(c.thumbnail, 88)),
            ("subCount"@, opt_int_v(c.subscriber_count)),
            ("totalViews"@, JsonView::Int(0)),
            ("joined"@, JsonView::Int(0)),
            ("autoGenerated"@, JsonView::Bool(c.auto_generated)),
            ("ageGated"@, JsonView::Bool(false)),
            ("isFamilyFriendly"@, JsonView::Bool(true)),
            ("description"@, JsonView::Str(c.description_html)),
            ("descriptionHtml"@, JsonView::Str(c.description_html)),
            ("allowedRegions"@, JsonView::Array(Seq::empty())),
            ("tabs"@, JsonView::Array(channel_tabs())),
            ("tags"@, JsonView::Array(Seq::empty())),
            ("authorVerified"@, JsonView::Bool(c.author_verified)),
            ("pronouns"@, JsonView::Null),
            ("latestVideos"@, JsonView::Array(Seq::empty())),
            ("relatedChannels"@, JsonView::Array(Seq::empty())),
        ],
    )
}

fn channel_tabs_json() -> (r: Json)
    ensures
        json_view(r) == JsonView::Array(channel_tabs()),
{
    let mut items: Vec<Json> = Vec::new();
    push_item(&mut items, json_str("home"));
    push_item(&mut items, json_str("videos"));
    push_item(&mut items, json_str("shorts"));
    push_item(&mut items, json_str("streams"));
    push_item(&mut items, json_str("playlists"));
    push_item(&mut items, json_str("community"));
    push_item(&mut items, json_str("channels"));
    push_item(&mut items, json_str("about"));
    assert(items_view(items@) =~= channel_tabs());
    Json::Array(items)
}

/// The answer of the channel endpoint for a channel.
pub fn channel_json(c: &Channel) -> (r: Json)
    ensures
        json_view(r) == channel_v(c@),
{
    let mut e: Vec<(String, Json)> = Vec::new();
    push_entry(&mut e, "author", json_str(c.name.as_str()));
    push_entry(&mut e, "authorId", json_str(c.id.as_str()));
    push_entry(&mut e, "authorUrl", Json::Str(channel_url(c.id.as_str())));
    push_entry(&mut e, "authorBanners", empty_array());
    push_entry(&mut e, "authorThumbnails", author_thumbnails_json(&c.thumbnail, 88));
    push_entry(&mut e, "subCount", opt_int_json(c.subscriber_count));
    push_entry(&mut e, "totalViews", Json::Int(0));
    push_entry(&mut e, "joined", Json::Int(0));
    push_entry(&mut e, "autoGenerated", Json::Bool(c.auto_generated));
    push_entry(&mut e, "ageGated", Json::Bool(false));
    push_entry(&mut e, "isFamilyFriendly", Json::Bool(true));
    push_entry(&mut e, "description", json_str(c.description_html.as_str()));
    push_entry(&mut e, "descriptionHtml", json_str(c.description_html.as_str()));
    push_entry(&mut e, "allowedRegions", empty_array());
    push_entry(&mut e, "tabs", channel_tabs_json());
    push_entry(&mut e, "tags", empty_array());
    push_entry(&mut e, "authorVerified", Json::Bool(c.author_verified));
    push_entry(&mut e, "pronouns", Json::Null);
    push_entry(&mut e, "latestVideos", empty_array());
    push_entry(&mut e, "relatedChannels", empty_array());
    assert(object_view(e@) =~= channel_v(c@)->Object_0);
    Json::Object(e)
}

// ---------------------------------------------------------------------------
// Playlists and mixes
// ---------------------------------------------------------------------------

/// The object that describes one video of a playlist.
pub open spec fn playlist_video_v(v: (Seq<char>, Seq<char>, i32)) -> JsonView {
    JsonView::Object(
        seq![
            ("title"@, JsonView::Str(v.1)),
            ("videoId"@, JsonView::Str(v.0)),
            ("author"@, JsonView::Str(Seq::empty())),
            ("authorId"@, JsonView::Str(Seq::empty())),
            ("videoThumbnails"@, JsonView::Array(Seq::empty())),
            ("lengthSeconds"@, JsonView::Int(v.2 as i64)),
            ("index"@, JsonView::Int(0)),
            ("indexId"@, JsonView::Str(v.0)),
        ],
    )
}

/// The answer of the playlist endpoint.
pub open spec fn playlist_v(p: PlaylistView) -> JsonView {
    JsonView::Object(
        seq![
            ("playlistId"@, JsonView::Str(p.id)),
            ("title"@, JsonView::Str(p.title)),
            ("description"@, JsonView::Str(Seq::empty())),
            ("descriptionHtml"@, JsonView::Str(Seq::empty())),
            ("videoCount"@, JsonView::Int(p.video_count)),
            ("viewCount"@, JsonView::Int(0)),
            ("updated"@, JsonView::Null),
            ("author"@, JsonView::Str(p.author)),
            ("authorId"@, JsonView::Str(p.author_id)),
            ("authorThumbnails"@, JsonView::Array(Seq::empty())),
            ("videos"@, JsonView::Array(p.videos.map_values(|v: (Seq<char>, Seq<char>, i32)| playlist_video_v(v)))),
        ],
    )
}

fn playlist_video_json(v: &PlaylistVideo) -> (r: Json)
    ensures
        json_view(r) == playlist_video_v(playlist_video_view(*v)),
{
    let mut e: Vec<(String, Json)> = Vec::new();
    push_entry(&mut e, "title", json_str(v.title.as_str()));
    push_entry(&mut e, "videoId", json_str(v.id.as_str()));
    push_entry(&mut e, "author", Json::Str(String::new()));
    push_entry(&mut e, "authorId", Json::Str(String::new()));
    push_entry(&mut e, "videoThumbnails", empty_array());
    push_entry(&mut e, "lengthSeconds", Json::Int(v.length_seconds as i64));
    push_entry(&mut e, "index", Json::Int(0));
    push_entry(&mut e, "indexId", json_str(v.id.as_str()));
    assert(object_view(e@) =~= playlist_video_v(playlist_video_view(*v))->Object_0);
    Json::Object(e)
}

/// The answer of the playlist endpoint for a playlist.
pub fn playlist_json(p: &Playlist) -> (r: Json)
    ensures
        json_view(r) == playlist_v(p@),
{
    let vs = &p.videos;
    let ghost pv = p@.videos;
    let ghost f = |v: (Seq<char>, Seq<char>, i32)| playlist_video_v(v);
    let mut items: Vec<Json> = Vec::new();
    let mut i: usize = 0;
    while i < vs.len()
        invariant
            pv == vs@.map_values(|v: PlaylistVideo| playlist_video_view(v)),
            f == (|v: (Seq<char>, Seq<char>, i32)| playlist_video_v(v)),
            i <= vs@.len(),
            items_view(items@) == pv.take(i as int).map_values(f),
        decreases vs@.len() - i,
    {
        push_item(&mut items, playlist_video_json(&vs[i]));
        assert(pv.take(i + 1) =~= pv.take(i as int).push(pv[i as int]));
        assert(items_view(items@) =~= pv.take(i + 1).map_values(f));
        i = i + 1;
    }
    assert(pv.take(vs@.len() as int) =~= pv);
    let mut e: Vec<(String, Json)> = Vec::new();
    push_entry(&mut e, "playlistId", json_str(p.id.as_str()));
    push_entry(&mut e, "title", json_str(p.title.as_str()));
    push_entry(&mut e, "description", Json::Str(String::new()));
    push_entry(&mut e, "descriptionHtml", Json::Str(String::new()));
    push_entry(&mut e, "videoCount", Json::Int(p.video_count));
    push_entry(&mut e, "viewCount", Json::Int(0));
    push_entry(&mut e, "updated", Json::Null);
    push_entry(&mut e, "author", json_str(p.author.as_str()));
    push_entry(&mut e, "authorId", json_str(p.author_id.as_str()));
    push_entry(&mut e, "authorThumbnails", empty_array());
    push_entry(&mut e, "videos", Json::Array(items));
    assert(object_view(e@) =~= playlist_v(p@)->Object_0);
    Json::Object(e)
}

/// Whether a playlist id names a mix (it starts with `RD`).
pub fn is_mix_id(plid: &str) -> (r: bool)
    ensures
        r == has_prefix(plid@, "RD"@),
{
    starts_with(plid, "RD")
}

/// The video a mix is made from: the first eleven characters after `RD`,
/// or nothing where the id does not start with `RD`.
pub open spec fn mix_video_id_of(rdid: Seq<char>) -> Seq<char> {
    if has_prefix(rdid, "RD"@) {
        let rest = rdid.skip(2);
        if rest.len() <= 11 {
            rest
        } else {
            rest.take(11)
        }
    } else {
        Seq::empty()
    }
}

/// The video a mix is made from.
pub fn mix_video_id(rdid: &str) -> (r: String)
    ensures
        r@ == mix_video_id_of(rdid@),
{
    proof {
        reveal_strlit("RD");
    }
    if starts_with(rdid, "RD") {
        let cs = chars_of(rdid);
        let end = if cs.len() - 2 <= 11 {
            cs.len()
        } else {
            13
        };
        let r = string_of(&cs, 2, end);
        assert(r@ =~= mix_video_id_of(rdid@));
        r
    } else {
        String::new()
    }
}

/// The object that describes one video of a mix.
pub open spec fn mix_video_v(v: VideoView) -> JsonView {
    JsonView::Object(
        seq![
            ("title"@, JsonView::Str(v.title)),
            ("videoId"@, JsonView::Str(v.id)),
            ("author"@, JsonView::Str(v.author)),
            ("authorId"@, JsonView::Str(v.author_id)),
            ("authorUrl"@, JsonView::Str("/channel/"@ + v.author_id)),
            ("videoThumbnails"@, thumbs_v(v.thumbnails)),
            ("lengthSeconds"@, JsonView::Int(v.length_seconds as i64)),
        ],
    )
}

/// The answer of the mixes endpoint: the mix id and its videos in order.
pub open spec fn mix_v(rdid: Seq<char>, videos: Seq<VideoView>) -> JsonView {
    JsonView::Object(
        seq![
            ("relatedVideoId"@, JsonView::Str(rdid)),
            ("mix"@, JsonView::Array(videos.map_values(|v: VideoView| mix_video_v(v)))),
        ],
    )
}

fn mix_video_json(v: &Video) -> (r: Json)
    ensures
        json_view(r) == mix_video_v(v@),
{
    let mut e: Vec<(String, Json)> = Vec::new();
    push_entry(&mut e, "title", json_str(v.title.as_str()));
    push_entry(&mut e, "videoId", json_str(v.id.as_str()));
    push_entry(&mut e, "author", json_str(v.author.as_str()));
    push_entry(&mut e, "authorId", json_str(v.author_id.as_str()));
    push_entry(&mut e, "authorUrl", Json::Str(channel_url(v.author_id.as_str())));
    push_entry(&mut e, "videoThumbnails", thumbnails_json(&v.thumbnails));
    push_entry(&mut e, "lengthSeconds", Json::Int(v.length_seconds as i64));
    assert(object_view(e@) =~= mix_video_v(v@)->Object_0);
    Json::Object(e)
}

/// The answer of the mixes endpoint for the related videos of a mix.
pub fn mix_json(rdid: &str, videos: &Vec<Video>) -> (r: Json)
    ensures
        json_view(r) == mix_v(rdid@, videos@.map_values(|v: Video| v@)),
{
    let ghost vv = videos@.map_values(|v: Video| v@);
    let ghost f = |v: VideoView| mix_video_v(v);
    let mut items: Vec<Json> = Vec::new();
    let mut i: usize = 0;
    while i < videos.len()
        invariant
            vv == videos@.map_values(|v: Video| v@),
            f == (|v: VideoView| mix_video_v(v)),
            i <= videos@.len(),
            items_view(items@) == vv.take(i as int).map_values(f),
        decreases videos@.len() - i,
    {
        push_item(&mut items, mix_video_json(&videos[i]));
        assert(vv.take(i + 1) =~= vv.take(i as int).push(vv[i as int]));
        assert(items_view(items@) =~= vv.take(i + 1).map_values(f));
        i = i + 1;
    }
    assert(vv.take(videos@.len() as int) =~= vv);
    let mut e: Vec<(String, Json)> = Vec::new();
    push_entry(&mut e, "relatedVideoId", json_str(rdid));
    push_entry(&mut e, "mix", Json::Array(items));
    assert(object_view(e@) =~= mix_v(rdid@, vv)->Object_0);
    Json::Object(e)
}

// ---------------------------------------------------------------------------
// Resolved addresses and search suggestions
// ---------------------------------------------------------------------------

/// A browse id that names a channel (it starts with `UC`).
pub open spec fn channel_browse_id(b: Option<Seq<char>>) -> Option<Seq<char>> {
    match b {
        Some(id) => if has_prefix(id, "UC"@) {
            Some(id)
        } else {
            None
        },
        None => None,
    }
}

/// The answer of the resolve-URL endpoint: what the `endpoint` member of the
/// response names, and the address that was resolved.
pub open spec fn resolved_v(response: Json, url: Seq<char>) -> JsonView {
    let endpoint = get(response, "endpoint"@);
    let browse_id = jstr(match endpoint {
        Some(e) => get(e, "browseId"@),
        None => None,
    });
    JsonView::Object(
        seq![
            ("browseId"@, opt_text_v(browse_id)),
            ("ucid"@, opt_text_v(channel_browse_id(browse_id))),
            ("videoId"@, opt_text_v(jstr(match endpoint {
                Some(e) => get(e, "videoId"@),
                None => None,
            }))),
            ("playlistId"@, opt_text_v(jstr(match endpoint {
                Some(e) => get(e, "playlistId"@),
                None => None,
            }))),
            ("startTimeSeconds"@, opt_int_v(jint(match endpoint {
                Some(e) => get(e, "startTimeSeconds"@),
                None => None,
            }))),
            ("url"@, JsonView::Str(url)),
        ],
    )
}

fn opt_str_json(o: Option<&str>) -> (r: Json)
    ensures
        json_view(r) == opt_text_v(match o {
            Some(s) => Some(s@),
            None => None,
        }),
{
    match o {
        Some(s) => json_str(s),
        None => Json::Null,
    }
}

fn member_str<'a>(o: Option<&'a Json>, key: &str) -> (r: Option<&'a str>)
    ensures
        match r {
            Some(s) => jstr(match deref_opt(o) {
                Some(e) => get(e, key@),
                None => None,
            }) == Some(s@),
            None => jstr(match deref_opt(o) {
                Some(e) => get(e, key@),
                None => None,
            }) is None,
        },
{
    match opt_get(o, key) {
        Some(v) => v.as_str(),
        None => None,
    }
}

/// The answer of the resolve-URL endpoint for a response.
pub fn resolved_url_json(response: &Json, url: &str) -> (r: Json)
    ensures
        json_view(r) == resolved_v(*response, url@),
{
    let endpoint = response.get("endpoint");
    let browse_id = member_str(endpoint, "browseId");
    let ucid = match browse_id {
        Some(b) => if starts_with(b, "UC") {
            Some(b)
        } else {
            None
        },
        None => None,
    };
    let video_id = member_str(endpoint, "videoId");
    let playlist_id = member_str(endpoint, "playlistId");
    let start_time = match opt_get(endpoint, "startTimeSeconds") {
        Some(v) => v.as_i64(),
        None => None,
    };
    let mut e: Vec<(String, Json)> = Vec::new();
    push_entry(&mut e, "browseId", opt_str_json(browse_id));
    push_entry(&mut e, "ucid", opt_str_json(ucid));
    push_entry(&mut e, "videoId", opt_str_json(video_id));
    push_entry(&mut e, "playlistId", opt_str_json(playlist_id));
    push_entry(&mut e, "startTimeSeconds", opt_int_json(start_time));
    push_entry(&mut e, "url", json_str(url));
    assert(object_view(e@) =~= resolved_v(*response, url@)->Object_0);
    Json::Object(e)
}

/// The suggestions among `items`, in order: the first element of each item
/// that is an array starting with a string.
pub open spec fn suggestions_in(items: Seq<Json>) -> Seq<Seq<char>>
    decreases items.len(),
{
    if items.len() == 0 {
        Seq::empty()
    } else {
        match jstr(jat(Some(items.last()), 0)) {
            Some(s) => suggestions_in(items.drop_last()).push(s),
            None => suggestions_in(items.drop_last()),
        }
    }
}

/// The suggestions of a search-suggestion response: the second element of
/// the response is a list whose items each start with a suggestion.
pub open spec fn suggestions_of(response: Json) -> Seq<Seq<char>> {
    match jarray(jat(Some(response), 1)) {
        Some(items) => suggestions_in(items),
        None => Seq::empty(),
    }
}

/// The suggestions of a search-suggestion response.
pub fn search_suggestions(response: &Json) -> (r: Vec<String>)
    ensures
        r@.map_values(|s: String| s@) == suggestions_of(*response),
{
    let items = match response.as_array() {
        Some(v) => if v.len() > 1 {
            match v[1].as_array() {
                Some(items) => items,
                None => return Vec::new(),
            }
        } else {
            return Vec::new();
        },
        None => return Vec::new(),
    };
    let mut out: Vec<String> = Vec::new();
    let mut i: usize = 0;
    while i < items.len()
        invariant
            i <= items@.len(),
            out@.map_values(|s: String| s@) == suggestions_in(items@.take(i as int)),
        decreases items@.len() - i,
    {
        assert(items@.take(i + 1).drop_last() =~= items@.take(i as int));
        assert(items@.take(i + 1).last() == items@[i as int]);
        let first = match items[i].as_array() {
            Some(a) => if a.len() > 0 {
                a[0].as_str()
            } else {
                None
            },
            None => None,
        };
        match first {
            Some(s) => {
                let ghost before = out@;
                out.push(s.to_owned());
                assert(out@.map_values(|s: String| s@) =~= before.map_values(|s: String| s@).push(s@));
            },
            None => {},
        }
        i = i + 1;
    }
    assert(items@.take(items@.len() as int) =~= items@);
    out
}

/// The address that search suggestions for `query` are asked from.
pub open spec fn suggestions_address(query: Seq<char>) -> Seq<char> {
    "https://suggestqueries-clients6.youtube.com/complete/search?client=youtube&hl=en&gl=US&q="@
        + escape_text(query) + "&gs_ri=youtube&ds=yt"@
}

/// The address that search suggestions for `query` are asked from, the
/// query percent-encoded.
pub fn suggestions_url(query: &str) -> (r: String)
    ensures
        r@ == suggestions_address(query@),
{
    let mut r = "https://suggestqueries-clients6.youtube.com/complete/search?client=youtube&hl=en&gl=US&q=".to_owned();
    let q = percent_escape(query);
    push_str(&mut r, q.as_str());
    push_str(&mut r, "&gs_ri=youtube&ds=yt");
    r
}

/// The JSON part of a suggestions reply: the bytes after the 19 that wrap it,
/// where the reply is longer than 20 bytes; `None` for a shorter reply.
pub fn suggestions_payload(reply: &[u8]) -> (r: Option<Vec<u8>>)
    ensures
        r is Some <==> reply@.len() > 20,
        r matches Some(p) ==> p@ == reply@.skip(19),
{
    if reply.len() <= 20 {
        return None;
    }
    let mut p: Vec<u8> = Vec::new();
    let mut i: usize = 19;
    while i < reply.len()
        invariant
            19 <= i <= reply@.len(),
            p@ == reply@.subrange(19, i as int),
        decreases reply@.len() - i,
    {
        p.push(reply[i]);
        i = i + 1;
        assert(p@ =~= reply@.subrange(19, i as int));
    }
    assert(p@ =~= reply@.skip(19));
    Some(p)
}

/// The member names of the answers, spelled out far enough to tell each
/// from the others of its object.
proof fn lemma_member_names()
    ensures
        "videoId"@.len() == 7 && "videoId"@[0] == 'v' && "videoId"@[1] == 'i' && "videoId"@[2] == 'd' && "videoId"@[3] == 'e',
        "title"@.len() == 5 && "title"@[0] == 't' && "title"@[1] == 'i' && "title"@[2] == 't' && "title"@[3] == 'l',
        "description"@.len() == 11 && "description"@[0] == 'd' && "description"@[1] == 'e' && "description"@[2] == 's' && "description"@[3] == 'c',
        "descriptionHtml"@.len() == 15 && "descriptionHtml"@[0] == 'd' && "descriptionHtml"@[1] == 'e' && "descriptionHtml"@[2] == 's' && "descriptionHtml"@[3] == 'c',
        "published"@.len() == 9 && "published"@[0] == 'p' && "published"@[1] == 'u' && "published"@[2] == 'b' && "published"@[3] == 'l',
        "publishedText"@.len() == 13 && "publishedText"@[0] == 'p' && "publishedText"@[1] == 'u' && "publishedText"@[2] == 'b' && "publishedText"@[3] == 'l',
        "videoThumbnails"@.len() == 15 && "videoThumbnails"@[0] == 'v' && "videoThumbnails"@[1] == 'i' && "videoThumbnails"@[2] == 'd' && "videoThumbnails"@[3] == 'e',
        "relatedStreams"@.len() == 14 && "relatedStreams"@[0] == 'r' && "relatedStreams"@[1] == 'e' && "relatedStreams"@[2] == 'l' && "relatedStreams"@[3] == 'a',
        "author"@.len() == 6 && "author"@[0] == 'a' && "author"@[1] == 'u' && "author"@[2] == 't' && "author"@[3] == 'h',
        "authorId"@.len() == 8 && "authorId"@[0] == 'a' && "authorId"@[1] == 'u' && "authorId"@[2] == 't' && "authorId"@[3] == 'h',
        "authorUrl"@.len() == 9 && "authorUrl"@[0] == 'a' && "authorUrl"@[1] == 'u' && "authorUrl"@[2] == 't' && "authorUrl"@[3] == 'h',
        "authorThumbnails"@.len() == 16 && "authorThumbnails"@[0] == 'a' && "authorThumbnails"@[1] == 'u' && "authorThumbnails"@[2] == 't' && "authorThumbnails"@[3] == 'h',
        "subCount"@.len() == 8 && "subCount"@[0] == 's' && "subCount"@[1] == 'u' && "subCount"@[2] == 'b' && "subCount"@[3] == 'C',
        "verified"@.len() == 8 && "verified"@[0] == 'v' && "verified"@[1] == 'e' && "verified"@[2] == 'r' && "verified"@[3] == 'i',
        "lengthSeconds"@.len() == 13 && "lengthSeconds"@[0] == 'l' && "lengthSeconds"@[1] == 'e' && "lengthSeconds"@[2] == 'n' && "lengthSeconds"@[3] == 'g',
        "viewCount"@.len() == 9 && "viewCount"@[0] == 'v' && "viewCount"@[1] == 'i' && "viewCount"@[2] == 'e' && "viewCount"@[3] == 'w',
        "viewCountText"@.len() == 13 && "viewCountText"@[0] == 'v' && "viewCountText"@[1] == 'i' && "viewCountText"@[2] == 'e' && "viewCountText"@[3] == 'w',
        "likeCount"@.len() == 9 && "likeCount"@[0] == 'l' && "likeCount"@[1] == 'i' && "likeCount"@[2] == 'k' && "likeCount"@[3] == 'e',
        "dislikeCount"@.len() == 12 && "dislikeCount"@[0] == 'd' && "dislikeCount"@[1] == 'i' && "dislikeCount"@[2] == 's' && "dislikeCount"@[3] == 'l',
        "liveNow"@.len() == 7 && "liveNow"@[0] == 'l' && "liveNow"@[1] == 'i' && "liveNow"@[2] == 'v' && "liveNow"@[3] == 'e',
        "isPremium"@.len() == 9 && "isPremium"@[0] == 'i' && "isPremium"@[1] == 's' && "isPremium"@[2] == 'P' && "isPremium"@[3] == 'r',
        "isUpcoming"@.len() == 10 && "isUpcoming"@[0] == 'i' && "isUpcoming"@[1] == 's' && "isUpcoming"@[2] == 'U' && "isUpcoming"@[3] == 'p',
        "premiereTimestamp"@.len() == 17 && "premiereTimestamp"@[0] == 'p' && "premiereTimestamp"@[1] == 'r' && "premiereTimestamp"@[2] == 'e' && "premiereTimestamp"@[3] == 'm',
        "allowedRegions"@.len() == 14 && "allowedRegions"@[0] == 'a' && "allowedRegions"@[1] == 'l' && "allowedRegions"@[2] == 'l' && "allowedRegions"@[3] == 'o',
        "authorVerified"@.len() == 14 && "authorVerified"@[0] == 'a' && "authorVerified"@[1] == 'u' && "authorVerified"@[2] == 't' && "authorVerified"@[3] == 'h',
        "captions"@.len() == 8 && "captions"@[0] == 'c' && "captions"@[1] == 'a' && "captions"@[2] == 'p' && "captions"@[3] == 't',
        "storyboards"@.len() == 11 && "storyboards"@[0] == 's' && "storyboards"@[1] == 't' && "storyboards"@[2] == 'o' && "storyboards"@[3] == 'r',
        "recommends"@.len() == 10 && "recommends"@[0] == 'r' && "recommends"@[1] == 'e' && "recommends"@[2] == 'c' && "recommends"@[3] == 'o',
        "type"@.len() == 4 && "type"@[0] == 't' && "type"@[1] == 'y' && "type"@[2] == 'p' && "type"@[3] == 'e',
        "channelId"@.len() == 9 && "channelId"@[0] == 'c' && "channelId"@[1] == 'h' && "channelId"@[2] == 'a' && "channelId"@[3] == 'n',
        "videoCount"@.len() == 10 && "videoCount"@[0] == 'v' && "videoCount"@[1] == 'i' && "videoCount"@[2] == 'd' && "videoCount"@[3] == 'e',
        "playlistId"@.len() == 10 && "playlistId"@[0] == 'p' && "playlistId"@[1] == 'l' && "playlistId"@[2] == 'a' && "playlistId"@[3] == 'y',
        "thumbnail"@.len() == 9 && "thumbnail"@[0] == 't' && "thumbnail"@[1] == 'h' && "thumbnail"@[2] == 'u' && "thumbnail"@[3] == 'm',
        "hashtag"@.len() == 7 && "hashtag"@[0] == 'h' && "hashtag"@[1] == 'a' && "hashtag"@[2] == 's' && "hashtag"@[3] == 'h',
        "url"@.len() == 3 && "url"@[0] == 'u' && "url"@[1] == 'r' && "url"@[2] == 'l',
        "authorBanners"@.len() == 13 && "authorBanners"@[0] == 'a' && "authorBanners"@[1] == 'u' && "authorBanners"@[2] == 't' && "authorBanners"@[3] == 'h',
        "totalViews"@.len() == 10 && "totalViews"@[0] == 't' && "totalViews"@[1] == 'o' && "totalViews"@[2] == 't' && "totalViews"@[3] == 'a',
        "joined"@.len() == 6 && "joined"@[0] == 'j' && "joined"@[1] == 'o' && "joined"@[2] == 'i' && "joined"@[3] == 'n',
        "autoGenerated"@.len() == 13 && "autoGenerated"@[0] == 'a' && "autoGenerated"@[1] == 'u' && "autoGenerated"@[2] == 't' && "autoGenerated"@[3] == 'o',
        "ageGated"@.len() == 8 && "ageGated"@[0] == 'a' && "ageGated"@[1] == 'g' && "ageGated"@[2] == 'e' && "ageGated"@[3] == 'G',
        "isFamilyFriendly"@.len() == 16 && "isFamilyFriendly"@[0] == 'i' && "isFamilyFriendly"@[1] == 's' && "isFamilyFriendly"@[2] == 'F' && "isFamilyFriendly"@[3] == 'a',
        "tabs"@.len() == 4 && "tabs"@[0] == 't' && "tabs"@[1] == 'a' && "tabs"@[2] == 'b' && "tabs"@[3] == 's',
        "tags"@.len() == 4 && "tags"@[0] == 't' && "tags"@[1] == 'a' && "tags"@[2] == 'g' && "tags"@[3] == 's',
        "pronouns"@.len() == 8 && "pronouns"@[0] == 'p' && "pronouns"@[1] == 'r' && "pronouns"@[2] == 'o' && "pronouns"@[3] == 'n',
        "latestVideos"@.len() == 12 && "latestVideos"@[0] == 'l' && "latestVideos"@[1] == 'a' && "latestVideos"@[2] == 't' && "latestVideos"@[3] == 'e',
        "relatedChannels"@.len() == 15 && "relatedChannels"@[0] == 'r' && "relatedChannels"@[1] == 'e' && "relatedChannels"@[2] == 'l' && "relatedChannels"@[3] == 'a',
        "updated"@.len() == 7 && "updated"@[0] == 'u' && "updated"@[1] == 'p' && "updated"@[2] == 'd' && "updated"@[3] == 'a',
        "videos"@.len() == 6 && "videos"@[0] == 'v' && "videos"@[1] == 'i' && "videos"@[2] == 'd' && "videos"@[3] == 'e',
        "commentId"@.len() == 9 && "commentId"@[0] == 'c' && "commentId"@[1] == 'o' && "commentId"@[2] == 'm' && "commentId"@[3] == 'm',
        "content"@.len() == 7 && "content"@[0] == 'c' && "content"@[1] == 'o' && "content"@[2] == 'n' && "content"@[3] == 't',
        "isVerified"@.len() == 10 && "isVerified"@[0] == 'i' && "isVerified"@[1] == 's' && "isVerified"@[2] == 'V' && "isVerified"@[3] == 'e',
        "isPinned"@.len() == 8 && "isPinned"@[0] == 'i' && "isPinned"@[1] == 's' && "isPinned"@[2] == 'P' && "isPinned"@[3] == 'i',
        "index"@.len() == 5 && "index"@[0] == 'i' && "index"@[1] == 'n' && "index"@[2] == 'd' && "index"@[3] == 'e',
        "indexId"@.len() == 7 && "indexId"@[0] == 'i' && "indexId"@[1] == 'n' && "indexId"@[2] == 'd' && "indexId"@[3] == 'e',
{
    reveal_strlit("videoId");
    reveal_strlit("title");
    reveal_strlit("description");
    reveal_strlit("descriptionHtml");
    reveal_strlit("published");
    reveal_strlit("publishedText");
    reveal_strlit("videoThumbnails");
    reveal_strlit("relatedStreams");
    reveal_strlit("author");
    reveal_strlit("authorId");
    reveal_strlit("authorUrl");
    reveal_strlit("authorThumbnails");
    reveal_strlit("subCount");
    reveal_strlit("verified");
    reveal_strlit("lengthSeconds");
    reveal_strlit("viewCount");
    reveal_strlit("viewCountText");
    reveal_strlit("likeCount");
    reveal_strlit("dislikeCount");
    reveal_strlit("liveNow");
    reveal_strlit("isPremium");
    reveal_strlit("isUpcoming");
    reveal_strlit("premiereTimestamp");
    reveal_strlit("allowedRegions");
    reveal_strlit("authorVerified");
    reveal_strlit("captions");
    reveal_strlit("storyboards");
    reveal_strlit("recommends");
    reveal_strlit("type");
    reveal_strlit("channelId");
    reveal_strlit("videoCount");
    reveal_strlit("playlistId");
    reveal_strlit("thumbnail");
    reveal_strlit("hashtag");
    reveal_strlit("url");
    reveal_strlit("authorBanners");
    reveal_strlit("totalViews");
    reveal_strlit("joined");
    reveal_strlit("autoGenerated");
    reveal_strlit("ageGated");
    reveal_strlit("isFamilyFriendly");
    reveal_strlit("tabs");
    reveal_strlit("tags");
    reveal_strlit("pronouns");
    reveal_strlit("latestVideos");
    reveal_strlit("relatedChannels");
    reveal_strlit("updated");
    reveal_strlit("videos");
    reveal_strlit("commentId");
    reveal_strlit("content");
    reveal_strlit("isVerified");
    reveal_strlit("isPinned");
    reveal_strlit("index");
    reveal_strlit("indexId");
}

/// The videos answer reports the video as it is: its id, title, author and
/// author id, its length in seconds, its view count and the shown view count,
/// and whether it is live, each under its own member.
pub proof fn lemma_video_answer_members(v: VideoView, view_count_text: Seq<char>)
    ensures
        member(video_v(v, view_count_text), "videoId"@) == Some(JsonView::Str(v.id)),
        member(video_v(v, view_count_text), "title"@) == Some(JsonView::Str(v.title)),
        member(video_v(v, view_count_text), "author"@) == Some(JsonView::Str(v.author)),
        member(video_v(v, view_count_text), "authorId"@) == Some(JsonView::Str(v.author_id)),
        member(video_v(v, view_count_text), "lengthSeconds"@) == Some(
            JsonView::Int(v.length_seconds as i64),
        ),
        member(video_v(v, view_count_text), "viewCount"@) == Some(JsonView::Int(v.views)),
        member(video_v(v, view_count_text), "viewCountText"@) == Some(
            JsonView::Str(view_count_text),
        ),
        member(video_v(v, view_count_text), "liveNow"@) == Some(JsonView::Bool(v.live_now)),
{
    lemma_member_names();
    reveal_with_fuel(crate::json::view_entries_get, 30);
}

/// A search result reports what was found under the members of its kind: a
/// video its id, title, author, view count and length; a channel its id and
/// name; a playlist its id, title and video count; a hashtag its tag, page
/// and video count; and each its kind under `type`.
pub proof fn lemma_search_item_members(r: SearchResultView)
    ensures
        r matches SearchResultView::Video(v) ==> {
            &&& member(search_item_v(r), "type"@) == Some(JsonView::Str("video"@))
            &&& member(search_item_v(r), "videoId"@) == Some(JsonView::Str(v.id))
            &&& member(search_item_v(r), "title"@) == Some(JsonView::Str(v.title))
            &&& member(search_item_v(r), "author"@) == Some(JsonView::Str(v.author))
            &&& member(search_item_v(r), "authorId"@) == Some(JsonView::Str(v.author_id))
            &&& member(search_item_v(r), "viewCount"@) == Some(JsonView::Int(v.views))
            &&& member(search_item_v(r), "lengthSeconds"@) == Some(
                JsonView::Int(v.length_seconds as i64),
            )
            &&& member(search_item_v(r), "liveNow"@) == Some(JsonView::Bool(v.live_now))
        },
        r matches SearchResultView::Channel(c) ==> {
            &&& member(search_item_v(r), "type"@) == Some(JsonView::Str("channel"@))
            &&& member(search_item_v(r), "channelId"@) == Some(JsonView::Str(c.id))
            &&& member(search_item_v(r), "authorId"@) == Some(JsonView::Str(c.id))
            &&& member(search_item_v(r), "title"@) == Some(JsonView::Str(c.name))
            &&& member(search_item_v(r), "author"@) == Some(JsonView::Str(c.name))
        },
        r matches SearchResultView::Playlist(p) ==> {
            &&& member(search_item_v(r), "type"@) == Some(JsonView::Str("playlist"@))
            &&& member(search_item_v(r), "playlistId"@) == Some(JsonView::Str(p.id))
            &&& member(search_item_v(r), "title"@) == Some(JsonView::Str(p.title))
            &&& member(search_item_v(r), "author"@) == Some(JsonView::Str(p.author))
            &&& member(search_item_v(r), "videoCount"@) == Some(JsonView::Int(p.video_count))
        },
        r matches SearchResultView::Hashtag(h) ==> {
            &&& member(search_item_v(r), "type"@) == Some(JsonView::Str("hashtag"@))
            &&& member(search_item_v(r), "hashtag"@) == Some(JsonView::Str(h.tag))
            &&& member(search_item_v(r), "url"@) == Some(JsonView::Str(h.url))
            &&& member(search_item_v(r), "videoCount"@) == Some(JsonView::Int(h.video_count))
        },
{
    lemma_member_names();
    reveal_with_fuel(crate::json::view_entries_get, 11);
}

/// A video in a list of trending, popular or hashtag videos reports its id,
/// title, author, view count, length and whether it is live.
pub proof fn lemma_video_summary_members(v: VideoView)
    ensures
        member(video_summary_v(v), "videoId"@) == Some(JsonView::Str(v.id)),
        member(video_summary_v(v), "title"@) == Some(JsonView::Str(v.title)),
        member(video_summary_v(v), "author"@) == Some(JsonView::Str(v.author)),
        member(video_summary_v(v), "authorId"@) == Some(JsonView::Str(v.author_id)),
        member(video_summary_v(v), "viewCount"@) == Some(JsonView::Int(v.views)),
        member(video_summary_v(v), "lengthSeconds"@) == Some(JsonView::Int(v.length_seconds as i64)),
        member(video_summary_v(v), "liveNow"@) == Some(JsonView::Bool(v.live_now)),
{
    lemma_member_names();
    reveal_with_fuel(crate::json::view_entries_get, 10);
}

/// The channel answer reports the channel's name, id and page, its
/// subscriber count where it is known, whether it is generated or verified,
/// and its description.
pub proof fn lemma_channel_answer_members(c: ChannelView)
    ensures
        member(channel_v(c), "author"@) == Some(JsonView::Str(c.name)),
        member(channel_v(c), "authorId"@) == Some(JsonView::Str(c.id)),
        member(channel_v(c), "authorUrl"@) == Some(JsonView::Str("/channel/"@ + c.id)),
        member(channel_v(c), "subCount"@) == Some(
            match c.subscriber_count {
                Some(n) => JsonView::Int(n),
                None => JsonView::Null,
            },
        ),
        member(channel_v(c), "autoGenerated"@) == Some(JsonView::Bool(c.auto_generated)),
        member(channel_v(c), "authorVerified"@) == Some(JsonView::Bool(c.author_verified)),
        member(channel_v(c), "description"@) == Some(JsonView::Str(c.description_html)),
{
    lemma_member_names();
    reveal_with_fuel(crate::json::view_entries_get, 21);
}

/// The playlist answer reports the playlist's id, title, author and video
/// count, and lists its videos in order, each with its id, title and length.
pub proof fn lemma_playlist_answer_members(p: PlaylistView)
    ensures
        member(playlist_v(p), "playlistId"@) == Some(JsonView::Str(p.id)),
        member(playlist_v(p), "title"@) == Some(JsonView::Str(p.title)),
        member(playlist_v(p), "author"@) == Some(JsonView::Str(p.author)),
        member(playlist_v(p), "authorId"@) == Some(JsonView::Str(p.author_id)),
        member(playlist_v(p), "videoCount"@) == Some(JsonView::Int(p.video_count)),
        member(playlist_v(p), "videos"@) matches Some(JsonView::Array(vs)) && vs.len() == p.videos.len()
            && forall|i: int|
            0 <= i < vs.len() ==> {
                &&& member(#[trigger] vs[i], "videoId"@) == Some(JsonView::Str(p.videos[i].0))
                &&& member(vs[i], "title"@) == Some(JsonView::Str(p.videos[i].1))
                &&& member(vs[i], "lengthSeconds"@) == Some(JsonView::Int(p.videos[i].2 as i64))
            },
{
    lemma_member_names();
    reveal_with_fuel(crate::json::view_entries_get, 12);
    let vs = p.videos.map_values(|v: (Seq<char>, Seq<char>, i32)| playlist_video_v(v));
    assert(member(playlist_v(p), "videos"@) == Some(JsonView::Array(vs)));
    assert forall|i: int| 0 <= i < vs.len() implies {
        &&& member(#[trigger] vs[i], "videoId"@) == Some(JsonView::Str(p.videos[i].0))
        &&& member(vs[i], "title"@) == Some(JsonView::Str(p.videos[i].1))
        &&& member(vs[i], "lengthSeconds"@) == Some(JsonView::Int(p.videos[i].2 as i64))
    } by {
        assert(vs[i] == playlist_video_v(p.videos[i]));
    }
}

/// A comment reports its id, text, author, like count and whether its author
/// is verified.
pub proof fn lemma_comment_members(c: CommentView)
    ensures
        member(comment_v(c), "commentId"@) == Some(JsonView::Str(c.id)),
        member(comment_v(c), "content"@) == Some(JsonView::Str(c.content)),
        member(comment_v(c), "author"@) == Some(JsonView::Str(c.author)),
        member(comment_v(c), "authorId"@) == Some(JsonView::Str(c.author_id)),
        member(comment_v(c), "likeCount"@) == Some(JsonView::Int(c.like_count)),
        member(comment_v(c), "isVerified"@) == Some(JsonView::Bool(c.is_verified)),
{
    lemma_member_names();
    reveal_with_fuel(crate::json::view_entries_get, 10);
}

} // verus!
