//! Extraction of videos, channels, playlists, comments and search results
//! from YouTube API responses.

use vstd::prelude::*;
use crate::json::{
    Json, get, jget, jstr, jint, jarray, jfirst, jor, jbool, text_or_empty, path, deref_opt, opt_view,
    opt_get, opt_first, opt_path, text_or_empty_of, opt_string,
};
use crate::text::{push_char, push_str, replace, replace_all, str_eq, starts_with, has_prefix, trim_start_matches, trim_start_char, parse_i32, parse_i64, parsed_i32, parsed_i64, split_char, split_seq, views};

verus! {

/// Video badge flags, one bit each.
#[derive(Clone, Copy, PartialEq, Eq, Debug, Default)]
pub struct VideoBadges(u32);

impl VideoBadges {
    /// The bits that are set.
    pub closed spec fn bits(self) -> u32 {
        self.0
    }

    /// The badges whose bits are `bits`.
    pub fn from_bits(bits: u32) -> (r: VideoBadges)
        ensures
            r.bits() == bits,
    {
        VideoBadges(bits)
    }

    /// Whether the live-now badge (bit 0) is set.
    pub fn has_live_now(&self) -> (r: bool)
        ensures
            r == (self.bits() & 1 != 0),
    {
        self.0 & 1 != 0
    }

    /// Whether the new badge (bit 1) is set.
    pub fn has_new(&self) -> (r: bool)
        ensures
            r == (self.bits() & 2 != 0),
    {
        self.0 & 2 != 0
    }

    /// Whether the premium badge (bit 8) is set.
    pub fn has_premium(&self) -> (r: bool)
        ensures
            r == (self.bits() & 256 != 0),
    {
        self.0 & 256 != 0
    }
}

/// A thumbnail: its address and size.
#[derive(Debug, Clone)]
pub struct Thumbnail {
    pub url: String,
    pub width: u32,
    pub height: u32,
}

/// The view of a thumbnail: address, width, height.
pub open spec fn thumb_view(t: Thumbnail) -> (Seq<char>, u32, u32) {
    (t.url@, t.width, t.height)
}

/// The views of a sequence of thumbnails.
pub open spec fn thumb_views(v: Seq<Thumbnail>) -> Seq<(Seq<char>, u32, u32)> {
    v.map_values(|t: Thumbnail| thumb_view(t))
}

/// An integer member read as a thumbnail dimension: missing integers count
/// as 0, and the value is cut to 32 bits.
pub open spec fn dimension(o: Option<Json>) -> u32 {
    match jint(o) {
        Some(n) => n as u32,
        None => 0u32,
    }
}

/// The thumbnail that an entry of a thumbnail list describes: it needs a
/// string `url` and the members `width` and `height`.
pub open spec fn thumbnail_of(t: Json) -> Option<(Seq<char>, u32, u32)> {
    let o = Some(t);
    match (jstr(jget(o, "url"@)), jget(o, "width"@), jget(o, "height"@)) {
        (Some(u), Some(w), Some(h)) => Some((u, dimension(Some(w)), dimension(Some(h)))),
        _ => None,
    }
}

/// The thumbnails that a list of entries describes, in order.
pub open spec fn thumbnails_of(items: Seq<Json>) -> Seq<(Seq<char>, u32, u32)>
    decreases items.len(),
{
    if items.len() == 0 {
        Seq::empty()
    } else {
        let rest = thumbnails_of(items.drop_last());
        match thumbnail_of(items.last()) {
            Some(t) => rest.push(t),
            None => rest,
        }
    }
}

/// The thumbnails of an optional list; none where it is not a list.
pub open spec fn thumbnail_list(o: Option<Json>) -> Seq<(Seq<char>, u32, u32)> {
    match jarray(o) {
        Some(items) => thumbnails_of(items),
        None => Seq::empty(),
    }
}

/// Reads one entry of a thumbnail list.
fn thumbnail_from(t: &Json) -> (r: Option<Thumbnail>)
    ensures
        match r {
            Some(th) => thumbnail_of(*t) == Some(thumb_view(th)),
            None => thumbnail_of(*t) is None,
        },
{
    let url = match t.get("url") {
        Some(u) => match u.as_str() {
            Some(s) => s.to_owned(),
            None => return None,
        },
        None => return None,
    };
    let width = match t.get("width") {
        Some(w) => match w.as_i64() {
            Some(n) => n as u32,
            None => 0u32,
        },
        None => return None,
    };
    let height = match t.get("height") {
        Some(h) => match h.as_i64() {
            Some(n) => n as u32,
            None => 0u32,
        },
        None => return None,
    };
    Some(Thumbnail { url, width, height })
}

/// Reads a list of thumbnails; entries that lack a member are skipped.
fn thumbnails_from(o: Option<&Json>) -> (r: Vec<Thumbnail>)
    ensures
        thumb_views(r@) == thumbnail_list(deref_opt(o)),
{
    let mut out: Vec<Thumbnail> = Vec::new();
    match o {
        Some(j) => match j.as_array() {
            Some(items) => {
                let mut i: usize = 0;
                while i < items.len()
                    invariant
                        i <= items@.len(),
                        jarray(deref_opt(o)) == Some(items@),
                        thumb_views(out@) == thumbnails_of(items@.take(i as int)),
                    decreases items@.len() - i,
                {
                    proof {
                        assert(items@.take(i + 1).drop_last() =~= items@.take(i as int));
                        assert(items@.take(i + 1).last() == items@[i as int]);
                    }
                    match thumbnail_from(&items[i]) {
                        Some(t) => {
                            out.push(t);
                            proof {
                                assert(thumb_views(out@) =~= thumbnails_of(items@.take(i as int)).push(
                                    thumb_view(t),
                                ));
                            }
                        },
                        None => {},
                    }
                    i = i + 1;
                }
                proof {
                    assert(items@.take(items@.len() as int) =~= items@);
                }
            },
            None => {},
        },
        None => {},
    }
    proof {
        if thumbnail_list(deref_opt(o)).len() == 0 {
            assert(thumb_views(out@) =~= thumbnail_list(deref_opt(o)));
        }
    }
    out
}

/// What a length text such as `10:30` or `1:30:45` gives in seconds:
/// seconds, minutes and seconds, or hours, minutes and seconds, each an
/// `i32` numeral. The total is cut to 32 bits, as a release build does.
pub open spec fn length_seconds_of(s: Seq<char>) -> Option<i32> {
    let parts = split_seq(s, ':');
    if parts.len() == 1 {
        parsed_i32(parts[0])
    } else if parts.len() == 2 {
        match (parsed_i32(parts[0]), parsed_i32(parts[1])) {
            (Some(m), Some(x)) => Some((m * 60 + x) as i32),
            _ => None,
        }
    } else if parts.len() == 3 {
        match (parsed_i32(parts[0]), parsed_i32(parts[1]), parsed_i32(parts[2])) {
            (Some(h), Some(m), Some(x)) => Some((h * 3600 + m * 60 + x) as i32),
            _ => None,
        }
    } else {
        None
    }
}

/// Parses a length text (e.g. `10:30`) to seconds.
pub fn parse_length_seconds(s: &str) -> (r: Option<i32>)
    ensures
        r == length_seconds_of(s@),
{
    let parts = split_char(s, ':');
    proof {
        assert(views(parts@).len() == parts@.len());
    }
    if parts.len() == 1 {
        proof {
            assert(views(parts@)[0] == parts@[0]@);
        }
        parse_i32(parts[0].as_str())
    } else if parts.len() == 2 {
        proof {
            assert(views(parts@)[0] == parts@[0]@);
            assert(views(parts@)[1] == parts@[1]@);
        }
        let minutes = match parse_i32(parts[0].as_str()) {
            Some(v) => v,
            None => return None,
        };
        let seconds = match parse_i32(parts[1].as_str()) {
            Some(v) => v,
            None => return None,
        };
        let total: i64 = minutes as i64 * 60 + seconds as i64;
        Some(total as i32)
    } else if parts.len() == 3 {
        proof {
            assert(views(parts@)[0] == parts@[0]@);
            assert(views(parts@)[1] == parts@[1]@);
            assert(views(parts@)[2] == parts@[2]@);
        }
        let hours = match parse_i32(parts[0].as_str()) {
            Some(v) => v,
            None => return None,
        };
        let minutes = match parse_i32(parts[1].as_str()) {
            Some(v) => v,
            None => return None,
        };
        let seconds = match parse_i32(parts[2].as_str()) {
            Some(v) => v,
            None => return None,
        };
        let total: i64 = hours as i64 * 3600 + minutes as i64 * 60 + seconds as i64;
        Some(total as i32)
    } else {
        None
    }
}


/// A boolean member, or `false` where it is missing or not a boolean.
pub open spec fn bool_or_false(o: Option<Json>) -> bool {
    match jbool(o) {
        Some(b) => b,
        None => false,
    }
}

/// A numeral member read as an `i64`, or 0.
pub open spec fn i64_text_or_zero(o: Option<Json>) -> i64 {
    match jstr(o) {
        Some(s) => match parsed_i64(s) {
            Some(v) => v,
            None => 0,
        },
        None => 0,
    }
}

/// A numeral member read as an `i32`, or 0.
pub open spec fn i32_text_or_zero(o: Option<Json>) -> i32 {
    match jstr(o) {
        Some(s) => match parsed_i32(s) {
            Some(v) => v,
            None => 0,
        },
        None => 0,
    }
}

/// What a video holds, as plain values.
#[verifier::ext_equal]
pub struct VideoView {
    pub id: Seq<char>,
    pub title: Seq<char>,
    pub author: Seq<char>,
    pub author_id: Seq<char>,
    pub author_thumbnail: Option<Seq<char>>,
    pub published: Option<Seq<char>>,
    pub views: i64,
    pub length_seconds: i32,
    pub description_html: Seq<char>,
    pub thumbnails: Seq<(Seq<char>, u32, u32)>,
    pub badges: u32,
    pub premiere_timestamp: Option<i64>,
    pub live_now: bool,
    pub author_verified: bool,
}

/// Video data structure.
#[derive(Debug, Clone)]
pub struct Video {
    pub id: String,
    pub title: String,
    pub author: String,
    pub author_id: String,
    pub author_thumbnail: Option<String>,
    pub published: Option<String>,
    pub views: i64,
    pub length_seconds: i32,
    pub description_html: String,
    pub thumbnails: Vec<Thumbnail>,
    pub badges: VideoBadges,
    pub premiere_timestamp: Option<i64>,
    pub live_now: bool,
    pub author_verified: bool,
}

impl View for Video {
    type V = VideoView;

    open spec fn view(&self) -> VideoView {
        VideoView {
            id: self.id@,
            title: self.title@,
            author: self.author@,
            author_id: self.author_id@,
            author_thumbnail: opt_view(self.author_thumbnail),
            published: opt_view(self.published),
            views: self.views,
            length_seconds: self.length_seconds,
            description_html: self.description_html@,
            thumbnails: thumb_views(self.thumbnails@),
            badges: self.badges.bits(),
            premiere_timestamp: self.premiere_timestamp,
            live_now: self.live_now,
            author_verified: self.author_verified,
        }
    }
}

/// The video that a player response describes under `videoDetails`.
pub open spec fn video_of_details(response: Json, video_id: Seq<char>) -> VideoView {
    let d = jget(Some(response), "videoDetails"@);
    VideoView {
        id: video_id,
        title: text_or_empty(path(d, seq!["title"@, "simpleText"@])),
        author: text_or_empty(path(d, seq!["author"@, "simpleText"@])),
        author_id: text_or_empty(jget(d, "channelId"@)),
        author_thumbnail: jstr(
            jget(jfirst(path(d, seq!["authorThumbnail"@, "thumbnails"@])), "url"@),
        ),
        published: None,
        views: i64_text_or_zero(jget(d, "viewCount"@)),
        length_seconds: i32_text_or_zero(jget(d, "lengthSeconds"@)),
        description_html: text_or_empty(jget(d, "shortDescription"@)),
        thumbnails: thumbnail_list(path(d, seq!["thumbnail"@, "thumbnails"@])),
        badges: 0,
        premiere_timestamp: None,
        live_now: bool_or_false(jget(d, "isLive"@)),
        author_verified: false,
    }
}

/// Reads a numeral member as an `i64`, or 0.
fn i64_text_or_zero_of(o: Option<&Json>) -> (r: i64)
    ensures
        r == i64_text_or_zero(deref_opt(o)),
{
    match o {
        Some(j) => match j.as_str() {
            Some(s) => match parse_i64(s) {
                Some(v) => v,
                None => 0,
            },
            None => 0,
        },
        None => 0,
    }
}

/// Reads a numeral member as an `i32`, or 0.
fn i32_text_or_zero_of(o: Option<&Json>) -> (r: i32)
    ensures
        r == i32_text_or_zero(deref_opt(o)),
{
    match o {
        Some(j) => match j.as_str() {
            Some(s) => match parse_i32(s) {
                Some(v) => v,
                None => 0,
            },
            None => 0,
        },
        None => 0,
    }
}

/// Reads a boolean member, or `false`.
fn bool_or_false_of(o: Option<&Json>) -> (r: bool)
    ensures
        r == bool_or_false(deref_opt(o)),
{
    match o {
        Some(j) => match j.as_bool() {
            Some(b) => b,
            None => false,
        },
        None => false,
    }
}

impl Video {
    /// Create a Video from the player API response.
    pub fn from_api_response(response: Json, video_id: &str) -> (r: Video)
        ensures
            r@ == video_of_details(response, video_id@),
    {
        let d = response.get("videoDetails");
        let title = text_or_empty_of(opt_path(d, &["title", "simpleText"]));
        let author = text_or_empty_of(opt_path(d, &["author", "simpleText"]));
        let author_id = text_or_empty_of(opt_get(d, "channelId"));
        let views = i64_text_or_zero_of(opt_get(d, "viewCount"));
        let length_seconds = i32_text_or_zero_of(opt_get(d, "lengthSeconds"));
        let description = text_or_empty_of(opt_get(d, "shortDescription"));
        let thumbnails = thumbnails_from(opt_path(d, &["thumbnail", "thumbnails"]));
        let author_thumbnail = opt_string(
            opt_get(opt_first(opt_path(d, &["authorThumbnail", "thumbnails"])), "url"),
        );
        let live_now = bool_or_false_of(opt_get(d, "isLive"));
        let r = Video {
            id: video_id.to_owned(),
            title,
            author,
            author_id,
            author_thumbnail,
            published: None,
            views,
            length_seconds,
            description_html: description,
            thumbnails,
            badges: VideoBadges(0),
            premiere_timestamp: None,
            live_now,
            author_verified: false,
        };
        proof {
            let ghost d = jget(Some(response), "videoDetails"@);
            reveal_with_fuel(path, 3);
        }
        r
    }
}


/// The seconds that an optional length text gives, or 0.
pub open spec fn length_or_zero(o: Option<Json>) -> i32 {
    match jstr(o) {
        Some(t) => match length_seconds_of(t) {
            Some(v) => v,
            None => 0,
        },
        None => 0,
    }
}

/// The text of the first run of a `runs` list.
pub open spec fn first_run_text(o: Option<Json>) -> Option<Json> {
    jget(jfirst(o), "text"@)
}

/// A title as the watch-next and playlist renderers read it: the
/// `simpleText` member if there is one, else the `runs` list, and then the
/// text of the first run.
pub open spec fn renderer_title(r: Option<Json>) -> Seq<char> {
    text_or_empty(
        first_run_text(jor(path(r, seq!["title"@, "simpleText"@]), path(r, seq!["title"@, "runs"@]))),
    )
}

/// The related video that one entry of the watch-next results describes.
pub open spec fn related_video_of(item: Json) -> Option<VideoView> {
    let vr = jget(Some(item), "videoRenderer"@);
    match jstr(jget(vr, "videoId"@)) {
        Some(id) => {
            let byline = path(vr, seq!["shortBylineText"@, "runs"@]);
            Some(
                VideoView {
                    id: id,
                    title: renderer_title(vr),
                    author: text_or_empty(first_run_text(byline)),
                    author_id: text_or_empty(
                        path(
                            jfirst(byline),
                            seq!["navigationEndpoint"@, "browseEndpoint"@, "browseId"@],
                        ),
                    ),
                    author_thumbnail: None,
                    published: None,
                    views: 0,
                    length_seconds: length_or_zero(path(vr, seq!["lengthText"@, "simpleText"@])),
                    description_html: Seq::empty(),
                    thumbnails: thumbnail_list(path(vr, seq!["thumbnail"@, "thumbnails"@])),
                    badges: 0,
                    premiere_timestamp: None,
                    live_now: false,
                    author_verified: false,
                },
            )
        },
        None => None,
    }
}

/// The related videos that a list of entries describes, in order.
pub open spec fn related_videos_of(items: Seq<Json>) -> Seq<VideoView>
    decreases items.len(),
{
    if items.len() == 0 {
        Seq::empty()
    } else {
        let rest = related_videos_of(items.drop_last());
        match related_video_of(items.last()) {
            Some(v) => rest.push(v),
            None => rest,
        }
    }
}

/// The related videos of a watch-next response.
pub open spec fn related_videos_of_response(response: Json) -> Seq<VideoView> {
    match jarray(
        path(
            Some(response),
            seq![
                "contents"@,
                "twoColumnWatchNextResults"@,
                "secondaryResults"@,
                "secondaryResults"@,
                "results"@,
            ],
        ),
    ) {
        Some(items) => related_videos_of(items),
        None => Seq::empty(),
    }
}

/// The views of a sequence of videos.
pub open spec fn video_views(v: Seq<Video>) -> Seq<VideoView> {
    v.map_values(|x: Video| x@)
}

/// Reads the seconds of an optional length text, or 0.
fn length_or_zero_of(o: Option<&Json>) -> (r: i32)
    ensures
        r == length_or_zero(deref_opt(o)),
{
    match o {
        Some(j) => match j.as_str() {
            Some(t) => match parse_length_seconds(t) {
                Some(v) => v,
                None => 0,
            },
            None => 0,
        },
        None => 0,
    }
}

/// The first of two optional values that is present.
fn opt_or<'a>(a: Option<&'a Json>, b: Option<&'a Json>) -> (r: Option<&'a Json>)
    ensures
        deref_opt(r) == jor(deref_opt(a), deref_opt(b)),
{
    match a {
        Some(_) => a,
        None => b,
    }
}

/// Reads a title as the watch-next and playlist renderers hold it.
fn renderer_title_of(r: Option<&Json>) -> (t: String)
    ensures
        t@ == renderer_title(deref_opt(r)),
{
    proof {
        reveal_with_fuel(path, 3);
    }
    let node = opt_or(opt_path(r, &["title", "simpleText"]), opt_path(r, &["title", "runs"]));
    text_or_empty_of(opt_get(opt_first(node), "text"))
}

/// Reads one entry of the watch-next results.
fn related_video_from(item: &Json) -> (r: Option<Video>)
    ensures
        match r {
            Some(v) => related_video_of(*item) == Some(v@),
            None => related_video_of(*item) is None,
        },
{
    let vr = item.get("videoRenderer");
    let id = match opt_string(opt_get(vr, "videoId")) {
        Some(id) => id,
        None => return None,
    };
    let byline = opt_path(vr, &["shortBylineText", "runs"]);
    let title = renderer_title_of(vr);
    let author = text_or_empty_of(opt_get(opt_first(byline), "text"));
    let author_id = text_or_empty_of(
        opt_path(opt_first(byline), &["navigationEndpoint", "browseEndpoint", "browseId"]),
    );
    let length_seconds = length_or_zero_of(opt_path(vr, &["lengthText", "simpleText"]));
    let thumbnails = thumbnails_from(opt_path(vr, &["thumbnail", "thumbnails"]));
    let v = Video {
        id,
        title,
        author,
        author_id,
        author_thumbnail: None,
        published: None,
        views: 0,
        length_seconds,
        description_html: String::new(),
        thumbnails,
        badges: VideoBadges(0),
        premiere_timestamp: None,
        live_now: false,
        author_verified: false,
    };
    proof {
        reveal_with_fuel(path, 4);
    }
    Some(v)
}

impl Video {
    /// Extract related videos from the next API response.
    pub fn from_related_videos(response: Json) -> (r: Vec<Video>)
        ensures
            video_views(r@) == related_videos_of_response(response),
    {
        let mut videos: Vec<Video> = Vec::new();
        let contents = opt_path(
            Some(&response),
            &[
                "contents",
                "twoColumnWatchNextResults",
                "secondaryResults",
                "secondaryResults",
                "results",
            ],
        );
        proof {
            reveal_with_fuel(path, 6);
        }
        match contents {
            Some(c) => match c.as_array() {
                Some(items) => {
                    let mut i: usize = 0;
                    while i < items.len()
                        invariant
                            i <= items@.len(),
                            jarray(deref_opt(contents)) == Some(items@),
                            video_views(videos@) == related_videos_of(items@.take(i as int)),
                        decreases items@.len() - i,
                    {
                        proof {
                            assert(items@.take(i + 1).drop_last() =~= items@.take(i as int));
                            assert(items@.take(i + 1).last() == items@[i as int]);
                        }
                        match related_video_from(&items[i]) {
                            Some(v) => {
                                let ghost vv = v@;
                                videos.push(v);
                                proof {
                                    assert(video_views(videos@) =~= related_videos_of(
                                        items@.take(i as int),
                                    ).push(vv));
                                }
                            },
                            None => {},
                        }
                        i = i + 1;
                    }
                    proof {
                        assert(items@.take(items@.len() as int) =~= items@);
                    }
                },
                None => {},
            },
            None => {},
        }
        proof {
            if related_videos_of_response(response).len() == 0 {
                assert(video_views(videos@) =~= related_videos_of_response(response));
            }
        }
        videos
    }
}


/// The multiplier that the suffix letter of a count text names: `M` for a
/// million, else `K` for a thousand, else `B` for a billion, else 1.
pub open spec fn count_multiplier(s: Seq<char>) -> i64 {
    if s.contains('M') {
        1_000_000
    } else if s.contains('K') {
        1_000
    } else if s.contains('B') {
        1_000_000_000
    } else {
        1
    }
}

/// The digits and dots of a count text, in order.
pub open spec fn count_numeral(s: Seq<char>) -> Seq<char> {
    s.filter(|c: char| ('0' <= c <= '9') || c == '.')
}

/// The number of dots in `s`.
pub open spec fn dot_count(s: Seq<char>) -> nat
    decreases s.len(),
{
    if s.len() == 0 {
        0
    } else {
        dot_count(s.drop_last()) + if s.last() == '.' {
            1nat
        } else {
            0nat
        }
    }
}

/// Whether a string of digits and dots is a numeral that `f64::from_str`
/// accepts: at most one dot and at least one digit.
pub open spec fn is_float_numeral(n: Seq<char>) -> bool {
    dot_count(n) <= 1 && exists|i: int| 0 <= i < n.len() && n[i] != '.'
}

/// What a count text such as `1.5M subscribers` is made of: the numeral and
/// the multiplier that its suffix names.
#[derive(Debug, Clone)]
pub struct CountText {
    pub numeral: String,
    pub multiplier: i64,
}

/// Splits a count text into its numeral and multiplier; `None` where the
/// digits and dots do not form a numeral.
pub fn count_text(s: &str) -> (r: Option<CountText>)
    ensures
        match r {
            Some(c) => {
                &&& is_float_numeral(count_numeral(s@))
                &&& c.numeral@ == count_numeral(s@)
                &&& c.multiplier == count_multiplier(s@)
            },
            None => !is_float_numeral(count_numeral(s@)),
        },
{
    let mut numeral = String::new();
    let mut has_m = false;
    let mut has_k = false;
    let mut has_b = false;
    let mut dots: u8 = 0;
    let mut has_digit = false;
    let ghost mut k: int = 0;
    for c in it: s.chars()
        invariant
            it.seq() == s@,
            k == it.index(),
            0 <= k <= s@.len(),
            numeral@ == count_numeral(s@.take(k)),
            has_m == s@.take(k).contains('M'),
            has_k == s@.take(k).contains('K'),
            has_b == s@.take(k).contains('B'),
            dots == if dot_count(numeral@) < 2 {
                dot_count(numeral@)
            } else {
                2
            },
            has_digit == exists|i: int| 0 <= i < numeral@.len() && numeral@[i] != '.',
    {
        proof {
            assert(s@.take(k + 1).drop_last() =~= s@.take(k));
            assert(s@.take(k + 1).last() == c);
            reveal(Seq::filter);
            assert(s@.take(k + 1) =~= s@.take(k).push(c));
        }
        if c == 'M' {
            has_m = true;
        }
        if c == 'K' {
            has_k = true;
        }
        if c == 'B' {
            has_b = true;
        }
        let ghost before = numeral@;
        if ('0' <= c && c <= '9') || c == '.' {
            push_char(&mut numeral, c);
            if c == '.' {
                if dots < 2 {
                    dots = dots + 1;
                }
            } else {
                has_digit = true;
            }
            proof {
                assert(numeral@.drop_last() =~= before);
                assert(numeral@[numeral@.len() - 1] == c);
                if !has_digit {
                    assert forall|i: int| 0 <= i < numeral@.len() implies numeral@[i] == '.' by {
                        if i < before.len() {
                            assert(numeral@[i] == before[i]);
                        }
                    }
                } else if c != '.' {
                    assert(numeral@[numeral@.len() - 1] != '.');
                } else {
                    let w = choose|i: int| 0 <= i < before.len() && before[i] != '.';
                    assert(numeral@[w] == before[w]);
                }
            }
        }
        proof {
            assert(s@.take(k + 1).contains('M') == (s@.take(k).contains('M') || c == 'M')) by {
                if c == 'M' {
                    assert(s@.take(k + 1)[k] == 'M');
                }
                if s@.take(k).contains('M') {
                    let w = choose|i: int| 0 <= i < k && s@.take(k)[i] == 'M';
                    assert(s@.take(k + 1)[w] == 'M');
                }
            }
            assert(s@.take(k + 1).contains('K') == (s@.take(k).contains('K') || c == 'K')) by {
                if c == 'K' {
                    assert(s@.take(k + 1)[k] == 'K');
                }
                if s@.take(k).contains('K') {
                    let w = choose|i: int| 0 <= i < k && s@.take(k)[i] == 'K';
                    assert(s@.take(k + 1)[w] == 'K');
                }
            }
            assert(s@.take(k + 1).contains('B') == (s@.take(k).contains('B') || c == 'B')) by {
                if c == 'B' {
                    assert(s@.take(k + 1)[k] == 'B');
                }
                if s@.take(k).contains('B') {
                    let w = choose|i: int| 0 <= i < k && s@.take(k)[i] == 'B';
                    assert(s@.take(k + 1)[w] == 'B');
                }
            }
            k = k + 1;
        }
    }
    proof {
        assert(s@.take(k) =~= s@);
    }
    if dots > 1 || !has_digit {
        return None;
    }
    let multiplier: i64 = if has_m {
        1_000_000
    } else if has_k {
        1_000
    } else if has_b {
        1_000_000_000
    } else {
        1
    };
    Some(CountText { numeral, multiplier })
}

/// Whether the counter `f` gives, for every string, the value that `cf`
/// names for its characters.
pub open spec fn agrees<F: Fn(&str) -> Option<i64>>(
    f: F,
    cf: spec_fn(Seq<char>) -> Option<i64>,
) -> bool {
    forall|x: &str, v: Option<i64>| #[trigger] f.ensures((x,), v) ==> v == cf(x@)
}

/// The count that `cf` gives for an optional text.
pub open spec fn count_with(cf: spec_fn(Seq<char>) -> Option<i64>, t: Option<Seq<char>>) -> Option<
    i64,
> {
    match t {
        Some(t) => cf(t),
        None => None,
    }
}

/// A count, or 0 where there is none.
pub open spec fn or_zero(v: Option<i64>) -> i64 {
    match v {
        Some(n) => n,
        None => 0,
    }
}

/// Reads an optional text with the counter `parse_count`.
fn count_from_text<F: Fn(&str) -> Option<i64>>(parse_count: &F, t: Option<&str>) -> (r: Option<
    i64,
>)
    requires
        forall|x: &str| parse_count.requires((x,)),
    ensures
        forall|cf: spec_fn(Seq<char>) -> Option<i64>|
            agrees(*parse_count, cf) ==> r == count_with(
                cf,
                match t {
                    Some(x) => Some(x@),
                    None => None,
                },
            ),
{
    match t {
        Some(x) => parse_count(x),
        None => None,
    }
}

/// Reads an optional text member with the counter `parse_count`.
fn count_from<F: Fn(&str) -> Option<i64>>(parse_count: &F, o: Option<&Json>) -> (r: Option<i64>)
    requires
        forall|x: &str| parse_count.requires((x,)),
    ensures
        forall|cf: spec_fn(Seq<char>) -> Option<i64>|
            agrees(*parse_count, cf) ==> r == count_with(cf, jstr(deref_opt(o))),
{
    let t = match o {
        Some(j) => j.as_str(),
        None => None,
    };
    count_from_text(parse_count, t)
}


/// What a channel holds, as plain values.
#[verifier::ext_equal]
pub struct ChannelView {
    pub id: Seq<char>,
    pub name: Seq<char>,
    pub handle: Option<Seq<char>>,
    pub thumbnail: Option<Seq<char>>,
    pub subscriber_count: Option<i64>,
    pub video_count: Option<i64>,
    pub description_html: Seq<char>,
    pub author_verified: bool,
    pub auto_generated: bool,
}

/// Channel data structure.
#[derive(Debug, Clone)]
pub struct Channel {
    pub id: String,
    pub name: String,
    pub handle: Option<String>,
    pub thumbnail: Option<String>,
    pub subscriber_count: Option<i64>,
    pub video_count: Option<i64>,
    pub description_html: String,
    pub author_verified: bool,
    pub auto_generated: bool,
}

impl View for Channel {
    type V = ChannelView;

    open spec fn view(&self) -> ChannelView {
        ChannelView {
            id: self.id@,
            name: self.name@,
            handle: opt_view(self.handle),
            thumbnail: opt_view(self.thumbnail),
            subscriber_count: self.subscriber_count,
            video_count: self.video_count,
            description_html: self.description_html@,
            author_verified: self.author_verified,
            auto_generated: self.auto_generated,
        }
    }
}

/// The subscriber count text of a channel browse response: in the first
/// tab, the first section, the first item of its contents, the header links.
pub open spec fn browse_subscriber_text(response: Json) -> Option<Json> {
    let tabs = path(Some(response), seq!["contents"@, "twoColumnBrowseResultsRenderer"@, "tabs"@]);
    let sections = path(
        jfirst(tabs),
        seq!["tabRenderer"@, "content"@, "sectionListRenderer"@, "contents"@],
    );
    let items = path(jfirst(sections), seq!["itemSectionRenderer"@, "contents"@]);
    path(jfirst(items), seq!["channelHeaderLinksRenderer"@, "subscriberCount"@])
}

/// The channel that a browse response describes, counting with `cf`.
pub open spec fn channel_of_browse(
    response: Json,
    channel_id: Seq<char>,
    cf: spec_fn(Seq<char>) -> Option<i64>,
) -> ChannelView {
    let m = path(Some(response), seq!["metadata"@, "channelMetadataRenderer"@]);
    ChannelView {
        id: channel_id,
        name: text_or_empty(jget(m, "title"@)),
        handle: jstr(jget(m, "handle"@)),
        thumbnail: jstr(jget(jfirst(path(m, seq!["avatar"@, "thumbnails"@])), "url"@)),
        subscriber_count: count_with(cf, jstr(browse_subscriber_text(response))),
        video_count: None,
        description_html: Seq::empty(),
        author_verified: false,
        auto_generated: false,
    }
}

impl Channel {
    /// Create a Channel from the browse API response; counts are read with
    /// `parse_count`.
    pub fn from_api_response<F: Fn(&str) -> Option<i64>>(
        response: Json,
        channel_id: &str,
        parse_count: &F,
    ) -> (r: Channel)
        requires
            forall|x: &str| parse_count.requires((x,)),
        ensures
            forall|cf: spec_fn(Seq<char>) -> Option<i64>|
                agrees(*parse_count, cf) ==> r@ == channel_of_browse(response, channel_id@, cf),
    {
        proof {
            reveal_with_fuel(path, 5);
        }
        let m = opt_path(Some(&response), &["metadata", "channelMetadataRenderer"]);
        let name = text_or_empty_of(opt_get(m, "title"));
        let handle = opt_string(opt_get(m, "handle"));
        let thumbnail = opt_string(opt_get(opt_first(opt_path(m, &["avatar", "thumbnails"])), "url"));
        let tabs = opt_path(
            Some(&response),
            &["contents", "twoColumnBrowseResultsRenderer", "tabs"],
        );
        let sections = opt_path(
            opt_first(tabs),
            &["tabRenderer", "content", "sectionListRenderer", "contents"],
        );
        let items = opt_path(opt_first(sections), &["itemSectionRenderer", "contents"]);
        let text = opt_path(opt_first(items), &["channelHeaderLinksRenderer", "subscriberCount"]);
        let subscriber_count = count_from(parse_count, text);
        Channel {
            id: channel_id.to_owned(),
            name,
            handle,
            thumbnail,
            subscriber_count,
            video_count: None,
            description_html: String::new(),
            author_verified: false,
            auto_generated: false,
        }
    }
}


/// The first of two optional texts that is present.
pub open spec fn str_or(a: Option<Seq<char>>, b: Option<Seq<char>>) -> Option<Seq<char>> {
    if a is Some {
        a
    } else {
        b
    }
}

/// A text or nothing.
pub open spec fn or_empty(t: Option<Seq<char>>) -> Seq<char> {
    match t {
        Some(s) => s,
        None => Seq::empty(),
    }
}

/// A title as the search renderers read it: the `simpleText` member, else
/// the text of the first run.
pub open spec fn search_title(r: Option<Json>) -> Seq<char> {
    text_or_empty(
        jor(path(r, seq!["title"@, "simpleText"@]), first_run_text(path(r, seq!["title"@, "runs"@]))),
    )
}

/// The browse id of the first run of a byline.
pub open spec fn run_browse_id(runs: Option<Json>) -> Option<Json> {
    path(jfirst(runs), seq!["navigationEndpoint"@, "browseEndpoint"@, "browseId"@])
}

/// A view-count text without separators and suffix, read as an `i64`, or 0.
pub open spec fn view_count_of(t: Option<Seq<char>>) -> i64 {
    match t {
        Some(t) => match parsed_i64(
            replace_all(
                replace_all(replace_all(t, ","@, ""@), " views"@, ""@),
                " view"@,
                ""@,
            ),
        ) {
            Some(v) => v,
            None => 0,
        },
        None => 0,
    }
}

/// The label of a badge.
pub open spec fn badge_label(b: Json) -> Option<Seq<char>> {
    jstr(path(Some(b), seq!["metadataBadgeRenderer"@, "label"@]))
}

/// Whether one of the badges is labelled `LIVE`.
pub open spec fn has_live_badge(o: Option<Json>) -> bool {
    match jarray(o) {
        Some(bs) => exists|i: int|
            0 <= i < bs.len() && #[trigger] badge_label(bs[i]) == Some("LIVE"@),
        None => false,
    }
}

/// The video that a search `videoRenderer` describes.
pub open spec fn video_of_renderer(r: Json) -> Option<VideoView> {
    let o = Some(r);
    match jstr(jget(o, "videoId"@)) {
        Some(id) => {
            let owner = path(o, seq!["ownerText"@, "runs"@]);
            let byline = path(o, seq!["shortBylineText"@, "runs"@]);
            Some(
                VideoView {
                    id: id,
                    title: search_title(o),
                    author: or_empty(
                        str_or(jstr(first_run_text(owner)), jstr(first_run_text(byline))),
                    ),
                    author_id: text_or_empty(jor(run_browse_id(owner), run_browse_id(byline))),
                    author_thumbnail: jstr(
                        jget(
                            jfirst(
                                path(
                                    o,
                                    seq![
                                        "channelThumbnailSupportedRenderers"@,
                                        "channelThumbnailWithLinkRenderer"@,
                                        "thumbnail"@,
                                        "thumbnails"@,
                                    ],
                                ),
                            ),
                            "url"@,
                        ),
                    ),
                    published: None,
                    views: view_count_of(
                        jstr(
                            jor(
                                path(o, seq!["viewCountText"@, "simpleText"@]),
                                first_run_text(path(o, seq!["viewCountText"@, "runs"@])),
                            ),
                        ),
                    ),
                    length_seconds: length_or_zero(path(o, seq!["lengthText"@, "simpleText"@])),
                    description_html: Seq::empty(),
                    thumbnails: thumbnail_list(path(o, seq!["thumbnail"@, "thumbnails"@])),
                    badges: 0,
                    premiere_timestamp: None,
                    live_now: has_live_badge(jget(o, "badges"@)),
                    author_verified: false,
                },
            )
        },
        None => None,
    }
}

/// Reads a search title.
fn search_title_of(r: Option<&Json>) -> (t: String)
    ensures
        t@ == search_title(deref_opt(r)),
{
    proof {
        reveal_with_fuel(path, 3);
    }
    let node = opt_or(
        opt_path(r, &["title", "simpleText"]),
        opt_get(opt_first(opt_path(r, &["title", "runs"])), "text"),
    );
    text_or_empty_of(node)
}

/// Reads the browse id of the first run of a byline.
fn run_browse_id_of<'a>(runs: Option<&'a Json>) -> (r: Option<&'a Json>)
    ensures
        deref_opt(r) == run_browse_id(deref_opt(runs)),
{
    proof {
        reveal_with_fuel(path, 4);
    }
    opt_path(opt_first(runs), &["navigationEndpoint", "browseEndpoint", "browseId"])
}

/// Reads a view-count text.
fn view_count_from(t: Option<&str>) -> (r: i64)
    ensures
        r == view_count_of(
            match t {
                Some(x) => Some(x@),
                None => None,
            },
        ),
{
    match t {
        Some(x) => {
            proof {
                reveal_strlit(",");
                reveal_strlit(" views");
                reveal_strlit(" view");
                reveal_strlit("");
            }
            let a = replace(x, ",", "");
            let b = replace(a.as_str(), " views", "");
            let c = replace(b.as_str(), " view", "");
            match parse_i64(c.as_str()) {
                Some(v) => v,
                None => 0,
            }
        },
        None => 0,
    }
}

/// Reads whether one of the badges is labelled `LIVE`.
fn has_live_badge_of(o: Option<&Json>) -> (r: bool)
    ensures
        r == has_live_badge(deref_opt(o)),
{
    proof {
        reveal_with_fuel(path, 3);
    }
    match o {
        Some(j) => match j.as_array() {
            Some(bs) => {
                let mut i: usize = 0;
                while i < bs.len()
                    invariant
                        i <= bs@.len(),
                        jarray(deref_opt(o)) == Some(bs@),
                        forall|k: int|
                            0 <= k < i ==> #[trigger] badge_label(bs@[k]) != Some("LIVE"@),
                    decreases bs@.len() - i,
                {
                    proof {
                        reveal_with_fuel(path, 3);
                    }
                    let label = opt_path(Some(&bs[i]), &["metadataBadgeRenderer", "label"]);
                    match label {
                        Some(l) => match l.as_str() {
                            Some(t) => {
                                if str_eq(t, "LIVE") {
                                    assert(badge_label(bs@[i as int]) == Some("LIVE"@));
                                    return true;
                                }
                            },
                            None => {},
                        },
                        None => {},
                    }
                    i = i + 1;
                }
                false
            },
            None => false,
        },
        None => false,
    }
}

impl Video {
    /// Reads a search `videoRenderer`; `None` where it has no video id.
    pub fn from_video_renderer(renderer: &Json) -> (r: Option<Video>)
        ensures
            match r {
                Some(v) => video_of_renderer(*renderer) == Some(v@),
                None => video_of_renderer(*renderer) is None,
            },
    {
        proof {
            reveal_with_fuel(path, 5);
        }
        let o = Some(renderer);
        let id = match opt_string(opt_get(o, "videoId")) {
            Some(id) => id,
            None => return None,
        };
        let owner = opt_path(o, &["ownerText", "runs"]);
        let byline = opt_path(o, &["shortBylineText", "runs"]);
        let title = search_title_of(o);
        let author = match opt_get(opt_first(owner), "text") {
            Some(j) => match j.as_str() {
                Some(t) => t.to_owned(),
                None => text_or_empty_of(opt_get(opt_first(byline), "text")),
            },
            None => text_or_empty_of(opt_get(opt_first(byline), "text")),
        };
        let author_id = text_or_empty_of(opt_or(run_browse_id_of(owner), run_browse_id_of(byline)));
        let count_node = opt_or(
            opt_path(o, &["viewCountText", "simpleText"]),
            opt_get(opt_first(opt_path(o, &["viewCountText", "runs"])), "text"),
        );
        let count_text = match count_node {
            Some(j) => j.as_str(),
            None => None,
        };
        let views = view_count_from(count_text);
        let length_seconds = length_or_zero_of(opt_path(o, &["lengthText", "simpleText"]));
        let thumbnails = thumbnails_from(opt_path(o, &["thumbnail", "thumbnails"]));
        let author_thumbnail = opt_string(
            opt_get(
                opt_first(
                    opt_path(
                        o,
                        &[
                            "channelThumbnailSupportedRenderers",
                            "channelThumbnailWithLinkRenderer",
                            "thumbnail",
                            "thumbnails",
                        ],
                    ),
                ),
                "url",
            ),
        );
        let live_now = has_live_badge_of(opt_get(o, "badges"));
        Some(
            Video {
                id,
                title,
                author,
                author_id,
                author_thumbnail,
                published: None,
                views,
                length_seconds,
                description_html: String::new(),
                thumbnails,
                badges: VideoBadges(0),
                premiere_timestamp: None,
                live_now,
                author_verified: false,
            },
        )
    }
}


/// The channel that a search `channelRenderer` describes, counting with `cf`.
pub open spec fn channel_of_renderer(r: Json, cf: spec_fn(Seq<char>) -> Option<i64>) -> Option<
    ChannelView,
> {
    let o = Some(r);
    match jstr(jget(o, "channelId"@)) {
        Some(id) => {
            let sub = path(o, seq!["subscriberCountText"@, "simpleText"@]);
            let videos = path(o, seq!["videoCountText"@, "simpleText"@]);
            Some(
                ChannelView {
                    id: id,
                    name: search_title(o),
                    handle: match jstr(sub) {
                        Some(t) => if has_prefix(t, seq!['@']) {
                            Some(t)
                        } else {
                            None
                        },
                        None => None,
                    },
                    thumbnail: jstr(jget(jfirst(path(o, seq!["thumbnail"@, "thumbnails"@])), "url"@)),
                    subscriber_count: count_with(cf, jstr(jor(sub, videos))),
                    video_count: count_with(cf, jstr(videos)),
                    description_html: Seq::empty(),
                    author_verified: false,
                    auto_generated: false,
                },
            )
        },
        None => None,
    }
}

impl Channel {
    /// Reads a search `channelRenderer`; `None` where it has no channel id.
    pub fn from_channel_renderer<F: Fn(&str) -> Option<i64>>(renderer: &Json, parse_count: &F) -> (r:
        Option<Channel>)
        requires
            forall|x: &str| parse_count.requires((x,)),
        ensures
            forall|cf: spec_fn(Seq<char>) -> Option<i64>|
                agrees(*parse_count, cf) ==> match r {
                    Some(c) => channel_of_renderer(*renderer, cf) == Some(c@),
                    None => channel_of_renderer(*renderer, cf) is None,
                },
    {
        proof {
            reveal_with_fuel(path, 3);
        }
        let o = Some(renderer);
        let id = match opt_string(opt_get(o, "channelId")) {
            Some(id) => id,
            None => return None,
        };
        let name = search_title_of(o);
        let sub = opt_path(o, &["subscriberCountText", "simpleText"]);
        let videos = opt_path(o, &["videoCountText", "simpleText"]);
        let handle = match sub {
            Some(j) => match j.as_str() {
                Some(t) => if starts_with(t, "@") {
                    proof {
                        reveal_strlit("@");
                        assert("@"@ =~= seq!['@']);
                    }
                    Some(t.to_owned())
                } else {
                    proof {
                        reveal_strlit("@");
                        assert("@"@ =~= seq!['@']);
                    }
                    None
                },
                None => None,
            },
            None => None,
        };
        let subscriber_count = count_from(parse_count, opt_or(sub, videos));
        let thumbnail = opt_string(opt_get(opt_first(opt_path(o, &["thumbnail", "thumbnails"])), "url"));
        let video_count = count_from(parse_count, videos);
        Some(
            Channel {
                id,
                name,
                handle,
                thumbnail,
                subscriber_count,
                video_count,
                description_html: String::new(),
                author_verified: false,
                auto_generated: false,
            },
        )
    }
}

/// A video of a playlist: id, title, length in seconds.
#[derive(Debug, Clone)]
pub struct PlaylistVideo {
    pub id: String,
    pub title: String,
    pub length_seconds: i32,
}

/// The view of a playlist video.
pub open spec fn playlist_video_view(v: PlaylistVideo) -> (Seq<char>, Seq<char>, i32) {
    (v.id@, v.title@, v.length_seconds)
}

/// What a playlist holds, as plain values.
#[verifier::ext_equal]
pub struct PlaylistView {
    pub id: Seq<char>,
    pub title: Seq<char>,
    pub author: Seq<char>,
    pub author_id: Seq<char>,
    pub video_count: i64,
    pub thumbnail: Option<Seq<char>>,
    pub videos: Seq<(Seq<char>, Seq<char>, i32)>,
}

/// Playlist data structure.
#[derive(Debug, Clone)]
pub struct Playlist {
    pub id: String,
    pub title: String,
    pub author: String,
    pub author_id: String,
    pub video_count: i64,
    pub thumbnail: Option<String>,
    pub videos: Vec<PlaylistVideo>,
}

impl View for Playlist {
    type V = PlaylistView;

    open spec fn view(&self) -> PlaylistView {
        PlaylistView {
            id: self.id@,
            title: self.title@,
            author: self.author@,
            author_id: self.author_id@,
            video_count: self.video_count,
            thumbnail: opt_view(self.thumbnail),
            videos: self.videos@.map_values(|v: PlaylistVideo| playlist_video_view(v)),
        }
    }
}

/// The playlist that a search `playlistRenderer` describes, counting with `cf`.
pub open spec fn playlist_of_renderer(r: Json, cf: spec_fn(Seq<char>) -> Option<i64>) -> Option<
    PlaylistView,
> {
    let o = Some(r);
    match jstr(jget(o, "playlistId"@)) {
        Some(id) => {
            let byline = path(o, seq!["shortBylineText"@, "runs"@]);
            Some(
                PlaylistView {
                    id: id,
                    title: search_title(o),
                    author: text_or_empty(first_run_text(byline)),
                    author_id: text_or_empty(run_browse_id(byline)),
                    video_count: or_zero(
                        count_with(
                            cf,
                            str_or(
                                jstr(jget(o, "videoCount"@)),
                                jstr(path(o, seq!["videoCountText"@, "simpleText"@])),
                            ),
                        ),
                    ),
                    thumbnail: jstr(
                        jget(jfirst(jget(jfirst(jget(o, "thumbnails"@)), "thumbnails"@)), "url"@),
                    ),
                    videos: Seq::empty(),
                },
            )
        },
        None => None,
    }
}

/// A count, or 0.
fn or_zero_of(v: Option<i64>) -> (r: i64)
    ensures
        r == or_zero(v),
{
    match v {
        Some(n) => n,
        None => 0,
    }
}

impl Playlist {
    /// Reads a search `playlistRenderer`; `None` where it has no playlist id.
    pub fn from_playlist_renderer<F: Fn(&str) -> Option<i64>>(renderer: &Json, parse_count: &F) -> (r:
        Option<Playlist>)
        requires
            forall|x: &str| parse_count.requires((x,)),
        ensures
            forall|cf: spec_fn(Seq<char>) -> Option<i64>|
                agrees(*parse_count, cf) ==> match r {
                    Some(p) => playlist_of_renderer(*renderer, cf) == Some(p@),
                    None => playlist_of_renderer(*renderer, cf) is None,
                },
    {
        proof {
            reveal_with_fuel(path, 3);
        }
        let o = Some(renderer);
        let id = match opt_string(opt_get(o, "playlistId")) {
            Some(id) => id,
            None => return None,
        };
        let title = search_title_of(o);
        let byline = opt_path(o, &["shortBylineText", "runs"]);
        let author = text_or_empty_of(opt_get(opt_first(byline), "text"));
        let author_id = text_or_empty_of(run_browse_id_of(byline));
        let direct = match opt_get(o, "videoCount") {
            Some(j) => j.as_str(),
            None => None,
        };
        let count_text = match direct {
            Some(t) => Some(t),
            None => match opt_path(o, &["videoCountText", "simpleText"]) {
                Some(j) => j.as_str(),
                None => None,
            },
        };
        let video_count = or_zero_of(count_from_text(parse_count, count_text));
        let thumbnail = opt_string(
            opt_get(opt_first(opt_get(opt_first(opt_get(o, "thumbnails")), "thumbnails")), "url"),
        );
        let p = Playlist {
            id,
            title,
            author,
            author_id,
            video_count,
            thumbnail,
            videos: Vec::new(),
        };
        proof {
            assert(p@.videos =~= Seq::<(Seq<char>, Seq<char>, i32)>::empty());
        }
        Some(p)
    }
}

/// What a hashtag holds, as plain values.
pub struct HashtagView {
    pub tag: Seq<char>,
    pub url: Seq<char>,
    pub video_count: i64,
}

/// Hashtag search result.
#[derive(Debug, Clone)]
pub struct Hashtag {
    pub tag: String,
    pub url: String,
    pub video_count: i64,
}

impl View for Hashtag {
    type V = HashtagView;

    open spec fn view(&self) -> HashtagView {
        HashtagView { tag: self.tag@, url: self.url@, video_count: self.video_count }
    }
}

/// The hashtag that a search `hashtagTileRenderer` describes, counting
/// with `cf`; without a link, the link is `/hashtag/` and the tag without
/// its leading `#` signs.
pub open spec fn hashtag_of_renderer(r: Json, cf: spec_fn(Seq<char>) -> Option<i64>) -> HashtagView {
    let o = Some(r);
    let tag = text_or_empty(
        jor(path(o, seq!["hashtag"@, "simpleText"@]), first_run_text(path(o, seq!["hashtag"@, "runs"@]))),
    );
    HashtagView {
        tag: tag,
        url: match jstr(
            path(o, seq!["onTapCommand"@, "commandMetadata"@, "webCommandMetadata"@, "url"@]),
        ) {
            Some(u) => u,
            None => "/hashtag/"@ + trim_start_char(tag, '#'),
        },
        video_count: or_zero(
            count_with(
                cf,
                jstr(
                    jor(
                        path(o, seq!["hashtagVideoCount"@, "simpleText"@]),
                        path(o, seq!["hashtagInfoText"@, "simpleText"@]),
                    ),
                ),
            ),
        ),
    }
}

impl Hashtag {
    /// Reads a search `hashtagTileRenderer`.
    pub fn from_hashtag_renderer<F: Fn(&str) -> Option<i64>>(renderer: &Json, parse_count: &F) -> (r:
        Option<Hashtag>)
        requires
            forall|x: &str| parse_count.requires((x,)),
        ensures
            forall|cf: spec_fn(Seq<char>) -> Option<i64>|
                agrees(*parse_count, cf) ==> (r is Some && r.unwrap()@ == hashtag_of_renderer(
                    *renderer,
                    cf,
                )),
    {
        proof {
            reveal_with_fuel(path, 5);
        }
        let o = Some(renderer);
        let tag = text_or_empty_of(
            opt_or(
                opt_path(o, &["hashtag", "simpleText"]),
                opt_get(opt_first(opt_path(o, &["hashtag", "runs"])), "text"),
            ),
        );
        let url = match opt_path(o, &["onTapCommand", "commandMetadata", "webCommandMetadata", "url"]) {
            Some(j) => match j.as_str() {
                Some(u) => u.to_owned(),
                None => {
                    let mut u = String::new();
                    push_str(&mut u, "/hashtag/");
                    let t = trim_start_matches(tag.as_str(), '#');
                    push_str(&mut u, t.as_str());
                    proof {
                        assert(u@ =~= "/hashtag/"@ + trim_start_char(tag@, '#'));
                    }
                    u
                },
            },
            None => {
                let mut u = String::new();
                push_str(&mut u, "/hashtag/");
                let t = trim_start_matches(tag.as_str(), '#');
                push_str(&mut u, t.as_str());
                proof {
                    assert(u@ =~= "/hashtag/"@ + trim_start_char(tag@, '#'));
                }
                u
            },
        };
        let count_node = opt_or(
            opt_path(o, &["hashtagVideoCount", "simpleText"]),
            opt_path(o, &["hashtagInfoText", "simpleText"]),
        );
        let video_count = or_zero_of(count_from(parse_count, count_node));
        Some(Hashtag { tag, url, video_count })
    }
}


/// Search result item.
#[derive(Debug, Clone)]
pub enum SearchResult {
    Video(Video),
    Channel(Channel),
    Playlist(Playlist),
    Hashtag(Hashtag),
}

/// What a search result holds, as plain values.
pub enum SearchResultView {
    Video(VideoView),
    Channel(ChannelView),
    Playlist(PlaylistView),
    Hashtag(HashtagView),
}

impl View for SearchResult {
    type V = SearchResultView;

    open spec fn view(&self) -> SearchResultView {
        match self {
            SearchResult::Video(v) => SearchResultView::Video(v@),
            SearchResult::Channel(c) => SearchResultView::Channel(c@),
            SearchResult::Playlist(p) => SearchResultView::Playlist(p@),
            SearchResult::Hashtag(h) => SearchResultView::Hashtag(h@),
        }
    }
}

/// The result that one item of a search section describes: the first of
/// the video, channel, playlist and hashtag renderers that the item holds
/// decides, and nothing comes of the item where that renderer lacks its id.
pub open spec fn search_item_of(item: Json, cf: spec_fn(Seq<char>) -> Option<i64>) -> Option<
    SearchResultView,
> {
    let o = Some(item);
    match jget(o, "videoRenderer"@) {
        Some(r) => match video_of_renderer(r) {
            Some(v) => Some(SearchResultView::Video(v)),
            None => None,
        },
        None => match jget(o, "channelRenderer"@) {
            Some(r) => match channel_of_renderer(r, cf) {
                Some(c) => Some(SearchResultView::Channel(c)),
                None => None,
            },
            None => match jget(o, "playlistRenderer"@) {
                Some(r) => match playlist_of_renderer(r, cf) {
                    Some(p) => Some(SearchResultView::Playlist(p)),
                    None => None,
                },
                None => match jget(o, "hashtagTileRenderer"@) {
                    Some(r) => Some(SearchResultView::Hashtag(hashtag_of_renderer(r, cf))),
                    None => None,
                },
            },
        },
    }
}

/// The results of the items of one search section, in order.
pub open spec fn search_items_of(items: Seq<Json>, cf: spec_fn(Seq<char>) -> Option<i64>) -> Seq<
    SearchResultView,
>
    decreases items.len(),
{
    if items.len() == 0 {
        Seq::empty()
    } else {
        let rest = search_items_of(items.drop_last(), cf);
        match search_item_of(items.last(), cf) {
            Some(x) => rest.push(x),
            None => rest,
        }
    }
}

/// The items of a search section; none where it is no item section.
pub open spec fn section_items(section: Json) -> Seq<Json> {
    match jarray(path(Some(section), seq!["itemSectionRenderer"@, "contents"@])) {
        Some(items) => items,
        None => Seq::empty(),
    }
}

/// The results of a list of search sections, section after section.
pub open spec fn search_sections_of(sections: Seq<Json>, cf: spec_fn(Seq<char>) -> Option<i64>) -> Seq<
    SearchResultView,
>
    decreases sections.len(),
{
    if sections.len() == 0 {
        Seq::empty()
    } else {
        search_sections_of(sections.drop_last(), cf) + search_items_of(
            section_items(sections.last()),
            cf,
        )
    }
}

/// The results of a search response.
pub open spec fn search_results_of(response: Json, cf: spec_fn(Seq<char>) -> Option<i64>) -> Seq<
    SearchResultView,
> {
    match jarray(
        path(
            Some(response),
            seq![
                "contents"@,
                "twoColumnSearchResultsRenderer"@,
                "primaryContents"@,
                "sectionListRenderer"@,
                "contents"@,
            ],
        ),
    ) {
        Some(sections) => search_sections_of(sections, cf),
        None => Seq::empty(),
    }
}

/// The views of a sequence of search results.
pub open spec fn result_views(v: Seq<SearchResult>) -> Seq<SearchResultView> {
    v.map_values(|x: SearchResult| x@)
}

impl SearchResult {
    /// Reads one item of a search section.
    pub fn parse_item<F: Fn(&str) -> Option<i64>>(item: &Json, parse_count: &F) -> (r: Option<
        SearchResult,
    >)
        requires
            forall|x: &str| parse_count.requires((x,)),
        ensures
            forall|cf: spec_fn(Seq<char>) -> Option<i64>|
                agrees(*parse_count, cf) ==> match r {
                    Some(x) => search_item_of(*item, cf) == Some(x@),
                    None => search_item_of(*item, cf) is None,
                },
    {
        match item.get("videoRenderer") {
            Some(r) => {
                return match Video::from_video_renderer(r) {
                    Some(v) => Some(SearchResult::Video(v)),
                    None => None,
                };
            },
            None => {},
        }
        match item.get("channelRenderer") {
            Some(r) => {
                return match Channel::from_channel_renderer(r, parse_count) {
                    Some(c) => Some(SearchResult::Channel(c)),
                    None => None,
                };
            },
            None => {},
        }
        match item.get("playlistRenderer") {
            Some(r) => {
                return match Playlist::from_playlist_renderer(r, parse_count) {
                    Some(p) => Some(SearchResult::Playlist(p)),
                    None => None,
                };
            },
            None => {},
        }
        match item.get("hashtagTileRenderer") {
            Some(r) => {
                return match Hashtag::from_hashtag_renderer(r, parse_count) {
                    Some(h) => Some(SearchResult::Hashtag(h)),
                    None => None,
                };
            },
            None => {},
        }
        None
    }

    /// Parse search results from the search API response; counts are read
    /// with `parse_count`.
    pub fn from_search_response<F: Fn(&str) -> Option<i64>>(response: Json, parse_count: &F) -> (r:
        Vec<SearchResult>)
        requires
            forall|x: &str| parse_count.requires((x,)),
        ensures
            forall|cf: spec_fn(Seq<char>) -> Option<i64>|
                agrees(*parse_count, cf) ==> result_views(r@) == search_results_of(response, cf),
    {
        let mut results: Vec<SearchResult> = Vec::new();
        proof {
            reveal_with_fuel(path, 6);
        }
        let contents = opt_path(
            Some(&response),
            &[
                "contents",
                "twoColumnSearchResultsRenderer",
                "primaryContents",
                "sectionListRenderer",
                "contents",
            ],
        );
        match contents {
            Some(c) => match c.as_array() {
                Some(sections) => {
                    let mut i: usize = 0;
                    while i < sections.len()
                        invariant
                            forall|x: &str| parse_count.requires((x,)),
                            i <= sections@.len(),
                            jarray(deref_opt(contents)) == Some(sections@),
                            forall|cf: spec_fn(Seq<char>) -> Option<i64>|
                                agrees(*parse_count, cf) ==> result_views(results@)
                                    == search_sections_of(sections@.take(i as int), cf),
                        decreases sections@.len() - i,
                    {
                        proof {
                            assert(sections@.take(i + 1).drop_last() =~= sections@.take(i as int));
                            assert(sections@.take(i + 1).last() == sections@[i as int]);
                            reveal_with_fuel(path, 3);
                        }
                        let ghost before = results@;
                        let inner = opt_path(Some(&sections[i]), &["itemSectionRenderer", "contents"]);
                        let items_opt = match inner {
                            Some(x) => x.as_array(),
                            None => None,
                        };
                        match items_opt {
                            Some(items) => {
                                let mut j: usize = 0;
                                while j < items.len()
                                    invariant
                                        forall|x: &str| parse_count.requires((x,)),
                                        j <= items@.len(),
                                        section_items(sections@[i as int]) == items@,
                                        results@.len() >= before.len(),
                                        results@.take(before.len() as int) == before,
                                        forall|cf: spec_fn(Seq<char>) -> Option<i64>|
                                            agrees(*parse_count, cf) ==> result_views(
                                                results@.skip(before.len() as int),
                                            ) == search_items_of(items@.take(j as int), cf),
                                    decreases items@.len() - j,
                                {
                                    proof {
                                        assert(items@.take(j + 1).drop_last() =~= items@.take(
                                            j as int,
                                        ));
                                        assert(items@.take(j + 1).last() == items@[j as int]);
                                    }
                                    let ghost prev = results@;
                                    match SearchResult::parse_item(&items[j], parse_count) {
                                        Some(x) => {
                                            results.push(x);
                                            proof {
                                                assert(results@.take(before.len() as int) =~= before);
                                                assert(results@.skip(before.len() as int) =~= prev.skip(
                                                    before.len() as int,
                                                ).push(x));
                                                assert forall|cf: spec_fn(Seq<char>) -> Option<i64>|
                                                    agrees(*parse_count, cf) implies result_views(
                                                    results@.skip(before.len() as int),
                                                ) == search_items_of(items@.take(j + 1), cf) by {
                                                    assert(result_views(
                                                        results@.skip(before.len() as int),
                                                    ) =~= result_views(
                                                        prev.skip(before.len() as int),
                                                    ).push(x@));
                                                }
                                            }
                                        },
                                        None => {},
                                    }
                                    j = j + 1;
                                }
                                proof {
                                    assert(items@.take(items@.len() as int) =~= items@);
                                }
                            },
                            None => {
                                proof {
                                    assert(section_items(sections@[i as int]) =~= Seq::<Json>::empty());
                                }
                            },
                        }
                        proof {
                            assert(results@ =~= before + results@.skip(before.len() as int));
                            assert forall|cf: spec_fn(Seq<char>) -> Option<i64>|
                                agrees(*parse_count, cf) implies result_views(results@)
                                == search_sections_of(sections@.take(i + 1), cf) by {
                                assert(result_views(results@) =~= result_views(before) + result_views(
                                    results@.skip(before.len() as int),
                                ));
                            }
                        }
                        i = i + 1;
                    }
                    proof {
                        assert(sections@.take(sections@.len() as int) =~= sections@);
                    }
                },
                None => {},
            },
            None => {},
        }
        proof {
            assert forall|cf: spec_fn(Seq<char>) -> Option<i64>|
                agrees(*parse_count, cf) implies result_views(results@) == search_results_of(
                response,
                cf,
            ) by {
                if search_results_of(response, cf).len() == 0 {
                    assert(result_views(results@) =~= search_results_of(response, cf));
                }
            }
        }
        results
    }
}


/// The playlist video that one entry of a playlist's video list describes.
pub open spec fn playlist_video_of(item: Json) -> Option<(Seq<char>, Seq<char>, i32)> {
    let r = jget(Some(item), "playlistVideoRenderer"@);
    match r {
        Some(_) => match jstr(jget(r, "videoId"@)) {
            Some(id) => Some(
                (id, renderer_title(r), length_or_zero(path(r, seq!["lengthText"@, "simpleText"@]))),
            ),
            None => None,
        },
        None => None,
    }
}

/// The playlist videos that a list of entries describes, in order.
pub open spec fn playlist_videos_of(items: Seq<Json>) -> Seq<(Seq<char>, Seq<char>, i32)>
    decreases items.len(),
{
    if items.len() == 0 {
        Seq::empty()
    } else {
        let rest = playlist_videos_of(items.drop_last());
        match playlist_video_of(items.last()) {
            Some(v) => rest.push(v),
            None => rest,
        }
    }
}

/// The video list of a playlist browse response: in the first tab, the
/// first section, the first item.
pub open spec fn playlist_list_of(response: Json) -> Option<Json> {
    let tabs = path(Some(response), seq!["contents"@, "twoColumnBrowseResultsRenderer"@, "tabs"@]);
    let sections = path(
        jfirst(tabs),
        seq!["tabRenderer"@, "content"@, "sectionListRenderer"@, "contents"@],
    );
    let items = path(jfirst(sections), seq!["itemSectionRenderer"@, "contents"@]);
    jget(jfirst(items), "playlistVideoListRenderer"@)
}

/// The videos of a playlist browse response.
pub open spec fn playlist_videos_of_response(response: Json) -> Seq<(Seq<char>, Seq<char>, i32)> {
    match jarray(jget(playlist_list_of(response), "contents"@)) {
        Some(items) => playlist_videos_of(items),
        None => Seq::empty(),
    }
}

/// The playlist that a browse response describes.
pub open spec fn playlist_of_browse(response: Json, playlist_id: Seq<char>) -> PlaylistView {
    let m = path(Some(response), seq!["metadata"@, "playlistMetadataRenderer"@]);
    let videos = playlist_videos_of_response(response);
    PlaylistView {
        id: playlist_id,
        title: text_or_empty(jget(m, "title"@)),
        author: Seq::empty(),
        author_id: Seq::empty(),
        video_count: videos.len() as i64,
        thumbnail: None,
        videos: videos,
    }
}

/// Reads one entry of a playlist's video list.
fn playlist_video_from(item: &Json) -> (r: Option<PlaylistVideo>)
    ensures
        match r {
            Some(v) => playlist_video_of(*item) == Some(playlist_video_view(v)),
            None => playlist_video_of(*item) is None,
        },
{
    proof {
        reveal_with_fuel(path, 3);
    }
    let r = item.get("playlistVideoRenderer");
    if r.is_none() {
        return None;
    }
    let id = match opt_string(opt_get(r, "videoId")) {
        Some(id) => id,
        None => return None,
    };
    let title = renderer_title_of(r);
    let length_seconds = length_or_zero_of(opt_path(r, &["lengthText", "simpleText"]));
    Some(PlaylistVideo { id, title, length_seconds })
}

impl Playlist {
    /// Create a Playlist from the browse API response.
    pub fn from_api_response(response: Json, playlist_id: &str) -> (r: Playlist)
        ensures
            r@ == playlist_of_browse(response, playlist_id@),
    {
        proof {
            reveal_with_fuel(path, 5);
        }
        let m = opt_path(Some(&response), &["metadata", "playlistMetadataRenderer"]);
        let title = text_or_empty_of(opt_get(m, "title"));
        let tabs = opt_path(
            Some(&response),
            &["contents", "twoColumnBrowseResultsRenderer", "tabs"],
        );
        let sections = opt_path(
            opt_first(tabs),
            &["tabRenderer", "content", "sectionListRenderer", "contents"],
        );
        let items = opt_path(opt_first(sections), &["itemSectionRenderer", "contents"]);
        let list = opt_get(opt_first(items), "playlistVideoListRenderer");
        let entries = opt_get(list, "contents");
        let mut videos: Vec<PlaylistVideo> = Vec::new();
        match entries {
            Some(e) => match e.as_array() {
                Some(vs) => {
                    let mut i: usize = 0;
                    while i < vs.len()
                        invariant
                            i <= vs@.len(),
                            jarray(deref_opt(entries)) == Some(vs@),
                            videos@.map_values(|v: PlaylistVideo| playlist_video_view(v))
                                == playlist_videos_of(vs@.take(i as int)),
                            videos@.len() <= i,
                        decreases vs@.len() - i,
                    {
                        proof {
                            assert(vs@.take(i + 1).drop_last() =~= vs@.take(i as int));
                            assert(vs@.take(i + 1).last() == vs@[i as int]);
                        }
                        match playlist_video_from(&vs[i]) {
                            Some(v) => {
                                let ghost pv = playlist_video_view(v);
                                videos.push(v);
                                proof {
                                    assert(videos@.map_values(
                                        |v: PlaylistVideo| playlist_video_view(v),
                                    ) =~= playlist_videos_of(vs@.take(i as int)).push(pv));
                                }
                            },
                            None => {},
                        }
                        i = i + 1;
                    }
                    proof {
                        assert(vs@.take(vs@.len() as int) =~= vs@);
                    }
                },
                None => {},
            },
            None => {},
        }
        proof {
            if playlist_videos_of_response(response).len() == 0 {
                assert(videos@.map_values(|v: PlaylistVideo| playlist_video_view(v))
                    =~= playlist_videos_of_response(response));
            }
        }
        let video_count = videos.len() as i64;
        Playlist {
            id: playlist_id.to_owned(),
            title,
            author: String::new(),
            author_id: String::new(),
            video_count,
            thumbnail: None,
            videos,
        }
    }
}


/// What a comment holds apart from its replies, as plain values.
pub struct CommentView {
    pub id: Seq<char>,
    pub author: Seq<char>,
    pub author_thumbnail: Option<Seq<char>>,
    pub author_id: Seq<char>,
    pub content: Seq<char>,
    pub published: Seq<char>,
    pub like_count: i64,
    pub is_verified: bool,
    pub is_verified_author: bool,
}

/// Comment data structure.
#[derive(Debug)]
pub struct Comment {
    pub id: String,
    pub author: String,
    pub author_thumbnail: Option<String>,
    pub author_id: String,
    pub content: String,
    pub published: String,
    pub like_count: i64,
    pub is_verified: bool,
    pub is_verified_author: bool,
    pub replies: Vec<Comment>,
}

/// What a comment holds apart from its replies.
pub open spec fn comment_head(c: Comment) -> CommentView {
    CommentView {
        id: c.id@,
        author: c.author@,
        author_thumbnail: opt_view(c.author_thumbnail),
        author_id: c.author_id@,
        content: c.content@,
        published: c.published@,
        like_count: c.like_count,
        is_verified: c.is_verified,
        is_verified_author: c.is_verified_author,
    }
}

/// The texts of a list of runs, joined.
pub open spec fn runs_text(runs: Seq<Json>) -> Seq<char>
    decreases runs.len(),
{
    if runs.len() == 0 {
        Seq::empty()
    } else {
        runs_text(runs.drop_last()) + or_empty(jstr(jget(Some(runs.last()), "text"@)))
    }
}

/// A text as the comment renderer reads it: the `simpleText` member if
/// there is one, else the `runs` list, and then the text of the first run.
pub open spec fn comment_text(r: Option<Json>, key: Seq<char>) -> Seq<char> {
    text_or_empty(
        first_run_text(
            jor(jget(jget(r, key), "simpleText"@), jget(jget(r, key), "runs"@)),
        ),
    )
}

/// The comment that a `commentRenderer` describes, counting likes with `cf`.
pub open spec fn comment_of_renderer(
    r: Option<Json>,
    cf: spec_fn(Seq<char>) -> Option<i64>,
) -> Option<CommentView> {
    match r {
        Some(_) => match jstr(jget(r, "commentId"@)) {
            Some(id) => Some(
                CommentView {
                    id: id,
                    author: comment_text(r, "authorText"@),
                    author_thumbnail: jstr(
                        jget(jfirst(path(r, seq!["authorThumbnail"@, "thumbnails"@])), "url"@),
                    ),
                    author_id: text_or_empty(
                        path(r, seq!["authorEndpoint"@, "browseEndpoint"@, "browseId"@]),
                    ),
                    content: match jarray(path(r, seq!["contentText"@, "runs"@])) {
                        Some(runs) => runs_text(runs),
                        None => Seq::empty(),
                    },
                    published: comment_text(r, "publishedTimeText"@),
                    like_count: or_zero(
                        count_with(cf, jstr(path(r, seq!["voteCount"@, "simpleText"@]))),
                    ),
                    is_verified: jget(r, "authorCommentBadge"@) is Some,
                    is_verified_author: false,
                },
            ),
            None => None,
        },
        None => None,
    }
}

/// The replies that a list of reply entries describes, in order.
pub open spec fn replies_of(items: Seq<Json>, cf: spec_fn(Seq<char>) -> Option<i64>) -> Seq<
    CommentView,
>
    decreases items.len(),
{
    if items.len() == 0 {
        Seq::empty()
    } else {
        let rest = replies_of(items.drop_last(), cf);
        match comment_of_renderer(jget(Some(items.last()), "commentRenderer"@), cf) {
            Some(c) => rest.push(c),
            None => rest,
        }
    }
}

/// The comment and replies that one thread entry describes.
pub open spec fn thread_of(item: Json, cf: spec_fn(Seq<char>) -> Option<i64>) -> Option<
    (CommentView, Seq<CommentView>),
> {
    let t = jget(Some(item), "commentThreadRenderer"@);
    match t {
        Some(_) => match comment_of_renderer(path(t, seq!["comment"@, "commentRenderer"@]), cf) {
            Some(c) => Some(
                (
                    c,
                    match jarray(
                        path(t, seq!["replies"@, "commentRepliesRenderer"@, "comments"@]),
                    ) {
                        Some(rs) => replies_of(rs, cf),
                        None => Seq::empty(),
                    },
                ),
            ),
            None => None,
        },
        None => None,
    }
}

/// The threads that a list of entries describes, in order.
pub open spec fn threads_of(items: Seq<Json>, cf: spec_fn(Seq<char>) -> Option<i64>) -> Seq<
    (CommentView, Seq<CommentView>),
>
    decreases items.len(),
{
    if items.len() == 0 {
        Seq::empty()
    } else {
        let rest = threads_of(items.drop_last(), cf);
        match thread_of(items.last(), cf) {
            Some(t) => rest.push(t),
            None => rest,
        }
    }
}

/// The comment threads of a watch-next response.
pub open spec fn threads_of_response(response: Json, cf: spec_fn(Seq<char>) -> Option<i64>) -> Seq<
    (CommentView, Seq<CommentView>),
> {
    match jarray(
        path(
            Some(response),
            seq![
                "contents"@,
                "twoColumnWatchNextResults"@,
                "results"@,
                "results"@,
                "comments"@,
                "header"@,
                "commentsHeaderRenderer"@,
                "commentSort"@,
                "sortFilterMenuRenderer"@,
                "comments"@,
            ],
        ),
    ) {
        Some(items) => threads_of(items, cf),
        None => Seq::empty(),
    }
}

/// A comment and the heads of its replies.
pub open spec fn comment_tree(c: Comment) -> (CommentView, Seq<CommentView>) {
    (comment_head(c), c.replies@.map_values(|x: Comment| comment_head(x)))
}

/// Whether none of the replies of `c` has replies of its own.
pub open spec fn replies_are_leaves(c: Comment) -> bool {
    forall|i: int| 0 <= i < c.replies@.len() ==> (#[trigger] c.replies@[i]).replies@.len() == 0
}

/// Reads the texts of a list of runs, joined.
fn runs_text_of(o: Option<&Json>) -> (r: String)
    ensures
        r@ == match jarray(deref_opt(o)) {
            Some(runs) => runs_text(runs),
            None => Seq::empty(),
        },
{
    let mut out = String::new();
    match o {
        Some(j) => match j.as_array() {
            Some(runs) => {
                let mut i: usize = 0;
                while i < runs.len()
                    invariant
                        i <= runs@.len(),
                        jarray(deref_opt(o)) == Some(runs@),
                        out@ == runs_text(runs@.take(i as int)),
                    decreases runs@.len() - i,
                {
                    proof {
                        assert(runs@.take(i + 1).drop_last() =~= runs@.take(i as int));
                        assert(runs@.take(i + 1).last() == runs@[i as int]);
                    }
                    match runs[i].get("text") {
                        Some(t) => match t.as_str() {
                            Some(x) => {
                                push_str(&mut out, x);
                            },
                            None => {
                                assert(out@ =~= out@ + Seq::<char>::empty());
                            },
                        },
                        None => {
                            assert(out@ =~= out@ + Seq::<char>::empty());
                        },
                    }
                    i = i + 1;
                }
                proof {
                    assert(runs@.take(runs@.len() as int) =~= runs@);
                }
            },
            None => {},
        },
        None => {},
    }
    out
}

/// Reads a text as the comment renderer holds it.
fn comment_text_of(r: Option<&Json>, key: &str) -> (t: String)
    ensures
        t@ == comment_text(deref_opt(r), key@),
{
    let node = opt_get(r, key);
    text_or_empty_of(opt_get(opt_first(opt_or(opt_get(node, "simpleText"), opt_get(node, "runs"))), "text"))
}

impl Comment {
    /// Reads a `commentRenderer`; `None` where it is missing or has no id.
    fn parse_comment_renderer<F: Fn(&str) -> Option<i64>>(
        renderer: Option<&Json>,
        parse_count: &F,
    ) -> (r: Option<Comment>)
        requires
            forall|x: &str| parse_count.requires((x,)),
        ensures
            forall|cf: spec_fn(Seq<char>) -> Option<i64>|
                agrees(*parse_count, cf) ==> match r {
                    Some(c) => comment_of_renderer(deref_opt(renderer), cf) == Some(comment_head(c)),
                    None => comment_of_renderer(deref_opt(renderer), cf) is None,
                },
            match r {
                Some(c) => c.replies@.len() == 0,
                None => true,
            },
    {
        proof {
            reveal_with_fuel(path, 4);
        }
        if renderer.is_none() {
            return None;
        }
        let id = match opt_string(opt_get(renderer, "commentId")) {
            Some(id) => id,
            None => return None,
        };
        let author = comment_text_of(renderer, "authorText");
        let author_thumbnail = opt_string(
            opt_get(opt_first(opt_path(renderer, &["authorThumbnail", "thumbnails"])), "url"),
        );
        let author_id = text_or_empty_of(
            opt_path(renderer, &["authorEndpoint", "browseEndpoint", "browseId"]),
        );
        let content = runs_text_of(opt_path(renderer, &["contentText", "runs"]));
        let published = comment_text_of(renderer, "publishedTimeText");
        let like_count = or_zero_of(
            count_from(parse_count, opt_path(renderer, &["voteCount", "simpleText"])),
        );
        let is_verified = opt_get(renderer, "authorCommentBadge").is_some();
        Some(
            Comment {
                id,
                author,
                author_thumbnail,
                author_id,
                content,
                published,
                like_count,
                is_verified,
                is_verified_author: false,
                replies: Vec::new(),
            },
        )
    }

    /// Reads the replies of a thread.
    fn replies_from<F: Fn(&str) -> Option<i64>>(o: Option<&Json>, parse_count: &F) -> (r: Vec<
        Comment,
    >)
        requires
            forall|x: &str| parse_count.requires((x,)),
        ensures
            forall|cf: spec_fn(Seq<char>) -> Option<i64>|
                agrees(*parse_count, cf) ==> r@.map_values(|x: Comment| comment_head(x))
                    == match jarray(deref_opt(o)) {
                    Some(rs) => replies_of(rs, cf),
                    None => Seq::empty(),
                },
            forall|i: int| 0 <= i < r@.len() ==> (#[trigger] r@[i]).replies@.len() == 0,
    {
        let mut out: Vec<Comment> = Vec::new();
        match o {
            Some(j) => match j.as_array() {
                Some(rs) => {
                    let mut i: usize = 0;
                    while i < rs.len()
                        invariant
                            forall|x: &str| parse_count.requires((x,)),
                            i <= rs@.len(),
                            jarray(deref_opt(o)) == Some(rs@),
                            forall|cf: spec_fn(Seq<char>) -> Option<i64>|
                                agrees(*parse_count, cf) ==> out@.map_values(
                                    |x: Comment| comment_head(x),
                                ) == replies_of(rs@.take(i as int), cf),
                            forall|k: int| 0 <= k < out@.len() ==> (#[trigger] out@[k]).replies@.len() == 0,
                        decreases rs@.len() - i,
                    {
                        proof {
                            assert(rs@.take(i + 1).drop_last() =~= rs@.take(i as int));
                            assert(rs@.take(i + 1).last() == rs@[i as int]);
                        }
                        let ghost prev = out@;
                        match Comment::parse_comment_renderer(rs[i].get("commentRenderer"), parse_count) {
                            Some(c) => {
                                let ghost h = comment_head(c);
                                out.push(c);
                                proof {
                                    assert(out@.map_values(|x: Comment| comment_head(x)) =~= prev.map_values(
                                        |x: Comment| comment_head(x),
                                    ).push(h));
                                }
                            },
                            None => {},
                        }
                        i = i + 1;
                    }
                    proof {
                        assert(rs@.take(rs@.len() as int) =~= rs@);
                    }
                },
                None => {},
            },
            None => {},
        }
        proof {
            assert forall|cf: spec_fn(Seq<char>) -> Option<i64>|
                agrees(*parse_count, cf) implies out@.map_values(|x: Comment| comment_head(x))
                == match jarray(deref_opt(o)) {
                Some(rs) => replies_of(rs, cf),
                None => Seq::empty(),
            } by {
                if jarray(deref_opt(o)) is None {
                    assert(out@.map_values(|x: Comment| comment_head(x)) =~= Seq::<CommentView>::empty());
                }
            }
        }
        out
    }

    /// Reads the comment threads of a watch-next response.
    fn from_comments_section<F: Fn(&str) -> Option<i64>>(response: &Json, parse_count: &F) -> (r: Vec<
        Comment,
    >)
        requires
            forall|x: &str| parse_count.requires((x,)),
        ensures
            forall|cf: spec_fn(Seq<char>) -> Option<i64>|
                agrees(*parse_count, cf) ==> r@.map_values(|c: Comment| comment_tree(c))
                    == threads_of_response(*response, cf),
            forall|i: int| 0 <= i < r@.len() ==> replies_are_leaves(#[trigger] r@[i]),
    {
        proof {
            reveal_with_fuel(path, 11);
        }
        let mut comments: Vec<Comment> = Vec::new();
        let contents = opt_path(
            Some(response),
            &[
                "contents",
                "twoColumnWatchNextResults",
                "results",
                "results",
                "comments",
                "header",
                "commentsHeaderRenderer",
                "commentSort",
                "sortFilterMenuRenderer",
                "comments",
            ],
        );
        match contents {
            Some(c) => match c.as_array() {
                Some(items) => {
                    let mut i: usize = 0;
                    while i < items.len()
                        invariant
                            forall|x: &str| parse_count.requires((x,)),
                            i <= items@.len(),
                            jarray(deref_opt(contents)) == Some(items@),
                            forall|cf: spec_fn(Seq<char>) -> Option<i64>|
                                agrees(*parse_count, cf) ==> comments@.map_values(
                                    |c: Comment| comment_tree(c),
                                ) == threads_of(items@.take(i as int), cf),
                            forall|k: int|
                                0 <= k < comments@.len() ==> replies_are_leaves(#[trigger] comments@[k]),
                        decreases items@.len() - i,
                    {
                        proof {
                            assert(items@.take(i + 1).drop_last() =~= items@.take(i as int));
                            assert(items@.take(i + 1).last() == items@[i as int]);
                            reveal_with_fuel(path, 4);
                        }
                        let ghost prev = comments@;
                        let thread = items[i].get("commentThreadRenderer");
                        if thread.is_some() {
                            let head = Comment::parse_comment_renderer(
                                opt_path(thread, &["comment", "commentRenderer"]),
                                parse_count,
                            );
                            match head {
                                Some(comment) => {
                                    let replies = Comment::replies_from(
                                        opt_path(thread, &["replies", "commentRepliesRenderer", "comments"]),
                                        parse_count,
                                    );
                                    let full = Comment {
                                        id: comment.id,
                                        author: comment.author,
                                        author_thumbnail: comment.author_thumbnail,
                                        author_id: comment.author_id,
                                        content: comment.content,
                                        published: comment.published,
                                        like_count: comment.like_count,
                                        is_verified: comment.is_verified,
                                        is_verified_author: comment.is_verified_author,
                                        replies,
                                    };
                                    let ghost t = comment_tree(full);
                                    comments.push(full);
                                    proof {
                                        assert(comments@.map_values(|c: Comment| comment_tree(c))
                                            =~= prev.map_values(|c: Comment| comment_tree(c)).push(t));
                                    }
                                },
                                None => {},
                            }
                        }
                        i = i + 1;
                    }
                    proof {
                        assert(items@.take(items@.len() as int) =~= items@);
                    }
                },
                None => {},
            },
            None => {},
        }
        proof {
            assert forall|cf: spec_fn(Seq<char>) -> Option<i64>|
                agrees(*parse_count, cf) implies comments@.map_values(|c: Comment| comment_tree(c))
                == threads_of_response(*response, cf) by {
                if threads_of_response(*response, cf).len() == 0 {
                    assert(comments@.map_values(|c: Comment| comment_tree(c))
                        =~= threads_of_response(*response, cf));
                }
            }
        }
        comments
    }
}

/// Comments response containing comments and continuation token.
#[derive(Debug)]
pub struct CommentsResponse {
    pub comments: Vec<Comment>,
    pub continuation: Option<String>,
}

/// The continuation token of a watch-next response.
pub open spec fn continuation_of(response: Json) -> Option<Seq<char>> {
    let c = path(
        Some(response),
        seq![
            "contents"@,
            "twoColumnWatchNextResults"@,
            "secondaryResults"@,
            "secondaryResults"@,
            "continuations"@,
        ],
    );
    jstr(path(jfirst(c), seq!["nextContinuationData"@, "continuation"@]))
}

impl CommentsResponse {
    /// Create from the next API response; like counts are read with
    /// `parse_count`.
    pub fn from_api_response<F: Fn(&str) -> Option<i64>>(response: Json, parse_count: &F) -> (r:
        CommentsResponse)
        requires
            forall|x: &str| parse_count.requires((x,)),
        ensures
            forall|cf: spec_fn(Seq<char>) -> Option<i64>|
                agrees(*parse_count, cf) ==> r.comments@.map_values(|c: Comment| comment_tree(c))
                    == threads_of_response(response, cf),
            forall|i: int| 0 <= i < r.comments@.len() ==> replies_are_leaves(#[trigger] r.comments@[i]),
            opt_view(r.continuation) == continuation_of(response),
    {
        proof {
            reveal_with_fuel(path, 6);
        }
        let comments = Comment::from_comments_section(&response, parse_count);
        let c = opt_path(
            Some(&response),
            &[
                "contents",
                "twoColumnWatchNextResults",
                "secondaryResults",
                "secondaryResults",
                "continuations",
            ],
        );
        let continuation = opt_string(opt_path(opt_first(c), &["nextContinuationData", "continuation"]));
        CommentsResponse { comments, continuation }
    }
}

/// Continuation token for pagination.
#[derive(Debug, Clone)]
pub struct Continuation {
    pub token: String,
}

/// Which result an item of a search section gives. A video renderer with a
/// `videoId` gives the video of that id; failing a video renderer, a channel
/// renderer with a `channelId` gives the channel of that id; failing both, a
/// playlist renderer with a `playlistId` gives the playlist of that id;
/// failing all three, a hashtag renderer gives a hashtag. The renderer that
/// decides but lacks its id gives nothing, and an item with none of the four
/// renderers gives nothing.
pub proof fn lemma_search_item_kind(item: Json, cf: spec_fn(Seq<char>) -> Option<i64>)
    ensures
        get(item, "videoRenderer"@) matches Some(r) ==> match jstr(get(r, "videoId"@)) {
            Some(id) => search_item_of(item, cf) matches Some(SearchResultView::Video(v)) && v.id == id,
            None => search_item_of(item, cf) is None,
        },
        get(item, "videoRenderer"@) is None ==> (get(item, "channelRenderer"@) matches Some(r)
            ==> match jstr(get(r, "channelId"@)) {
            Some(id) => search_item_of(item, cf) matches Some(SearchResultView::Channel(c)) && c.id == id,
            None => search_item_of(item, cf) is None,
        }),
        get(item, "videoRenderer"@) is None && get(item, "channelRenderer"@) is None ==> (get(
            item,
            "playlistRenderer"@,
        ) matches Some(r) ==> match jstr(get(r, "playlistId"@)) {
            Some(id) => search_item_of(item, cf) matches Some(SearchResultView::Playlist(p)) && p.id == id,
            None => search_item_of(item, cf) is None,
        }),
        get(item, "videoRenderer"@) is None && get(item, "channelRenderer"@) is None && get(
            item,
            "playlistRenderer"@,
        ) is None && get(item, "hashtagTileRenderer"@) is Some ==> search_item_of(item, cf) matches Some(
            SearchResultView::Hashtag(_),
        ),
        get(item, "videoRenderer"@) is None && get(item, "channelRenderer"@) is None && get(
            item,
            "playlistRenderer"@,
        ) is None && get(item, "hashtagTileRenderer"@) is None ==> search_item_of(item, cf) is None,
{
}

/// The results of two runs of items, one after the other, are the results of
/// the first run and then those of the second: each item stands for itself.
pub proof fn lemma_search_items_concat(
    a: Seq<Json>,
    b: Seq<Json>,
    cf: spec_fn(Seq<char>) -> Option<i64>,
)
    ensures
        search_items_of(a + b, cf) == search_items_of(a, cf) + search_items_of(b, cf),
    decreases b.len(),
{
    if b.len() == 0 {
        assert(a + b =~= a);
        assert(search_items_of(a, cf) + search_items_of(b, cf) =~= search_items_of(a, cf));
    } else {
        lemma_search_items_concat(a, b.drop_last(), cf);
        assert((a + b).drop_last() =~= a + b.drop_last());
        assert((a + b).last() == b.last());
        let x = search_items_of(a, cf);
        let y = search_items_of(b.drop_last(), cf);
        match search_item_of(b.last(), cf) {
            Some(r) => {
                assert((x + y).push(r) =~= x + y.push(r));
            },
            None => {},
        }
    }
}

/// A search section gives at most one result per item, in the order of the
/// items; where every item gives a result, the `i`-th result is that of the
/// `i`-th item.
pub proof fn lemma_search_items_in_order(items: Seq<Json>, cf: spec_fn(Seq<char>) -> Option<i64>)
    ensures
        search_items_of(items, cf).len() <= items.len(),
        (forall|i: int| 0 <= i < items.len() ==> #[trigger] search_item_of(items[i], cf) is Some) ==> {
            &&& search_items_of(items, cf).len() == items.len()
            &&& forall|i: int|
                0 <= i < items.len() ==> Some(#[trigger] search_items_of(items, cf)[i]) == search_item_of(
                    items[i],
                    cf,
                )
        },
    decreases items.len(),
{
    if items.len() > 0 {
        let rest = items.drop_last();
        lemma_search_items_in_order(rest, cf);
        if forall|i: int| 0 <= i < items.len() ==> #[trigger] search_item_of(items[i], cf) is Some {
            assert forall|i: int| 0 <= i < rest.len() implies #[trigger] search_item_of(rest[i], cf) is Some by {
                assert(rest[i] == items[i]);
                assert(search_item_of(items[i], cf) is Some);
            }
            assert(search_item_of(items[items.len() - 1], cf) is Some);
            let r = search_items_of(items, cf);
            let rr = search_items_of(rest, cf);
            assert forall|i: int| 0 <= i < items.len() implies Some(#[trigger] r[i]) == search_item_of(
                items[i],
                cf,
            ) by {
                if i < rest.len() {
                    assert(rest[i] == items[i]);
                    assert(r[i] == rr[i]);
                }
            }
        }
    }
}

} // verus!
