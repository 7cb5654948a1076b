//! URL sanitization for YouTube URLs.
//!
//! A user-supplied YouTube URL is parsed with the `url` crate; of what it
//! holds only the path pieces that are ASCII words and, for the URL types
//! that take any, the query parameters that are allowed for that type are
//! kept.

use vstd::prelude::*;
use vstd::utf8::encode_utf8;
use crate::text::{
    chars_of, contains, has_infix, has_prefix, join, join_seq, push_char, push_str, split_char,
    split_seq, starts_with, str_eq, string_of, views, lemma_split_at_sep, lemma_split_nonempty,
    lemma_split_without_sep,
};

verus! {

/// URL types that can be processed.
#[derive(Debug, Clone, Copy, PartialEq, Eq, Structural)]
pub enum UrlType {
    Watch,
    Channel,
    Playlist,
    Search,
    Unknown,
}

/// URL sanitizer for YouTube URLs.
pub struct UrlSanitizer;

/// What the `url` crate reports of a parsed URL: its host, its path and its
/// decoded query pairs, in order.
pub struct UrlParts {
    pub host: Option<String>,
    pub path: String,
    pub query_pairs: Vec<(String, String)>,
}

/// The view of a pair of strings.
pub open spec fn pair_view(p: (String, String)) -> (Seq<char>, Seq<char>) {
    (p.0@, p.1@)
}

/// What parsed URL parts hold, as plain values.
pub open spec fn parts_view(p: UrlParts) -> (Option<Seq<char>>, Seq<char>, Seq<(Seq<char>, Seq<char>)>) {
    (
        match p.host {
            Some(h) => Some(h@),
            None => None,
        },
        p.path@,
        p.query_pairs@.map_values(|q: (String, String)| pair_view(q)),
    )
}

/// The view of optional URL parts.
pub open spec fn opt_parts_view(o: Option<UrlParts>) -> Option<
    (Option<Seq<char>>, Seq<char>, Seq<(Seq<char>, Seq<char>)>),
> {
    match o {
        Some(p) => Some(parts_view(p)),
        None => None,
    }
}

/// What `url::Url::parse` makes of `input`: `None` where it fails, else the
/// host, path and query pairs of the URL.
pub uninterp spec fn url_parsed(input: Seq<char>) -> Option<
    (Option<Seq<char>>, Seq<char>, Seq<(Seq<char>, Seq<char>)>),
>;

/// Parses a URL with `url::Url::parse` and reads its host (`host_str`), its
/// path (`path`) and its query pairs (`query_pairs`).
///
/// The contract names the result: it is `url_parsed` of the input's
/// characters, and nothing more is claimed of it.
#[verifier::external_body]
fn parse_url(input: &str) -> (r: Option<UrlParts>)
    ensures
        opt_parts_view(r) == url_parsed(input@),
{
    match url::Url::parse(input) {
        Ok(u) => Some(
            UrlParts {
                host: u.host_str().map(|h| h.to_string()),
                path: u.path().to_string(),
                query_pairs: u.query_pairs().map(|(k, v)| (k.into_owned(), v.into_owned())).collect(),
            },
        ),
        Err(_) => None,
    }
}

/// The text of the URL that `https://www.youtube.com` becomes once its path
/// is set to `path` and its query to `query`.
pub uninterp spec fn youtube_page_of(path: Seq<char>, query: Option<Seq<char>>) -> Seq<char>;

/// Parses `https://www.youtube.com` with `url::Url::parse` and gives the
/// URL's text, which the crate writes with the root path:
/// `https://www.youtube.com/`.
#[verifier::external_body]
fn youtube_home() -> (r: String)
    ensures
        r@ == "https://www.youtube.com/"@,
{
    url::Url::parse("https://www.youtube.com").map(String::from).unwrap_or_default()
}

/// Parses `https://www.youtube.com` with `url::Url::parse`, sets its path
/// with `Url::set_path` and its query with `Url::set_query`, and gives the
/// URL's text.
///
/// The contract names the result (`youtube_page_of` of the arguments) and
/// claims nothing more of it.
#[verifier::external_body]
fn youtube_page(path: &str, query: Option<&str>) -> (r: String)
    ensures
        r@ == youtube_page_of(
            path@,
            match query {
                Some(q) => Some(q@),
                None => None,
            },
        ),
{
    let mut u = match url::Url::parse("https://www.youtube.com") {
        Ok(u) => u,
        Err(_) => return String::new(),
    };
    u.set_path(path);
    u.set_query(query);
    u.into()
}

/// The text of a sanitized URL: `https://www.youtube.com/` where nothing of
/// the user's URL is kept, else that address with the kept path and query.
pub open spec fn sanitized_url_text(target: (Option<Seq<char>>, Option<Seq<char>>)) -> Seq<char> {
    match target.0 {
        None => "https://www.youtube.com/"@,
        Some(p) => youtube_page_of(p, target.1),
    }
}

/// The type of URL that a first path piece names.
pub open spec fn url_type_of(root: Seq<char>) -> UrlType {
    if root == "watch"@ || root == "w"@ || root == "v"@ || root == "embed"@ || root == "e"@ || root
        == "shorts"@ || root == "clip"@ {
        UrlType::Watch
    } else if root == "channel"@ || root == "c"@ || root == "user"@ || root == "profile"@ || root
        == "attribution_link"@ {
        UrlType::Channel
    } else if root == "playlist"@ || root == "mix"@ {
        UrlType::Playlist
    } else if root == "results"@ || root == "search"@ {
        UrlType::Search
    } else if has_prefix(root, seq!['@']) {
        UrlType::Channel
    } else {
        UrlType::Unknown
    }
}

/// The query parameters that a URL type keeps.
pub open spec fn allowed_params(t: UrlType) -> Seq<Seq<char>> {
    match t {
        UrlType::Watch => seq![
            "v"@,
            "list"@,
            "index"@,
            "playlist"@,
            "t"@,
            "time_continue"@,
            "start"@,
            "end"@,
            "lc"@,
        ],
        UrlType::Channel => seq!["u"@, "user"@, "lb"@],
        UrlType::Playlist => seq!["list"@],
        UrlType::Search => seq!["q"@, "search_query"@, "sp"@],
        UrlType::Unknown => Seq::empty(),
    }
}

/// Whether `c` is an ASCII letter, an ASCII digit, `-` or `_`.
pub open spec fn is_word_char(c: char) -> bool {
    ('a' <= c <= 'z') || ('A' <= c <= 'Z') || ('0' <= c <= '9') || c == '-' || c == '_'
}

/// Whether every character of `s` is a word character.
pub open spec fn is_ascii_word_seq(s: Seq<char>) -> bool {
    forall|i: int| 0 <= i < s.len() ==> is_word_char(#[trigger] s[i])
}

/// Whether a byte stays as it is in a percent-escaped text.
pub open spec fn is_unreserved(b: u8) -> bool {
    (65 <= b <= 90) || (97 <= b <= 122) || (48 <= b <= 57) || b == 45 || b == 95 || b == 46 || b
        == 126
}

/// The upper-case hex digit of a value below 16.
pub open spec fn hex_digit(d: u8) -> char {
    if d < 10 {
        (48 + d) as char
    } else {
        (55 + d) as char
    }
}

/// Bytes percent-escaped: unreserved bytes stay, others become `%XX`.
pub open spec fn escape_bytes(b: Seq<u8>) -> Seq<char>
    decreases b.len(),
{
    if b.len() == 0 {
        Seq::empty()
    } else {
        escape_bytes(b.drop_last()) + if is_unreserved(b.last()) {
            seq![b.last() as char]
        } else {
            seq!['%', hex_digit(b.last() / 16), hex_digit(b.last() % 16)]
        }
    }
}

/// The percent-escaped form of the UTF-8 bytes of `s`.
pub open spec fn escape_text(s: Seq<char>) -> Seq<char> {
    escape_bytes(encode_utf8(s))
}

/// A URL with `https://` put in front where it starts with neither
/// `http://` nor `https://`.
pub open spec fn normalized(url: Seq<char>) -> Seq<char> {
    if has_prefix(url, "http://"@) || has_prefix(url, "https://"@) {
        url
    } else {
        "https://"@ + url
    }
}

/// The path pieces that are kept: those that are ASCII words and not empty.
pub open spec fn crumbs_of(pieces: Seq<Seq<char>>) -> Seq<Seq<char>>
    decreases pieces.len(),
{
    if pieces.len() == 0 {
        Seq::empty()
    } else {
        let rest = crumbs_of(pieces.drop_last());
        if pieces.last().len() > 0 && is_ascii_word_seq(pieces.last()) {
            rest.push(pieces.last())
        } else {
            rest
        }
    }
}

/// The query pairs whose key is allowed, in order, each as `key=value`
/// with both sides percent-escaped.
pub open spec fn kept_pairs(pairs: Seq<(Seq<char>, Seq<char>)>, allowed: Seq<Seq<char>>) -> Seq<
    Seq<char>,
>
    decreases pairs.len(),
{
    if pairs.len() == 0 {
        Seq::empty()
    } else {
        let rest = kept_pairs(pairs.drop_last(), allowed);
        if allowed.contains(pairs.last().0) {
            rest.push(escape_text(pairs.last().0) + "="@ + escape_text(pairs.last().1))
        } else {
            rest
        }
    }
}

/// The path and query that a sanitized URL gets from the parts of the
/// user's URL: nothing where the URL did not parse, has no host, has an
/// empty path or no path piece that is kept; else the kept pieces as the
/// path and, for a known URL type, the allowed pairs as the query (none
/// where no pair is allowed).
pub open spec fn sanitized_target(
    parts: Option<(Option<Seq<char>>, Seq<char>, Seq<(Seq<char>, Seq<char>)>)>,
) -> (Option<Seq<char>>, Option<Seq<char>>) {
    match parts {
        None => (None, None),
        Some((host, path, pairs)) => if host is None || path.len() == 0 {
            (None, None)
        } else {
            let crumbs = crumbs_of(split_seq(path, '/'));
            if crumbs.len() == 0 {
                (None, None)
            } else {
                let t = url_type_of(crumbs[0]);
                let p = Some("/"@ + join_seq(crumbs, "/"@));
                if t == UrlType::Unknown {
                    (p, None)
                } else {
                    let q = join_seq(kept_pairs(pairs, allowed_params(t)), "&"@);
                    (
                        p,
                        if q.len() == 0 {
                            None
                        } else {
                            Some(q)
                        },
                    )
                }
            }
        },
    }
}

/// The path segments of a path, as `Url::path_segments` gives them: the
/// pieces after the leading `/`, or none without one.
pub open spec fn segments_of(path: Seq<char>) -> Option<Seq<Seq<char>>> {
    if path.len() > 0 && path[0] == '/' {
        Some(split_seq(path.drop_first(), '/'))
    } else {
        None
    }
}

/// The value of the first query pair whose key is `key`.
pub open spec fn first_value(pairs: Seq<(Seq<char>, Seq<char>)>, key: Seq<char>) -> Option<Seq<char>>
    decreases pairs.len(),
{
    if pairs.len() == 0 {
        None
    } else if pairs[0].0 == key {
        Some(pairs[0].1)
    } else {
        first_value(pairs.drop_first(), key)
    }
}

/// The second path segment, where there is one.
pub open spec fn second_segment(path: Seq<char>) -> Option<Seq<char>> {
    match segments_of(path) {
        Some(s) => if s.len() >= 2 {
            Some(s[1])
        } else {
            None
        },
        None => None,
    }
}

/// The video id that the parts of a URL name.
pub open spec fn video_id_of(
    parts: Option<(Option<Seq<char>>, Seq<char>, Seq<(Seq<char>, Seq<char>)>)>,
) -> Option<Seq<char>> {
    match parts {
        None => None,
        Some((host, path, pairs)) => if host == Some("youtu.be"@) {
            match segments_of(path) {
                Some(s) => Some(s[0]),
                None => None,
            }
        } else if host is Some && has_infix(host.unwrap(), "youtube.com"@) {
            if has_prefix(path, "/watch"@) {
                first_value(pairs, "v"@)
            } else if (has_prefix(path, "/embed/"@) || has_prefix(path, "/v/"@)) && second_segment(
                path,
            ) is Some {
                second_segment(path)
            } else if has_prefix(path, "/shorts/"@) {
                second_segment(path)
            } else {
                None
            }
        } else {
            None
        },
    }
}

/// The playlist id that the parts of a URL name.
pub open spec fn playlist_id_of(
    parts: Option<(Option<Seq<char>>, Seq<char>, Seq<(Seq<char>, Seq<char>)>)>,
) -> Option<Seq<char>> {
    match parts {
        None => None,
        Some((_, _, pairs)) => first_value(pairs, "list"@),
    }
}

/// The channel id or name that the parts of a URL name.
pub open spec fn channel_id_of(
    parts: Option<(Option<Seq<char>>, Seq<char>, Seq<(Seq<char>, Seq<char>)>)>,
) -> Option<Seq<char>> {
    match parts {
        None => None,
        Some((_, path, _)) => if has_prefix(path, "/c/"@) {
            Some(path.skip(3))
        } else if has_prefix(path, "/user/"@) {
            Some(path.skip(6))
        } else if has_prefix(path, "/@"@) {
            Some(path.skip(2))
        } else if has_prefix(path, "/channel/"@) {
            Some(path.skip(9))
        } else {
            None
        },
    }
}

/// The path and query of a sanitized URL.
pub struct SanitizedTarget {
    pub path: Option<String>,
    pub query: Option<String>,
}


/// Percent-escapes the UTF-8 bytes of `s`: ASCII letters, digits and
/// `-_.~` stay, every other byte becomes `%` and two upper-case hex digits.
pub fn percent_escape(s: &str) -> (r: String)
    ensures
        r@ == escape_text(s@),
{
    let b = s.as_bytes();
    let mut out = String::new();
    let mut i: usize = 0;
    while i < b.len()
        invariant
            b@ == encode_utf8(s@),
            i <= b@.len(),
            out@ == escape_bytes(b@.take(i as int)),
        decreases b@.len() - i,
    {
        let x = b[i];
        proof {
            assert(b@.take(i + 1).drop_last() =~= b@.take(i as int));
            assert(b@.take(i + 1).last() == x);
        }
        let ghost before = out@;
        if (65u8 <= x && x <= 90u8) || (97u8 <= x && x <= 122u8) || (48u8 <= x && x <= 57u8) || x
            == 45u8 || x == 95u8 || x == 46u8 || x == 126u8 {
            push_char(&mut out, x as char);
            proof {
                assert(out@ =~= before + seq![x as char]);
            }
        } else {
            let hi = x / 16;
            let lo = x % 16;
            let c1 = if hi < 10 {
                (48u8 + hi) as char
            } else {
                (55u8 + hi) as char
            };
            let c2 = if lo < 10 {
                (48u8 + lo) as char
            } else {
                (55u8 + lo) as char
            };
            push_char(&mut out, '%');
            push_char(&mut out, c1);
            push_char(&mut out, c2);
            proof {
                assert(out@ =~= before + seq!['%', hex_digit(x / 16), hex_digit(x % 16)]);
            }
        }
        i = i + 1;
    }
    proof {
        assert(b@.take(b@.len() as int) =~= b@);
    }
    out
}

impl UrlSanitizer {
    /// Determine the URL type based on the first path piece.
    pub fn determine_url_type(path_root: &str) -> (r: UrlType)
        ensures
            r == url_type_of(path_root@),
    {
        if str_eq(path_root, "watch") || str_eq(path_root, "w") || str_eq(path_root, "v") || str_eq(
            path_root,
            "embed",
        ) || str_eq(path_root, "e") || str_eq(path_root, "shorts") || str_eq(path_root, "clip") {
            UrlType::Watch
        } else if str_eq(path_root, "channel") || str_eq(path_root, "c") || str_eq(path_root, "user")
            || str_eq(path_root, "profile") || str_eq(path_root, "attribution_link") {
            UrlType::Channel
        } else if str_eq(path_root, "playlist") || str_eq(path_root, "mix") {
            UrlType::Playlist
        } else if str_eq(path_root, "results") || str_eq(path_root, "search") {
            UrlType::Search
        } else if starts_with(path_root, "@") {
            proof {
                reveal_strlit("@");
                assert("@"@ =~= seq!['@']);
            }
            UrlType::Channel
        } else {
            proof {
                reveal_strlit("@");
                assert("@"@ =~= seq!['@']);
            }
            UrlType::Unknown
        }
    }

    /// Get allowed parameters for a URL type.
    pub fn allowed_params_for_type(url_type: UrlType) -> (r: &'static [&'static str])
        ensures
            r@.map_values(|x: &str| x@) == allowed_params(url_type),
    {
        match url_type {
            UrlType::Watch => &["v", "list", "index", "playlist", "t", "time_continue", "start", "end", "lc"],
            UrlType::Channel => &["u", "user", "lb"],
            UrlType::Playlist => &["list"],
            UrlType::Search => &["q", "search_query", "sp"],
            UrlType::Unknown => &[],
        }
    }

    /// Normalize a URL by adding `https://` if missing.
    pub fn normalize_url(url: &str) -> (r: String)
        ensures
            r@ == normalized(url@),
    {
        if starts_with(url, "http://") || starts_with(url, "https://") {
            url.to_owned()
        } else {
            let mut out = String::new();
            push_str(&mut out, "https://");
            push_str(&mut out, url);
            out
        }
    }

    /// Check if a string is an ASCII word (letters, digits, `-` and `_` only).
    pub fn is_ascii_word(s: &str) -> (r: bool)
        ensures
            r == is_ascii_word_seq(s@),
    {
        if !s.is_ascii() {
            proof {
                let k = choose|k: int|
                    0 <= k < s@.len() && !('\0' <= #[trigger] s@[k] <= '\u{7f}');
                assert(!is_word_char(s@[k]));
            }
            return false;
        }
        let b = s.as_bytes();
        proof {
            vstd::utf8::is_ascii_chars_encode_utf8(s@);
        }
        let mut i: usize = 0;
        while i < b.len()
            invariant
                b@.len() == s@.len(),
                i <= b@.len(),
                forall|j: int| 0 <= j < s@.len() ==> s@[j] as u8 == b@[j],
                forall|j: int| 0 <= j < s@.len() ==> '\0' <= #[trigger] s@[j] <= '\u{7f}',
                forall|j: int| 0 <= j < i ==> is_word_char(#[trigger] s@[j]),
            decreases b@.len() - i,
        {
            let x = b[i];
            if !((97u8 <= x && x <= 122u8) || (65u8 <= x && x <= 90u8) || (48u8 <= x && x <= 57u8)
                || x == 45u8 || x == 95u8) {
                proof {
                    assert(!is_word_char(s@[i as int]));
                }
                return false;
            }
            i = i + 1;
        }
        true
    }
}


/// The view of an optional string.
pub open spec fn opt_str_view(o: Option<String>) -> Option<Seq<char>> {
    match o {
        Some(s) => Some(s@),
        None => None,
    }
}

/// Whether `key` is one of `allowed`.
fn is_allowed(allowed: &[&str], key: &str) -> (r: bool)
    ensures
        r == allowed@.map_values(|x: &str| x@).contains(key@),
{
    let ghost names = allowed@.map_values(|x: &str| x@);
    let mut i: usize = 0;
    while i < allowed.len()
        invariant
            i <= allowed@.len(),
            names == allowed@.map_values(|x: &str| x@),
            forall|j: int| 0 <= j < i ==> names[j] != key@,
        decreases allowed@.len() - i,
    {
        if str_eq(allowed[i], key) {
            assert(names[i as int] == key@);
            return true;
        }
        i = i + 1;
    }
    false
}

impl UrlSanitizer {
    /// The path and query that a sanitized URL gets from the parts of the
    /// user's URL.
    pub fn sanitize_parts(parts: &Option<UrlParts>) -> (r: SanitizedTarget)
        ensures
            (opt_str_view(r.path), opt_str_view(r.query)) == sanitized_target(opt_parts_view(*parts)),
    {
        let none = SanitizedTarget { path: None, query: None };
        let p = match parts {
            Some(p) => p,
            None => return none,
        };
        if p.host.is_none() || p.path.as_str().is_empty() {
            return none;
        }
        let pieces = split_char(p.path.as_str(), '/');
        let mut crumbs: Vec<String> = Vec::new();
        let mut i: usize = 0;
        while i < pieces.len()
            invariant
                i <= pieces@.len(),
                views(crumbs@) == crumbs_of(views(pieces@).take(i as int)),
            decreases pieces@.len() - i,
        {
            proof {
                assert(views(pieces@).take(i + 1).drop_last() =~= views(pieces@).take(i as int));
                assert(views(pieces@).take(i + 1).last() == pieces@[i as int]@);
            }
            let piece = pieces[i].as_str();
            if !piece.is_empty() && UrlSanitizer::is_ascii_word(piece) {
                let ghost before = views(crumbs@);
                crumbs.push(pieces[i].clone());
                proof {
                    assert(views(crumbs@) =~= before.push(pieces@[i as int]@));
                }
            }
            i = i + 1;
        }
        proof {
            assert(views(pieces@).take(pieces@.len() as int) =~= views(pieces@));
        }
        if crumbs.len() == 0 {
            return none;
        }
        proof {
            assert(views(crumbs@)[0] == crumbs@[0]@);
        }
        let url_type = UrlSanitizer::determine_url_type(crumbs[0].as_str());
        let mut path = String::new();
        push_str(&mut path, "/");
        let joined = join(&crumbs, "/");
        push_str(&mut path, joined.as_str());
        if url_type == UrlType::Unknown {
            return SanitizedTarget { path: Some(path), query: None };
        }
        let allowed = UrlSanitizer::allowed_params_for_type(url_type);
        let ghost pairs = p.query_pairs@.map_values(|q: (String, String)| pair_view(q));
        let mut kept: Vec<String> = Vec::new();
        let mut j: usize = 0;
        while j < p.query_pairs.len()
            invariant
                j <= p.query_pairs@.len(),
                pairs == p.query_pairs@.map_values(|q: (String, String)| pair_view(q)),
                allowed@.map_values(|x: &str| x@) == allowed_params(url_type),
                views(kept@) == kept_pairs(pairs.take(j as int), allowed_params(url_type)),
            decreases p.query_pairs@.len() - j,
        {
            proof {
                assert(pairs.take(j + 1).drop_last() =~= pairs.take(j as int));
                assert(pairs.take(j + 1).last() == pair_view(p.query_pairs@[j as int]));
            }
            let key = p.query_pairs[j].0.as_str();
            let value = p.query_pairs[j].1.as_str();
            if is_allowed(allowed, key) {
                let mut item = percent_escape(key);
                push_str(&mut item, "=");
                let ev = percent_escape(value);
                push_str(&mut item, ev.as_str());
                let ghost before = views(kept@);
                kept.push(item);
                proof {
                    assert(views(kept@) =~= before.push(item@));
                }
            }
            j = j + 1;
        }
        proof {
            assert(pairs.take(pairs.len() as int) =~= pairs);
        }
        let q = join(&kept, "&");
        if q.as_str().is_empty() {
            SanitizedTarget { path: Some(path), query: None }
        } else {
            SanitizedTarget { path: Some(path), query: Some(q) }
        }
    }

    /// Process a YouTube URL and return the text of a sanitized version:
    /// `https://www.youtube.com` with only the ASCII-word path pieces and
    /// the allowed parameters of the user's URL.
    pub fn process(url: &str) -> (r: String)
        ensures
            r@ == sanitized_url_text(sanitized_target(url_parsed(normalized(url@)))),
    {
        let url = UrlSanitizer::normalize_url(url);
        let parts = parse_url(url.as_str());
        let target = UrlSanitizer::sanitize_parts(&parts);
        let query = match &target.query {
            Some(q) => Some(q.as_str()),
            None => None,
        };
        match &target.path {
            Some(p) => youtube_page(p.as_str(), query),
            None => youtube_home(),
        }
    }
}


/// The path segments of a path, as `Url::path_segments` gives them.
fn segments_from(path: &str) -> (r: Option<Vec<String>>)
    ensures
        match r {
            Some(v) => segments_of(path@) == Some(views(v@)),
            None => segments_of(path@) is None,
        },
{
    let cs = chars_of(path);
    if cs.len() > 0 && cs[0] == '/' {
        let rest = string_of(&cs, 1, cs.len());
        proof {
            assert(rest@ =~= path@.drop_first());
        }
        Some(split_char(rest.as_str(), '/'))
    } else {
        None
    }
}

/// The value of the first query pair whose key is `key`.
fn first_value_from(pairs: &Vec<(String, String)>, key: &str) -> (r: Option<String>)
    ensures
        opt_str_view(r) == first_value(pairs@.map_values(|q: (String, String)| pair_view(q)), key@),
{
    let ghost ps = pairs@.map_values(|q: (String, String)| pair_view(q));
    let mut i: usize = 0;
    proof {
        assert(ps.skip(0) =~= ps);
    }
    while i < pairs.len()
        invariant
            i <= pairs@.len(),
            ps == pairs@.map_values(|q: (String, String)| pair_view(q)),
            first_value(ps.skip(i as int), key@) == first_value(ps, key@),
        decreases pairs@.len() - i,
    {
        proof {
            assert(ps.skip(i as int).drop_first() =~= ps.skip(i + 1));
            assert(ps.skip(i as int)[0] == pair_view(pairs@[i as int]));
        }
        if str_eq(pairs[i].0.as_str(), key) {
            return Some(pairs[i].1.clone());
        }
        i = i + 1;
    }
    None
}

/// The second path segment, where there is one.
fn second_segment_from(path: &str) -> (r: Option<String>)
    ensures
        opt_str_view(r) == second_segment(path@),
{
    match segments_from(path) {
        Some(v) => if v.len() >= 2 {
            proof {
                assert(views(v@)[1] == v@[1]@);
            }
            Some(v[1].clone())
        } else {
            None
        },
        None => None,
    }
}

impl UrlSanitizer {
    /// The video id that the parts of a URL name: the first path segment of
    /// a `youtu.be` URL; on a `youtube.com` host, the `v` parameter of a
    /// `/watch` path, or the second path segment of an `/embed/`, `/v/` or
    /// `/shorts/` path.
    pub fn video_id_from_parts(parts: &Option<UrlParts>) -> (r: Option<String>)
        ensures
            opt_str_view(r) == video_id_of(opt_parts_view(*parts)),
    {
        let p = match parts {
            Some(p) => p,
            None => return None,
        };
        let is_short_host = match &p.host {
            Some(h) => str_eq(h.as_str(), "youtu.be"),
            None => false,
        };
        if is_short_host {
            return match segments_from(p.path.as_str()) {
                Some(v) => {
                    proof {
                        crate::text::lemma_split_nonempty(p.path@.drop_first(), '/');
                        assert(views(v@)[0] == v@[0]@);
                    }
                    Some(v[0].clone())
                },
                None => None,
            };
        }
        let on_youtube = match &p.host {
            Some(h) => contains(h.as_str(), "youtube.com"),
            None => false,
        };
        if on_youtube {
            let path = p.path.as_str();
            if starts_with(path, "/watch") {
                return first_value_from(&p.query_pairs, "v");
            }
            if starts_with(path, "/embed/") || starts_with(path, "/v/") {
                let second = second_segment_from(path);
                if second.is_some() {
                    return second;
                }
            }
            if starts_with(path, "/shorts/") {
                return second_segment_from(path);
            }
        }
        None
    }

    /// Extract the video id from a YouTube URL.
    pub fn extract_video_id(url: &str) -> (r: Option<String>)
        ensures
            opt_str_view(r) == video_id_of(url_parsed(normalized(url@))),
    {
        let url = UrlSanitizer::normalize_url(url);
        let parts = parse_url(url.as_str());
        UrlSanitizer::video_id_from_parts(&parts)
    }

    /// The playlist id that the parts of a URL name: the `list` parameter.
    pub fn playlist_id_from_parts(parts: &Option<UrlParts>) -> (r: Option<String>)
        ensures
            opt_str_view(r) == playlist_id_of(opt_parts_view(*parts)),
    {
        match parts {
            Some(p) => first_value_from(&p.query_pairs, "list"),
            None => None,
        }
    }

    /// Extract the playlist id from a YouTube URL.
    pub fn extract_playlist_id(url: &str) -> (r: Option<String>)
        ensures
            opt_str_view(r) == playlist_id_of(url_parsed(normalized(url@))),
    {
        let url = UrlSanitizer::normalize_url(url);
        let parts = parse_url(url.as_str());
        UrlSanitizer::playlist_id_from_parts(&parts)
    }

    /// The channel id or name that the parts of a URL name: what follows
    /// `/c/`, `/user/`, `/@` or `/channel/` at the start of the path.
    pub fn channel_id_from_parts(parts: &Option<UrlParts>) -> (r: Option<String>)
        ensures
            opt_str_view(r) == channel_id_of(opt_parts_view(*parts)),
    {
        let p = match parts {
            Some(p) => p,
            None => return None,
        };
        let path = p.path.as_str();
        let cs = chars_of(path);
        proof {
            reveal_strlit("/c/");
            reveal_strlit("/user/");
            reveal_strlit("/@");
            reveal_strlit("/channel/");
        }
        if starts_with(path, "/c/") {
            Some(string_of(&cs, 3, cs.len()))
        } else if starts_with(path, "/user/") {
            Some(string_of(&cs, 6, cs.len()))
        } else if starts_with(path, "/@") {
            Some(string_of(&cs, 2, cs.len()))
        } else if starts_with(path, "/channel/") {
            Some(string_of(&cs, 9, cs.len()))
        } else {
            None
        }
    }

    /// Extract the channel id or name from a YouTube URL.
    pub fn extract_channel_id(url: &str) -> (r: Option<String>)
        ensures
            opt_str_view(r) == channel_id_of(url_parsed(normalized(url@))),
    {
        let url = UrlSanitizer::normalize_url(url);
        let parts = parse_url(url.as_str());
        UrlSanitizer::channel_id_from_parts(&parts)
    }
}

/// Every path piece a sanitized URL keeps is a non-empty ASCII word.
pub proof fn lemma_crumbs_are_words(pieces: Seq<Seq<char>>)
    ensures
        forall|i: int|
            0 <= i < crumbs_of(pieces).len() ==> #[trigger] crumbs_of(pieces)[i].len() > 0
                && is_ascii_word_seq(crumbs_of(pieces)[i]),
    decreases pieces.len(),
{
    if pieces.len() > 0 {
        let rest = pieces.drop_last();
        lemma_crumbs_are_words(rest);
        let c = crumbs_of(pieces);
        let cr = crumbs_of(rest);
        assert forall|i: int| 0 <= i < c.len() implies #[trigger] c[i].len() > 0 && is_ascii_word_seq(
            c[i],
        ) by {
            if i < cr.len() {
                assert(c[i] == cr[i]);
            } else {
                assert(c[i] == pieces.last());
            }
        }
    }
}

/// Every query parameter a sanitized URL keeps comes from a pair of the
/// user's URL whose key is allowed, written as its escaped key, `=` and its
/// escaped value.
pub proof fn lemma_kept_pairs_allowed(pairs: Seq<(Seq<char>, Seq<char>)>, allowed: Seq<Seq<char>>)
    ensures
        forall|i: int|
            #![trigger kept_pairs(pairs, allowed)[i]]
            0 <= i < kept_pairs(pairs, allowed).len() ==> exists|j: int|
                #![trigger pairs[j]]
                0 <= j < pairs.len() && allowed.contains(pairs[j].0) && kept_pairs(pairs, allowed)[i]
                    == escape_text(pairs[j].0) + "="@ + escape_text(pairs[j].1),
    decreases pairs.len(),
{
    if pairs.len() > 0 {
        let rest = pairs.drop_last();
        lemma_kept_pairs_allowed(rest, allowed);
        let k = kept_pairs(pairs, allowed);
        let kr = kept_pairs(rest, allowed);
        let last = pairs.last();
        let item = escape_text(last.0) + "="@ + escape_text(last.1);
        if allowed.contains(last.0) {
            assert(k == kr.push(item));
        } else {
            assert(k == kr);
        }
        assert forall|i: int| #![trigger k[i]] 0 <= i < k.len() implies exists|j: int|
            #![trigger pairs[j]]
            0 <= j < pairs.len() && allowed.contains(pairs[j].0) && k[i] == escape_text(pairs[j].0)
                + "="@ + escape_text(pairs[j].1) by {
            if i < kr.len() {
                let j = choose|j: int|
                    #![trigger rest[j]]
                    0 <= j < rest.len() && allowed.contains(rest[j].0) && kr[i] == escape_text(
                        rest[j].0,
                    ) + "="@ + escape_text(rest[j].1);
                assert(rest[j] == pairs[j]);
                assert(k[i] == kr[i]);
            } else {
                let j = pairs.len() - 1;
                assert(pairs[j] == last);
                assert(allowed.contains(last.0));
                assert(k[i] == item);
            }
        }
    }
}

/// A percent-escaped text holds no `&`, `=`, `#`, `/` or `?`: an escaped
/// key or value cannot end a parameter or start another part of the URL.
pub proof fn lemma_escaped_has_no_delimiters(b: Seq<u8>)
    ensures
        forall|i: int|
            0 <= i < escape_bytes(b).len() ==> {
                let c = #[trigger] escape_bytes(b)[i];
                c != '&' && c != '=' && c != '#' && c != '/' && c != '?'
            },
    decreases b.len(),
{
    if b.len() > 0 {
        lemma_escaped_has_no_delimiters(b.drop_last());
        let rest = escape_bytes(b.drop_last());
        let x = b.last();
        let tail = if is_unreserved(x) {
            seq![x as char]
        } else {
            seq!['%', hex_digit(x / 16), hex_digit(x % 16)]
        };
        assert(escape_bytes(b) == rest + tail);
        assert forall|i: int| 0 <= i < escape_bytes(b).len() implies {
            let c = #[trigger] escape_bytes(b)[i];
            c != '&' && c != '=' && c != '#' && c != '/' && c != '?'
        } by {
            if i >= rest.len() {
                let t = tail[i - rest.len()];
                assert(escape_bytes(b)[i] == t);
                if is_unreserved(x) {
                    assert(t as u32 == x as u32);
                } else if i - rest.len() >= 1 {
                    let d = if i - rest.len() == 1 { x / 16 } else { x % 16 };
                    assert(t == hex_digit(d));
                    assert(d < 16);
                    assert(hex_digit(d) as u32 == if d < 10 { 48 + d } else { 55 + d });
                }
            } else {
                assert(escape_bytes(b)[i] == rest[i]);
            }
        }
    }
}

/// Whether no pair before index `i` has the key `key`.
pub open spec fn none_before(pairs: Seq<(Seq<char>, Seq<char>)>, key: Seq<char>, i: int) -> bool {
    forall|k: int| 0 <= k < i ==> #[trigger] pairs[k].0 != key
}

proof fn lemma_first_value_finds_first(pairs: Seq<(Seq<char>, Seq<char>)>, key: Seq<char>)
    ensures
        first_value(pairs, key) is Some <==> exists|i: int| 0 <= i < pairs.len() && #[trigger] pairs[i].0 == key,
        forall|i: int|
            0 <= i < pairs.len() && #[trigger] pairs[i].0 == key && none_before(pairs, key, i)
                ==> first_value(pairs, key) == Some(pairs[i].1),
    decreases pairs.len(),
{
    if pairs.len() > 0 {
        let rest = pairs.drop_first();
        lemma_first_value_finds_first(rest, key);
        if pairs[0].0 != key {
            assert((exists|i: int| 0 <= i < pairs.len() && #[trigger] pairs[i].0 == key) ==> exists|i: int|
                0 <= i < rest.len() && #[trigger] rest[i].0 == key) by {
                if exists|i: int| 0 <= i < pairs.len() && #[trigger] pairs[i].0 == key {
                    let i = choose|i: int| 0 <= i < pairs.len() && #[trigger] pairs[i].0 == key;
                    assert(rest[i - 1] == pairs[i]);
                }
            }
            assert((exists|i: int| 0 <= i < rest.len() && #[trigger] rest[i].0 == key) ==> exists|i: int|
                0 <= i < pairs.len() && #[trigger] pairs[i].0 == key) by {
                if exists|i: int| 0 <= i < rest.len() && #[trigger] rest[i].0 == key {
                    let i = choose|i: int| 0 <= i < rest.len() && #[trigger] rest[i].0 == key;
                    assert(pairs[i + 1] == rest[i]);
                }
            }
            assert forall|i: int|
                0 <= i < pairs.len() && #[trigger] pairs[i].0 == key && none_before(pairs, key, i)
                    implies first_value(pairs, key) == Some(pairs[i].1) by {
                assert(i != 0);
                assert(rest[i - 1] == pairs[i]);
                assert forall|k: int| 0 <= k < i - 1 implies #[trigger] rest[k].0 != key by {
                    assert(rest[k] == pairs[k + 1]);
                }
            }
        } else {
            assert forall|i: int|
                0 <= i < pairs.len() && #[trigger] pairs[i].0 == key && none_before(pairs, key, i)
                    implies first_value(pairs, key) == Some(pairs[i].1) by {
                if i > 0 {
                    assert(pairs[0].0 != key);
                }
            }
        }
    }
}

/// The playlist id of a URL is the value of its first `list` query pair,
/// wherever that pair stands among the pairs; a URL without a `list` pair,
/// or one that did not parse, names no playlist.
pub proof fn lemma_playlist_id_is_first_list_pair(
    host: Option<Seq<char>>,
    path: Seq<char>,
    pairs: Seq<(Seq<char>, Seq<char>)>,
)
    ensures
        playlist_id_of(Some((host, path, pairs))) is Some <==> exists|i: int|
            0 <= i < pairs.len() && #[trigger] pairs[i].0 == "list"@,
        forall|i: int|
            0 <= i < pairs.len() && #[trigger] pairs[i].0 == "list"@ && none_before(pairs, "list"@, i)
                ==> playlist_id_of(Some((host, path, pairs))) == Some(pairs[i].1),
        playlist_id_of(None) is None,
{
    lemma_first_value_finds_first(pairs, "list"@);
}

/// On any host whose name holds `youtube.com` (such as `youtube.com`,
/// `www.youtube.com`, `m.youtube.com` or `music.youtube.com`), a path that
/// starts with `/watch` names the video of the first `v` query pair, and no
/// video where there is no `v` pair.
pub proof fn lemma_watch_video_id_is_first_v_pair(
    host: Seq<char>,
    path: Seq<char>,
    pairs: Seq<(Seq<char>, Seq<char>)>,
)
    requires
        has_infix(host, "youtube.com"@),
        has_prefix(path, "/watch"@),
    ensures
        video_id_of(Some((Some(host), path, pairs))) is Some <==> exists|i: int|
            0 <= i < pairs.len() && #[trigger] pairs[i].0 == "v"@,
        forall|i: int|
            0 <= i < pairs.len() && #[trigger] pairs[i].0 == "v"@ && none_before(pairs, "v"@, i)
                ==> video_id_of(Some((Some(host), path, pairs))) == Some(pairs[i].1),
{
    reveal_strlit("youtube.com");
    reveal_strlit("youtu.be");
    let i = choose|i: int| 0 <= i <= host.len() && #[trigger] has_prefix(host.skip(i), "youtube.com"@);
    assert(host.len() >= 11);
    assert("youtu.be"@.len() == 8);
    assert(host != "youtu.be"@);
    lemma_first_value_finds_first(pairs, "v"@);
}

/// The query parameters that a watch URL keeps are exactly `v`, `list`,
/// `index`, `playlist`, `t`, `time_continue`, `start`, `end` and `lc`.
pub proof fn lemma_watch_params(key: Seq<char>)
    ensures
        allowed_params(UrlType::Watch).contains(key) <==> (key == "v"@ || key == "list"@ || key
            == "index"@ || key == "playlist"@ || key == "t"@ || key == "time_continue"@ || key
            == "start"@ || key == "end"@ || key == "lc"@),
{
    let a = allowed_params(UrlType::Watch);
    if a.contains(key) {
        let i = choose|i: int| 0 <= i < a.len() && a[i] == key;
        assert(i == 0 || i == 1 || i == 2 || i == 3 || i == 4 || i == 5 || i == 6 || i == 7 || i == 8);
    }
    if key == "v"@ { assert(a[0] == key); }
    if key == "list"@ { assert(a[1] == key); }
    if key == "index"@ { assert(a[2] == key); }
    if key == "playlist"@ { assert(a[3] == key); }
    if key == "t"@ { assert(a[4] == key); }
    if key == "time_continue"@ { assert(a[5] == key); }
    if key == "start"@ { assert(a[6] == key); }
    if key == "end"@ { assert(a[7] == key); }
    if key == "lc"@ { assert(a[8] == key); }
}

proof fn lemma_join_holds_piece(pieces: Seq<Seq<char>>, sep: Seq<char>, k: int)
    requires
        0 <= k < pieces.len(),
    ensures
        has_infix(join_seq(pieces, sep), pieces[k]),
    decreases pieces.len(),
{
    let j = join_seq(pieces, sep);
    let p = pieces[k];
    if pieces.len() == 1 {
        assert(j.skip(0).take(p.len() as int) =~= p);
        assert(has_prefix(j.skip(0), p));
    } else {
        let a = join_seq(pieces.drop_last(), sep);
        assert(j == a + sep + pieces.last());
        if k == pieces.len() - 1 {
            let i = (a.len() + sep.len()) as int;
            assert(j.skip(i).take(p.len() as int) =~= p);
            assert(has_prefix(j.skip(i), p));
        } else {
            lemma_join_holds_piece(pieces.drop_last(), sep, k);
            assert(pieces.drop_last()[k] == p);
            let i = choose|i: int| 0 <= i <= a.len() && #[trigger] has_prefix(a.skip(i), p);
            assert(j.skip(i).take(p.len() as int) =~= a.skip(i).take(p.len() as int));
            assert(has_prefix(j.skip(i), p));
        }
    }
}

proof fn lemma_kept_pairs_keep_allowed(pairs: Seq<(Seq<char>, Seq<char>)>, allowed: Seq<Seq<char>>, j: int)
    requires
        0 <= j < pairs.len(),
        allowed.contains(pairs[j].0),
    ensures
        kept_pairs(pairs, allowed).contains(escape_text(pairs[j].0) + "="@ + escape_text(pairs[j].1)),
    decreases pairs.len(),
{
    let item = escape_text(pairs[j].0) + "="@ + escape_text(pairs[j].1);
    let k = kept_pairs(pairs, allowed);
    if j == pairs.len() - 1 {
        assert(k[k.len() - 1] == item);
    } else {
        let rest = pairs.drop_last();
        assert(rest[j] == pairs[j]);
        lemma_kept_pairs_keep_allowed(rest, allowed, j);
        let kr = kept_pairs(rest, allowed);
        let m = choose|m: int| 0 <= m < kr.len() && kr[m] == item;
        assert(k[m] == kr[m]);
    }
}

/// A sanitized watch URL keeps each query pair of the user's URL whose key
/// is one of the watch parameters (a `list` pair among them): its escaped
/// key, `=` and escaped value stand in the query.
pub proof fn lemma_watch_query_keeps_pair(
    host: Seq<char>,
    path: Seq<char>,
    pairs: Seq<(Seq<char>, Seq<char>)>,
    j: int,
)
    requires
        path.len() > 0,
        crumbs_of(split_seq(path, '/')).len() > 0,
        url_type_of(crumbs_of(split_seq(path, '/'))[0]) == UrlType::Watch,
        0 <= j < pairs.len(),
        pairs[j].0 == "v"@ || pairs[j].0 == "list"@ || pairs[j].0 == "index"@ || pairs[j].0
            == "playlist"@ || pairs[j].0 == "t"@ || pairs[j].0 == "time_continue"@ || pairs[j].0
            == "start"@ || pairs[j].0 == "end"@ || pairs[j].0 == "lc"@,
    ensures
        sanitized_target(Some((Some(host), path, pairs))).1 matches Some(q) && has_infix(
            q,
            escape_text(pairs[j].0) + "="@ + escape_text(pairs[j].1),
        ),
{
    reveal_strlit("=");
    let allowed = allowed_params(UrlType::Watch);
    lemma_watch_params(pairs[j].0);
    lemma_kept_pairs_keep_allowed(pairs, allowed, j);
    let kept = kept_pairs(pairs, allowed);
    let item = escape_text(pairs[j].0) + "="@ + escape_text(pairs[j].1);
    let m = choose|m: int| 0 <= m < kept.len() && kept[m] == item;
    lemma_join_holds_piece(kept, "&"@, m);
    let q = join_seq(kept, "&"@);
    let i = choose|i: int| 0 <= i <= q.len() && #[trigger] has_prefix(q.skip(i), item);
    assert(item.len() >= 1);
    assert(q.len() > 0);
}

proof fn lemma_differs_at(s: Seq<char>, p: Seq<char>, k: int)
    requires
        0 <= k < p.len(),
        k < s.len(),
        s[k] != p[k],
    ensures
        !has_prefix(s, p),
{
    if has_prefix(s, p) {
        assert(s.take(p.len() as int)[k] == s[k]);
    }
}

proof fn lemma_first_segment(id: Seq<char>, rest: Seq<char>)
    requires
        !id.contains('/'),
        rest.len() == 0 || rest[0] == '/',
    ensures
        split_seq(id + rest, '/').len() >= 1,
        split_seq(id + rest, '/')[0] == id,
{
    lemma_split_without_sep(id, '/');
    if rest.len() == 0 {
        assert(id + rest =~= id);
    } else {
        let r = rest.drop_first();
        assert(id + rest =~= id.push('/') + r);
        lemma_split_at_sep(id, r, '/');
        lemma_split_nonempty(r, '/');
    }
}

proof fn lemma_second_segment(word: Seq<char>, id: Seq<char>, rest: Seq<char>)
    requires
        !word.contains('/'),
        !id.contains('/'),
        rest.len() == 0 || rest[0] == '/',
    ensures
        second_segment(seq!['/'] + word.push('/') + id + rest) == Some(id),
{
    let path = seq!['/'] + word.push('/') + id + rest;
    lemma_split_without_sep(word, '/');
    lemma_first_segment(id, rest);
    assert(path.drop_first() =~= word.push('/') + (id + rest));
    lemma_split_at_sep(word, id + rest, '/');
    assert(path[0] == '/');
}

/// The video of a `youtu.be` URL is its first path segment; on a host whose
/// name holds `youtube.com`, the video of an `/embed/`, `/v/` or `/shorts/`
/// path is the segment that follows, whatever comes after it from the next
/// `/` on.
pub proof fn lemma_path_video_id(
    host: Seq<char>,
    id: Seq<char>,
    rest: Seq<char>,
    pairs: Seq<(Seq<char>, Seq<char>)>,
)
    requires
        !id.contains('/'),
        rest.len() == 0 || rest[0] == '/',
    ensures
        video_id_of(Some((Some("youtu.be"@), "/"@ + id + rest, pairs))) == Some(id),
        has_infix(host, "youtube.com"@) ==> video_id_of(
            Some((Some(host), "/embed/"@ + id + rest, pairs)),
        ) == Some(id),
        has_infix(host, "youtube.com"@) ==> video_id_of(Some((Some(host), "/v/"@ + id + rest, pairs)))
            == Some(id),
        has_infix(host, "youtube.com"@) ==> video_id_of(
            Some((Some(host), "/shorts/"@ + id + rest, pairs)),
        ) == Some(id),
{
    reveal_strlit("/");
    reveal_strlit("/embed/");
    reveal_strlit("/v/");
    reveal_strlit("/shorts/");
    reveal_strlit("/watch");
    reveal_strlit("youtube.com");
    reveal_strlit("youtu.be");
    let short_path = "/"@ + id + rest;
    lemma_first_segment(id, rest);
    assert(short_path.drop_first() =~= id + rest);
    assert(short_path[0] == '/');
    if has_infix(host, "youtube.com"@) {
        let i = choose|i: int| 0 <= i <= host.len() && #[trigger] has_prefix(host.skip(i), "youtube.com"@);
        assert(host.len() >= 11);
        assert(host != "youtu.be"@);
        let embed = seq!['e', 'm', 'b', 'e', 'd'];
        let v = seq!['v'];
        let shorts = seq!['s', 'h', 'o', 'r', 't', 's'];
        assert(!embed.contains('/')) by {
            if embed.contains('/') {
                let k = choose|k: int| 0 <= k < embed.len() && embed[k] == '/';
                assert(k == 0 || k == 1 || k == 2 || k == 3 || k == 4);
            }
        }
        assert(!v.contains('/')) by {
            if v.contains('/') {
                let k = choose|k: int| 0 <= k < v.len() && v[k] == '/';
                assert(k == 0);
            }
        }
        assert(!shorts.contains('/')) by {
            if shorts.contains('/') {
                let k = choose|k: int| 0 <= k < shorts.len() && shorts[k] == '/';
                assert(k == 0 || k == 1 || k == 2 || k == 3 || k == 4 || k == 5);
            }
        }
        let pe = "/embed/"@ + id + rest;
        assert(pe =~= seq!['/'] + embed.push('/') + id + rest);
        lemma_second_segment(embed, id, rest);
        lemma_differs_at(pe, "/watch"@, 1);
        assert(pe.take(7) =~= "/embed/"@);
        let pv = "/v/"@ + id + rest;
        assert(pv =~= seq!['/'] + v.push('/') + id + rest);
        lemma_second_segment(v, id, rest);
        lemma_differs_at(pv, "/watch"@, 1);
        assert(pv.take(3) =~= "/v/"@);
        let ps = "/shorts/"@ + id + rest;
        assert(ps =~= seq!['/'] + shorts.push('/') + id + rest);
        lemma_second_segment(shorts, id, rest);
        lemma_differs_at(ps, "/watch"@, 1);
        lemma_differs_at(ps, "/embed/"@, 1);
        lemma_differs_at(ps, "/v/"@, 1);
        assert(ps.take(8) =~= "/shorts/"@);
    }
}

/// The channel of a URL is what follows `/c/`, `/user/`, `/@` or
/// `/channel/` at the start of its path, and a path that starts with none of
/// them names no channel.
pub proof fn lemma_channel_id_after_prefix(
    host: Option<Seq<char>>,
    path: Seq<char>,
    pairs: Seq<(Seq<char>, Seq<char>)>,
    id: Seq<char>,
)
    ensures
        channel_id_of(Some((host, "/c/"@ + id, pairs))) == Some(id),
        channel_id_of(Some((host, "/user/"@ + id, pairs))) == Some(id),
        channel_id_of(Some((host, "/@"@ + id, pairs))) == Some(id),
        channel_id_of(Some((host, "/channel/"@ + id, pairs))) == Some(id),
        !(has_prefix(path, "/c/"@) || has_prefix(path, "/user/"@) || has_prefix(path, "/@"@)
            || has_prefix(path, "/channel/"@)) ==> channel_id_of(Some((host, path, pairs))) is None,
{
    reveal_strlit("/c/");
    reveal_strlit("/user/");
    reveal_strlit("/@");
    reveal_strlit("/channel/");
    let pc = "/c/"@ + id;
    assert(pc.take(3) =~= "/c/"@);
    assert(pc.skip(3) =~= id);
    let pu = "/user/"@ + id;
    lemma_differs_at(pu, "/c/"@, 1);
    assert(pu.take(6) =~= "/user/"@);
    assert(pu.skip(6) =~= id);
    let pa = "/@"@ + id;
    lemma_differs_at(pa, "/c/"@, 1);
    lemma_differs_at(pa, "/user/"@, 1);
    assert(pa.take(2) =~= "/@"@);
    assert(pa.skip(2) =~= id);
    let ph = "/channel/"@ + id;
    lemma_differs_at(ph, "/c/"@, 2);
    lemma_differs_at(ph, "/user/"@, 1);
    lemma_differs_at(ph, "/@"@, 1);
    assert(ph.take(9) =~= "/channel/"@);
    assert(ph.skip(9) =~= id);
}

/// The first path piece decides the URL type: `watch`, `w`, `v`, `embed`,
/// `e`, `shorts` and `clip` are watch pages; `channel`, `c`, `user`,
/// `profile`, `attribution_link` and any piece that starts with `@` are
/// channel pages; `playlist` and `mix` are playlists; `results` and `search`
/// are searches; any other piece is of no known type.
pub proof fn lemma_url_types(root: Seq<char>)
    ensures
        (root == "watch"@ || root == "w"@ || root == "v"@ || root == "embed"@ || root == "e"@
            || root == "shorts"@ || root == "clip"@) ==> url_type_of(root) == UrlType::Watch,
        (root == "channel"@ || root == "c"@ || root == "user"@ || root == "profile"@ || root
            == "attribution_link"@ || (root.len() > 0 && root[0] == '@')) ==> url_type_of(root)
            == UrlType::Channel,
        (root == "playlist"@ || root == "mix"@) ==> url_type_of(root) == UrlType::Playlist,
        (root == "results"@ || root == "search"@) ==> url_type_of(root) == UrlType::Search,
        !(root == "watch"@ || root == "w"@ || root == "v"@ || root == "embed"@ || root == "e"@
            || root == "shorts"@ || root == "clip"@ || root == "channel"@ || root == "c"@ || root
            == "user"@ || root == "profile"@ || root == "attribution_link"@ || root == "playlist"@
            || root == "mix"@ || root == "results"@ || root == "search"@ || (root.len() > 0 && root[0]
            == '@')) ==> url_type_of(root) == UrlType::Unknown,
{
    reveal_strlit("watch");
    reveal_strlit("w");
    reveal_strlit("v");
    reveal_strlit("embed");
    reveal_strlit("e");
    reveal_strlit("shorts");
    reveal_strlit("clip");
    reveal_strlit("channel");
    reveal_strlit("c");
    reveal_strlit("user");
    reveal_strlit("profile");
    reveal_strlit("attribution_link");
    reveal_strlit("playlist");
    reveal_strlit("mix");
    reveal_strlit("results");
    reveal_strlit("search");
    reveal_strlit("@");
    assert("watch"@.len() == 5 && "watch"@[0] == 'w');
    assert("w"@.len() == 1 && "w"@[0] == 'w');
    assert("v"@.len() == 1 && "v"@[0] == 'v');
    assert("embed"@.len() == 5 && "embed"@[0] == 'e');
    assert("e"@.len() == 1 && "e"@[0] == 'e');
    assert("shorts"@.len() == 6 && "shorts"@[0] == 's' && "shorts"@[1] == 'h');
    assert("clip"@.len() == 4 && "clip"@[0] == 'c');
    assert("channel"@.len() == 7 && "channel"@[0] == 'c');
    assert("c"@.len() == 1 && "c"@[0] == 'c');
    assert("user"@.len() == 4 && "user"@[0] == 'u');
    assert("profile"@.len() == 7 && "profile"@[0] == 'p');
    assert("attribution_link"@.len() == 16 && "attribution_link"@[0] == 'a');
    assert("playlist"@.len() == 8 && "playlist"@[0] == 'p');
    assert("mix"@.len() == 3 && "mix"@[0] == 'm');
    assert("results"@.len() == 7 && "results"@[0] == 'r');
    assert("search"@.len() == 6 && "search"@[0] == 's' && "search"@[1] == 'e');
    assert("@"@.len() == 1 && "@"@[0] == '@');
    if root.len() > 0 && root[0] == '@' {
        assert(root.take(1) =~= seq!['@']);
    }
    if has_prefix(root, seq!['@']) {
        assert(root.take(1)[0] == root[0]);
    }
}

} // verus!
