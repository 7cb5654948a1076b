//! The rules of the media proxy: which headers pass in each direction, and
//! the upstream address of each proxied asset.

use vstd::prelude::*;
use crate::text::{contains, has_infix, join, join_seq, push_str, str_eq, views};

verus! {

/// The request headers that are passed on upstream.
pub open spec fn request_whitelist() -> Seq<Seq<char>> {
    seq![
        "accept"@,
        "accept-language"@,
        "cache-control"@,
        "content-length"@,
        "content-type"@,
        "forwarded"@,
        "from"@,
        "host"@,
        "if-match"@,
        "if-modified-since"@,
        "if-none-match"@,
        "if-range"@,
        "origin"@,
        "pragma"@,
        "referer"@,
        "user-agent"@,
        "x-forwarded-for"@,
        "x-forwarded-host"@,
    ]
}

/// The response headers that are not passed back to the client.
pub open spec fn response_blacklist() -> Seq<Seq<char>> {
    seq![
        "connection"@,
        "content-encoding"@,
        "content-length"@,
        "content-security-policy"@,
        "strict-transport-security"@,
        "transfer-encoding"@,
        "www-authenticate"@,
    ]
}

fn member(list: &[&str], name: &str) -> (r: bool)
    ensures
        r == list@.map_values(|x: &str| x@).contains(name@),
{
    let ghost l = list@.map_values(|x: &str| x@);
    let mut i: usize = 0;
    while i < list.len()
        invariant
            l == list@.map_values(|x: &str| x@),
            i <= list@.len(),
            forall|j: int| 0 <= j < i ==> l[j] != name@,
        decreases list@.len() - i,
    {
        if str_eq(list[i], name) {
            assert(l[i as int] == name@);
            return true;
        }
        i = i + 1;
    }
    false
}

/// Whether a request header named `name` is passed on upstream.
pub fn request_header_allowed(name: &str) -> (r: bool)
    ensures
        r == request_whitelist().contains(name@),
{
    let list: &[&str] = &[
        "accept",
        "accept-language",
        "cache-control",
        "content-length",
        "content-type",
        "forwarded",
        "from",
        "host",
        "if-match",
        "if-modified-since",
        "if-none-match",
        "if-range",
        "origin",
        "pragma",
        "referer",
        "user-agent",
        "x-forwarded-for",
        "x-forwarded-host",
    ];
    assert(list@.map_values(|x: &str| x@) =~= request_whitelist());
    member(list, name)
}

/// Whether a response header named `name` is passed back to the client.
pub fn response_header_kept(name: &str) -> (r: bool)
    ensures
        r == !response_blacklist().contains(name@),
{
    let list: &[&str] = &[
        "connection",
        "content-encoding",
        "content-length",
        "content-security-policy",
        "strict-transport-security",
        "transfer-encoding",
        "www-authenticate",
    ];
    assert(list@.map_values(|x: &str| x@) =~= response_blacklist());
    !member(list, name)
}

fn prefixed(prefix: &str, rest: &str) -> (r: String)
    ensures
        r@ == prefix@ + rest@,
{
    let mut r = prefix.to_owned();
    push_str(&mut r, rest);
    r
}

/// The upstream address of a channel image.
pub fn ggpht_url(path: &str) -> (r: String)
    ensures
        r@ == "https://yt3.ggpht.com/"@ + path@,
{
    prefixed("https://yt3.ggpht.com/", path)
}

/// The upstream address of a video thumbnail.
pub fn video_thumbnail_url(id: &str, name: &str) -> (r: String)
    ensures
        r@ == "https://i.ytimg.com/vi/"@ + id@ + "/"@ + name@,
{
    let mut r = prefixed("https://i.ytimg.com/vi/", id);
    push_str(&mut r, "/");
    push_str(&mut r, name);
    r
}

/// The upstream address of an image of the old YouTube site.
pub fn yts_image_url(name: &str) -> (r: String)
    ensures
        r@ == "https://www.youtube.com/yts/img/"@ + name@,
{
    prefixed("https://www.youtube.com/yts/img/", name)
}

/// The text `key=value` of a query parameter.
pub open spec fn param_text(p: (Seq<char>, Seq<char>)) -> Seq<char> {
    p.0 + "="@ + p.1
}

/// The upstream address of a storyboard image; the query parameters are
/// passed on as they are, joined with `&`, in the order given.
pub fn storyboard_url(id: &str, storyboard: &str, index: &str, query: &Vec<(String, String)>) -> (r: String)
    ensures
        r@ == "https://i.ytimg.com/sb/"@ + id@ + "/"@ + storyboard@ + "/"@ + index@ + "/"@ + "L1"@
            + "?"@ + join_seq(
            query@.map_values(|p: (String, String)| param_text((p.0@, p.1@))),
            "&"@,
        ),
{
    let mut params: Vec<String> = Vec::new();
    let mut i: usize = 0;
    while i < query.len()
        invariant
            i <= query@.len(),
            views(params@) == query@.take(i as int).map_values(
                |p: (String, String)| param_text((p.0@, p.1@)),
            ),
        decreases query@.len() - i,
    {
        let mut t = query[i].0.clone();
        push_str(&mut t, "=");
        push_str(&mut t, query[i].1.as_str());
        let ghost before = params@;
        params.push(t);
        assert(views(params@) =~= views(before).push(param_text((query@[i as int].0@, query@[i as int].1@))));
        assert(query@.take(i + 1) =~= query@.take(i as int).push(query@[i as int]));
        assert(views(params@) =~= query@.take(i + 1).map_values(
            |p: (String, String)| param_text((p.0@, p.1@)),
        ));
        i = i + 1;
    }
    assert(query@.take(query@.len() as int) =~= query@);
    let mut r = prefixed("https://i.ytimg.com/sb/", id);
    push_str(&mut r, "/");
    push_str(&mut r, storyboard);
    push_str(&mut r, "/");
    push_str(&mut r, index);
    push_str(&mut r, "/");
    push_str(&mut r, "L1");
    push_str(&mut r, "?");
    let q = join(&params, "&");
    push_str(&mut r, q.as_str());
    r
}

/// The upstream address of a video stream: on the host the client named
/// where that host is a Google video host, else on the default host.
pub open spec fn videoplayback_target(path: Seq<char>, host: Option<Seq<char>>) -> Seq<char> {
    match host {
        Some(h) => if has_infix(h, "googlevideo.com"@) || has_infix(h, "c.youtube.com"@) {
            "https://"@ + h + "/videoplayback/"@ + path
        } else {
            "https://r3---sn-4g5e6l7e.googlevideo.com/videoplayback/"@ + path
        },
        None => "https://r3---sn-4g5e6l7e.googlevideo.com/videoplayback/"@ + path,
    }
}

/// The upstream address of a video stream.
pub fn videoplayback_url(path: &str, host: Option<&str>) -> (r: String)
    ensures
        r@ == videoplayback_target(
            path@,
            match host {
                Some(h) => Some(h@),
                None => None,
            },
        ),
{
    match host {
        Some(h) => {
            if contains(h, "googlevideo.com") || contains(h, "c.youtube.com") {
                let mut r = prefixed("https://", h);
                push_str(&mut r, "/videoplayback/");
                push_str(&mut r, path);
                return r;
            }
        },
        None => {},
    }
    prefixed("https://r3---sn-4g5e6l7e.googlevideo.com/videoplayback/", path)
}

/// The address of the image host of a subdomain pool.
pub fn subdomain_url(subdomain: &str) -> (r: String)
    ensures
        r@ == "https://"@ + subdomain@ + ".ytimg.com"@,
{
    let mut r = prefixed("https://", subdomain);
    push_str(&mut r, ".ytimg.com");
    r
}

} // verus!
