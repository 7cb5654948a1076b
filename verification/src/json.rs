//! A JSON value type of the library and the lookups that the extractors use.
//!
//! `Json` holds what the extractors read of a JSON document as plain values.
//! Objects keep their entries in order; a lookup of a key gives the value of
//! the last entry with that key, as a map that was filled entry by entry.

use vstd::prelude::*;
use crate::text::str_eq;

verus! {

/// A JSON value.
#[derive(Debug)]
pub enum Json {
    Null,
    Bool(bool),
    /// A number that fits in an `i64`.
    Int(i64),
    /// Any other number (a fraction, or an integer above `i64::MAX`).
    OtherNumber,
    Str(String),
    Array(Vec<Json>),
    Object(Vec<(String, Json)>),
}

/// The value of the last entry of `entries` whose key is `key`.
pub open spec fn entries_get(entries: Seq<(String, Json)>, key: Seq<char>) -> Option<Json>
    decreases entries.len(),
{
    if entries.len() == 0 {
        None
    } else if entries.last().0@ == key {
        Some(entries.last().1)
    } else {
        entries_get(entries.drop_last(), key)
    }
}

/// The value under `key` of an object; `None` for any other value.
pub open spec fn get(j: Json, key: Seq<char>) -> Option<Json> {
    match j {
        Json::Object(entries) => entries_get(entries@, key),
        _ => None,
    }
}

/// `get` lifted to an optional value.
pub open spec fn jget(o: Option<Json>, key: Seq<char>) -> Option<Json> {
    match o {
        Some(j) => get(j, key),
        None => None,
    }
}

/// The elements of an array.
pub open spec fn jarray(o: Option<Json>) -> Option<Seq<Json>> {
    match o {
        Some(Json::Array(v)) => Some(v@),
        _ => None,
    }
}

/// The first element of an array, if it has one.
pub open spec fn jfirst(o: Option<Json>) -> Option<Json> {
    match o {
        Some(Json::Array(v)) => if v@.len() > 0 {
            Some(v@[0])
        } else {
            None
        },
        _ => None,
    }
}

/// The element at `i` of an array, if it has one.
pub open spec fn jat(o: Option<Json>, i: int) -> Option<Json> {
    match o {
        Some(Json::Array(v)) => if 0 <= i < v@.len() {
            Some(v@[i])
        } else {
            None
        },
        _ => None,
    }
}

/// The characters of a string value.
pub open spec fn jstr(o: Option<Json>) -> Option<Seq<char>> {
    match o {
        Some(Json::Str(s)) => Some(s@),
        _ => None,
    }
}

/// The value of a number that fits in an `i64`.
pub open spec fn jint(o: Option<Json>) -> Option<i64> {
    match o {
        Some(Json::Int(n)) => Some(n),
        _ => None,
    }
}

/// The value of a boolean.
pub open spec fn jbool(o: Option<Json>) -> Option<bool> {
    match o {
        Some(Json::Bool(b)) => Some(b),
        _ => None,
    }
}

/// The first of two optional values that is present.
pub open spec fn jor(a: Option<Json>, b: Option<Json>) -> Option<Json> {
    if a is Some {
        a
    } else {
        b
    }
}

/// The characters of a string value, or nothing.
pub open spec fn text_or_empty(o: Option<Json>) -> Seq<char> {
    match jstr(o) {
        Some(s) => s,
        None => Seq::empty(),
    }
}

/// Follows `keys` one after another from `o`.
pub open spec fn path(o: Option<Json>, keys: Seq<Seq<char>>) -> Option<Json>
    decreases keys.len(),
{
    if keys.len() == 0 {
        o
    } else {
        jget(path(o, keys.drop_last()), keys.last())
    }
}

/// The value behind an optional reference.
pub open spec fn deref_opt(o: Option<&Json>) -> Option<Json> {
    match o {
        Some(j) => Some(*j),
        None => None,
    }
}

/// The view of an optional string.
pub open spec fn opt_view(o: Option<String>) -> Option<Seq<char>> {
    match o {
        Some(s) => Some(s@),
        None => None,
    }
}

impl Json {
    /// The value under `key`, if this is an object holding that key.
    pub fn get(&self, key: &str) -> (r: Option<&Json>)
        ensures
            deref_opt(r) == get(*self, key@),
    {
        match self {
            Json::Object(entries) => {
                let mut i: usize = entries.len();
                assert(entries@.take(i as int) =~= entries@);
                while i > 0
                    invariant
                        i <= entries@.len(),
                        get(*self, key@) == entries_get(entries@, key@),
                        entries_get(entries@, key@) == entries_get(entries@.take(i as int), key@),
                    decreases i,
                {
                    assert(entries@.take(i as int).drop_last() =~= entries@.take(i - 1));
                    assert(entries@.take(i as int).last() == entries@[i - 1]);
                    if str_eq(entries[i - 1].0.as_str(), key) {
                        return Some(&entries[i - 1].1);
                    }
                    i = i - 1;
                }
                None
            },
            _ => None,
        }
    }

    /// The characters, if this is a string.
    pub fn as_str(&self) -> (r: Option<&str>)
        ensures
            match r {
                Some(s) => jstr(Some(*self)) == Some(s@),
                None => jstr(Some(*self)) is None,
            },
    {
        match self {
            Json::Str(s) => Some(s.as_str()),
            _ => None,
        }
    }

    /// The elements, if this is an array.
    pub fn as_array(&self) -> (r: Option<&Vec<Json>>)
        ensures
            match r {
                Some(v) => jarray(Some(*self)) == Some(v@),
                None => jarray(Some(*self)) is None,
            },
    {
        match self {
            Json::Array(v) => Some(v),
            _ => None,
        }
    }

    /// The value, if this is a number that fits in an `i64`.
    pub fn as_i64(&self) -> (r: Option<i64>)
        ensures
            r == jint(Some(*self)),
    {
        match self {
            Json::Int(n) => Some(*n),
            _ => None,
        }
    }

    /// The value, if this is a boolean.
    pub fn as_bool(&self) -> (r: Option<bool>)
        ensures
            r == jbool(Some(*self)),
    {
        match self {
            Json::Bool(b) => Some(*b),
            _ => None,
        }
    }
}

/// `Json::get` on an optional value.
pub fn opt_get<'a>(o: Option<&'a Json>, key: &str) -> (r: Option<&'a Json>)
    ensures
        deref_opt(r) == jget(deref_opt(o), key@),
{
    match o {
        Some(j) => j.get(key),
        None => None,
    }
}

/// The first element of an optional array.
pub fn opt_first<'a>(o: Option<&'a Json>) -> (r: Option<&'a Json>)
    ensures
        deref_opt(r) == jfirst(deref_opt(o)),
{
    match o {
        Some(j) => match j.as_array() {
            Some(v) => if v.len() > 0 {
                Some(&v[0])
            } else {
                None
            },
            None => None,
        },
        None => None,
    }
}

/// Follows `keys` one after another from `o`.
pub fn opt_path<'a>(o: Option<&'a Json>, keys: &[&str]) -> (r: Option<&'a Json>)
    ensures
        deref_opt(r) == path(deref_opt(o), keys@.map_values(|k: &str| k@)),
{
    let ghost ks = keys@.map_values(|k: &str| k@);
    let mut cur = o;
    let mut i: usize = 0;
    while i < keys.len()
        invariant
            i <= keys@.len(),
            ks == keys@.map_values(|k: &str| k@),
            deref_opt(cur) == path(deref_opt(o), ks.take(i as int)),
        decreases keys@.len() - i,
    {
        assert(ks.take(i + 1).drop_last() =~= ks.take(i as int));
        cur = opt_get(cur, keys[i]);
        i = i + 1;
    }
    assert(ks.take(keys@.len() as int) =~= ks);
    cur
}

/// An owned copy of an optional string value, or the empty string.
pub fn text_or_empty_of(o: Option<&Json>) -> (r: String)
    ensures
        r@ == text_or_empty(deref_opt(o)),
{
    match o {
        Some(j) => match j.as_str() {
            Some(s) => s.to_owned(),
            None => String::new(),
        },
        None => String::new(),
    }
}

/// An owned copy of an optional string value.
pub fn opt_string(o: Option<&Json>) -> (r: Option<String>)
    ensures
        opt_view(r) == jstr(deref_opt(o)),
{
    match o {
        Some(j) => match j.as_str() {
            Some(s) => Some(s.to_owned()),
            None => None,
        },
        None => None,
    }
}


/// A JSON value as plain values.
pub enum JsonView {
    Null,
    Bool(bool),
    Int(i64),
    OtherNumber,
    Str(Seq<char>),
    Array(Seq<JsonView>),
    Object(Seq<(Seq<char>, JsonView)>),
}

/// The plain value of a JSON value.
pub open spec fn json_view(j: Json) -> JsonView
    decreases j,
{
    match j {
        Json::Null => JsonView::Null,
        Json::Bool(b) => JsonView::Bool(b),
        Json::Int(n) => JsonView::Int(n),
        Json::OtherNumber => JsonView::OtherNumber,
        Json::Str(s) => JsonView::Str(s@),
        Json::Array(v) => JsonView::Array(json_views(v@, v@.len() as int)),
        Json::Object(e) => JsonView::Object(entry_views(e@, e@.len() as int)),
    }
}

/// The plain values of the first `n` elements of `s`.
pub open spec fn json_views(s: Seq<Json>, n: int) -> Seq<JsonView>
    decreases s, n,
{
    if n <= 0 || n > s.len() {
        Seq::empty()
    } else {
        json_views(s, n - 1).push(json_view(s[n - 1]))
    }
}

/// The plain values of the first `n` entries of `e`.
pub open spec fn entry_views(e: Seq<(String, Json)>, n: int) -> Seq<(Seq<char>, JsonView)>
    decreases e, n,
{
    if n <= 0 || n > e.len() {
        Seq::empty()
    } else {
        entry_views(e, n - 1).push((e[n - 1].0@, json_view(e[n - 1].1)))
    }
}


/// The plain values of the elements of an array.
pub open spec fn items_view(v: Seq<Json>) -> Seq<JsonView> {
    json_views(v, v.len() as int)
}

/// The value of the last entry of `entries` whose key is `key`, as `get`
/// reads an object.
pub open spec fn view_entries_get(entries: Seq<(Seq<char>, JsonView)>, key: Seq<char>) -> Option<
    JsonView,
>
    decreases entries.len(),
{
    if entries.len() == 0 {
        None
    } else if entries.last().0 == key {
        Some(entries.last().1)
    } else {
        view_entries_get(entries.drop_last(), key)
    }
}

/// The member `key` of a plain JSON value: the value under `key` of an
/// object, `None` for any other value.
pub open spec fn member(j: JsonView, key: Seq<char>) -> Option<JsonView> {
    match j {
        JsonView::Object(entries) => view_entries_get(entries, key),
        _ => None,
    }
}

/// The plain values of the entries of an object.
pub open spec fn object_view(e: Seq<(String, Json)>) -> Seq<(Seq<char>, JsonView)> {
    entry_views(e, e.len() as int)
}

proof fn lemma_entry_views_prefix(e1: Seq<(String, Json)>, e2: Seq<(String, Json)>, n: int)
    requires
        0 <= n <= e1.len(),
        n <= e2.len(),
        forall|i: int| 0 <= i < n ==> e1[i] == e2[i],
    ensures
        entry_views(e1, n) == entry_views(e2, n),
    decreases n,
{
    if n > 0 {
        lemma_entry_views_prefix(e1, e2, n - 1);
    }
}

proof fn lemma_json_views_prefix(s1: Seq<Json>, s2: Seq<Json>, n: int)
    requires
        0 <= n <= s1.len(),
        n <= s2.len(),
        forall|i: int| 0 <= i < n ==> s1[i] == s2[i],
    ensures
        json_views(s1, n) == json_views(s2, n),
    decreases n,
{
    if n > 0 {
        lemma_json_views_prefix(s1, s2, n - 1);
    }
}

/// A string value holding the characters of `s`.
pub fn json_str(s: &str) -> (r: Json)
    ensures
        json_view(r) == JsonView::Str(s@),
{
    Json::Str(s.to_owned())
}

/// Appends an entry to the entries of an object under construction.
pub fn push_entry(entries: &mut Vec<(String, Json)>, key: &str, value: Json)
    ensures
        object_view(final(entries)@) == object_view(old(entries)@).push((key@, json_view(value))),
{
    let ghost old_e = entries@;
    entries.push((key.to_owned(), value));
    proof {
        lemma_entry_views_prefix(old_e, entries@, old_e.len() as int);
    }
}

/// Appends an element to the elements of an array under construction.
pub fn push_item(items: &mut Vec<Json>, value: Json)
    ensures
        items_view(final(items)@) == items_view(old(items)@).push(json_view(value)),
{
    let ghost old_i = items@;
    items.push(value);
    proof {
        lemma_json_views_prefix(old_i, items@, old_i.len() as int);
    }
}

} // verus!
