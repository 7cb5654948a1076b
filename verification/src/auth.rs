//! Authentication: the rules that decide a login, a registration and a
//! password change, the normalisation of what a user types, password hashing
//! and session identifiers.
//!
//! The database reads and writes that sit between these decisions are made by
//! the caller; each function here takes what was read as a plain value.

use vstd::prelude::*;
use crate::text::{
    chars_of, has_prefix, push_char, push_str, split_char, split_seq, starts_with, string_of, trim,
    trimmed, views, nat_text,
};
use crate::templates::two_digits;

verus! {

/// Authenticated user data extracted from session.
#[derive(Debug, Clone)]
pub struct AuthUser {
    pub email: String,
    pub username: String,
}

impl AuthUser {
    /// The user of an account, named by its email address.
    pub fn for_email(email: String) -> (r: AuthUser)
        ensures
            r.email@ == email@,
            r.username@ == email@,
    {
        AuthUser { username: email.clone(), email }
    }
}

/// Authentication errors.
#[derive(Debug, Clone)]
pub enum AuthError {
    UserNotFound,
    InvalidPassword,
    LoginDisabled,
    RegistrationDisabled,
    InvalidSession,
    Database(String),
}

/// The text that describes an error.
pub open spec fn auth_error_text(e: AuthError) -> Seq<char> {
    match e {
        AuthError::UserNotFound => "User not found"@,
        AuthError::InvalidPassword => "Invalid password"@,
        AuthError::LoginDisabled => "Login disabled"@,
        AuthError::RegistrationDisabled => "Registration disabled"@,
        AuthError::InvalidSession => "Session expired or invalid"@,
        AuthError::Database(m) => "Database error: "@ + m@,
    }
}

impl AuthError {
    /// The text that describes this error.
    pub fn message(&self) -> (r: String)
        ensures
            r@ == auth_error_text(*self),
    {
        match self {
            AuthError::UserNotFound => "User not found".to_owned(),
            AuthError::InvalidPassword => "Invalid password".to_owned(),
            AuthError::LoginDisabled => "Login disabled".to_owned(),
            AuthError::RegistrationDisabled => "Registration disabled".to_owned(),
            AuthError::InvalidSession => "Session expired or invalid".to_owned(),
            AuthError::Database(m) => {
                let mut r = "Database error: ".to_owned();
                push_str(&mut r, m.as_str());
                r
            },
        }
    }
}

// ---------------------------------------------------------------------------
// URL-safe base64 without padding
// ---------------------------------------------------------------------------

/// The character for a six-bit value in the URL-safe alphabet
/// `A-Z a-z 0-9 - _`.
pub open spec fn b64_char(v: int) -> char {
    if v < 26 {
        (65 + v) as char
    } else if v < 52 {
        (97 + v - 26) as char
    } else if v < 62 {
        (48 + v - 52) as char
    } else if v == 62 {
        '-'
    } else {
        '_'
    }
}

/// The four characters of a group of three bytes.
pub open spec fn b64_group(b0: u8, b1: u8, b2: u8) -> Seq<char> {
    seq![
        b64_char(b0 as int / 4),
        b64_char((b0 as int % 4) * 16 + b1 as int / 16),
        b64_char((b1 as int % 16) * 4 + b2 as int / 64),
        b64_char(b2 as int % 64),
    ]
}

/// The characters of the first `g` groups of three bytes.
pub open spec fn b64_groups(data: Seq<u8>, g: int) -> Seq<char>
    decreases g,
{
    if g <= 0 {
        Seq::empty()
    } else {
        b64_groups(data, g - 1) + b64_group(data[3 * g - 3], data[3 * g - 2], data[3 * g - 1])
    }
}

/// The characters of the one or two bytes after the last full group: two
/// characters for one byte, three for two, and no padding.
pub open spec fn b64_tail(data: Seq<u8>) -> Seq<char> {
    let i = data.len() - data.len() % 3;
    if data.len() % 3 == 0 {
        Seq::empty()
    } else if data.len() % 3 == 1 {
        seq![b64_char(data[i] as int / 4), b64_char((data[i] as int % 4) * 16)]
    } else {
        seq![
            b64_char(data[i] as int / 4),
            b64_char((data[i] as int % 4) * 16 + data[i + 1] as int / 16),
            b64_char((data[i + 1] as int % 16) * 4),
        ]
    }
}

/// URL-safe base64 of `data`, without padding.
pub open spec fn base64_url(data: Seq<u8>) -> Seq<char> {
    b64_groups(data, data.len() as int / 3) + b64_tail(data)
}

fn b64_digit(v: u8) -> (c: char)
    requires
        v < 64,
    ensures
        c == b64_char(v as int),
{
    if v < 26 {
        (65u8 + v) as char
    } else if v < 52 {
        (97u8 + v - 26) as char
    } else if v < 62 {
        (48u8 + v - 52) as char
    } else if v == 62 {
        '-'
    } else {
        '_'
    }
}

/// Encode bytes to URL-safe base64, without padding.
pub fn base64_encode(data: &[u8]) -> (r: String)
    ensures
        r@ == base64_url(data@),
{
    let n = data.len();
    let mut r = String::new();
    let mut i: usize = 0;
    let ghost mut g: int = 0;
    while n - i >= 3
        invariant
            n == data@.len(),
            i == 3 * g,
            0 <= g,
            i <= n,
            r@ == b64_groups(data@, g),
        decreases n - i,
    {
        let b0 = data[i];
        let b1 = data[i + 1];
        let b2 = data[i + 2];
        push_char(&mut r, b64_digit(b0 / 4));
        push_char(&mut r, b64_digit((b0 % 4) * 16 + b1 / 16));
        push_char(&mut r, b64_digit((b1 % 16) * 4 + b2 / 64));
        push_char(&mut r, b64_digit(b2 % 64));
        proof {
            g = g + 1;
            assert(r@ =~= b64_groups(data@, g));
        }
        i = i + 3;
    }
    assert(g == n / 3);
    if n - i == 1 {
        let b0 = data[i];
        push_char(&mut r, b64_digit(b0 / 4));
        push_char(&mut r, b64_digit((b0 % 4) * 16));
    } else if n - i == 2 {
        let b0 = data[i];
        let b1 = data[i + 1];
        push_char(&mut r, b64_digit(b0 / 4));
        push_char(&mut r, b64_digit((b0 % 4) * 16 + b1 / 16));
        push_char(&mut r, b64_digit((b1 % 16) * 4));
    }
    assert(r@ =~= base64_url(data@));
    r
}

/// Whether `c` is in the URL-safe base64 alphabet.
pub open spec fn is_b64_char(c: char) -> bool {
    ('A' <= c <= 'Z') || ('a' <= c <= 'z') || ('0' <= c <= '9') || c == '-' || c == '_'
}

/// The number of characters of the URL-safe base64 of `n` bytes, without
/// padding.
pub open spec fn b64_len(n: nat) -> nat {
    4 * (n / 3) + if n % 3 == 0 {
        0
    } else {
        n % 3 + 1
    }
}

proof fn lemma_b64_char(v: int)
    requires
        0 <= v < 64,
    ensures
        is_b64_char(b64_char(v)),
{
}

proof fn lemma_b64_groups_shape(data: Seq<u8>, g: int)
    requires
        g >= 0,
    ensures
        b64_groups(data, g).len() == 4 * g,
        forall|i: int| 0 <= i < b64_groups(data, g).len() ==> is_b64_char(#[trigger] b64_groups(data, g)[i]),
    decreases g,
{
    if g > 0 {
        lemma_b64_groups_shape(data, g - 1);
        let (b0, b1, b2) = (data[3 * g - 3], data[3 * g - 2], data[3 * g - 1]);
        lemma_b64_char(b0 as int / 4);
        lemma_b64_char((b0 as int % 4) * 16 + b1 as int / 16);
        lemma_b64_char((b1 as int % 16) * 4 + b2 as int / 64);
        lemma_b64_char(b2 as int % 64);
        let prev = b64_groups(data, g - 1);
        let grp = b64_group(b0, b1, b2);
        assert forall|i: int| 0 <= i < b64_groups(data, g).len() implies is_b64_char(
            #[trigger] b64_groups(data, g)[i],
        ) by {
            if i < prev.len() {
                assert(b64_groups(data, g)[i] == prev[i]);
            } else {
                assert(b64_groups(data, g)[i] == grp[i - prev.len()]);
            }
        }
    }
}

/// The URL-safe base64 of `data` has `b64_len` characters, all of the
/// URL-safe alphabet.
pub proof fn lemma_base64_shape(data: Seq<u8>)
    ensures
        base64_url(data).len() == b64_len(data.len()),
        forall|i: int| 0 <= i < base64_url(data).len() ==> is_b64_char(#[trigger] base64_url(data)[i]),
{
    let n = data.len() as int;
    let g = n / 3;
    lemma_b64_groups_shape(data, g);
    let head = b64_groups(data, g);
    let tail = b64_tail(data);
    let i0 = n - n % 3;
    if n % 3 >= 1 {
        lemma_b64_char(data[i0] as int / 4);
    }
    if n % 3 == 1 {
        lemma_b64_char((data[i0] as int % 4) * 16);
    }
    if n % 3 == 2 {
        lemma_b64_char((data[i0] as int % 4) * 16 + data[i0 + 1] as int / 16);
        lemma_b64_char((data[i0 + 1] as int % 16) * 4);
    }
    assert forall|i: int| 0 <= i < base64_url(data).len() implies is_b64_char(
        #[trigger] base64_url(data)[i],
    ) by {
        if i < head.len() {
            assert(base64_url(data)[i] == head[i]);
        } else {
            assert(base64_url(data)[i] == tail[i - head.len()]);
        }
    }
}

/// The six-bit value of a character of the URL-safe alphabet.
pub open spec fn b64_value(c: char) -> int {
    if 'A' <= c <= 'Z' {
        c as int - 65
    } else if 'a' <= c <= 'z' {
        c as int - 97 + 26
    } else if '0' <= c <= '9' {
        c as int - 48 + 52
    } else if c == '-' {
        62
    } else {
        63
    }
}

/// The first byte that two characters carry.
pub open spec fn b64_byte0(c0: char, c1: char) -> u8 {
    (b64_value(c0) * 4 + b64_value(c1) / 16) as u8
}

/// The second byte that two characters carry, after the first.
pub open spec fn b64_byte1(c1: char, c2: char) -> u8 {
    ((b64_value(c1) % 16) * 16 + b64_value(c2) / 4) as u8
}

/// The third byte that two characters carry, after the second.
pub open spec fn b64_byte2(c2: char, c3: char) -> u8 {
    ((b64_value(c2) % 4) * 64 + b64_value(c3)) as u8
}

/// The three bytes that a group of four characters stands for.
pub open spec fn b64_ungroup(q: Seq<char>) -> Seq<u8> {
    seq![b64_byte0(q[0], q[1]), b64_byte1(q[1], q[2]), b64_byte2(q[2], q[3])]
}

/// The bytes of the first `g` groups of four characters of `s`.
pub open spec fn b64_ungroups(s: Seq<char>, g: int) -> Seq<u8>
    decreases g,
{
    if g <= 0 {
        Seq::empty()
    } else {
        b64_ungroups(s, g - 1) + b64_ungroup(s.subrange(4 * g - 4, 4 * g))
    }
}

/// The bytes of the two or three characters after the last full group: one
/// byte for two characters, two for three.
pub open spec fn b64_untail(t: Seq<char>) -> Seq<u8> {
    if t.len() == 2 {
        seq![b64_byte0(t[0], t[1])]
    } else if t.len() == 3 {
        seq![b64_byte0(t[0], t[1]), b64_byte1(t[1], t[2])]
    } else {
        Seq::empty()
    }
}

/// The bytes that URL-safe base64 text without padding stands for.
pub open spec fn base64_decode(s: Seq<char>) -> Seq<u8> {
    let g = s.len() as int / 4;
    b64_ungroups(s, g) + b64_untail(s.skip(4 * g))
}

proof fn lemma_b64_value(v: int)
    requires
        0 <= v < 64,
    ensures
        b64_value(b64_char(v)) == v,
{
}

proof fn lemma_b64_group_bytes(b0: u8, b1: u8, b2: u8)
    ensures
        b64_ungroup(b64_group(b0, b1, b2)) == seq![b0, b1, b2],
{
    let v0 = b0 as int / 4;
    let v1 = (b0 as int % 4) * 16 + b1 as int / 16;
    let v2 = (b1 as int % 16) * 4 + b2 as int / 64;
    let v3 = b2 as int % 64;
    lemma_b64_value(v0);
    lemma_b64_value(v1);
    lemma_b64_value(v2);
    lemma_b64_value(v3);
    let q = b64_group(b0, b1, b2);
    assert(b64_byte0(q[0], q[1]) == b0);
    assert(b64_byte1(q[1], q[2]) == b1);
    assert(b64_byte2(q[2], q[3]) == b2);
    assert(b64_ungroup(q) =~= seq![b0, b1, b2]);
}

proof fn lemma_b64_groups_at(data: Seq<u8>, g: int, k: int)
    requires
        0 < k <= g,
        3 * g <= data.len(),
    ensures
        b64_groups(data, g).subrange(4 * k - 4, 4 * k) == b64_group(
            data[3 * k - 3],
            data[3 * k - 2],
            data[3 * k - 1],
        ),
    decreases g,
{
    lemma_b64_groups_shape(data, g - 1);
    let prev = b64_groups(data, g - 1);
    let grp = b64_group(data[3 * g - 3], data[3 * g - 2], data[3 * g - 1]);
    if k == g {
        assert(b64_groups(data, g).subrange(4 * k - 4, 4 * k) =~= grp);
    } else {
        lemma_b64_groups_at(data, g - 1, k);
        assert(b64_groups(data, g).subrange(4 * k - 4, 4 * k) =~= prev.subrange(4 * k - 4, 4 * k));
    }
}

proof fn lemma_b64_ungroups(data: Seq<u8>, k: int)
    requires
        0 <= k <= data.len() / 3,
    ensures
        b64_ungroups(base64_url(data), k) == data.take(3 * k),
    decreases k,
{
    if k > 0 {
        let g = data.len() as int / 3;
        let s = base64_url(data);
        lemma_b64_ungroups(data, k - 1);
        lemma_b64_groups_shape(data, g);
        lemma_b64_groups_at(data, g, k);
        assert(s.subrange(4 * k - 4, 4 * k) =~= b64_groups(data, g).subrange(4 * k - 4, 4 * k));
        lemma_b64_group_bytes(data[3 * k - 3], data[3 * k - 2], data[3 * k - 1]);
        assert(b64_ungroups(s, k) =~= data.take(3 * k));
    }
}

/// Decoding the URL-safe base64 of `data` gives `data` back.
pub proof fn lemma_base64_round_trip(data: Seq<u8>)
    ensures
        base64_decode(base64_url(data)) == data,
{
    let n = data.len() as int;
    let g = n / 3;
    let s = base64_url(data);
    lemma_base64_shape(data);
    lemma_b64_groups_shape(data, g);
    assert(s.len() as int / 4 == g);
    lemma_b64_ungroups(data, g);
    let t = s.skip(4 * g);
    assert(t =~= b64_tail(data));
    let i = n - n % 3;
    if n % 3 == 1 {
        lemma_b64_value(data[i] as int / 4);
        lemma_b64_value((data[i] as int % 4) * 16);
        assert(b64_untail(t) =~= data.skip(3 * g));
    } else if n % 3 == 2 {
        lemma_b64_value(data[i] as int / 4);
        lemma_b64_value((data[i] as int % 4) * 16 + data[i + 1] as int / 16);
        lemma_b64_value((data[i + 1] as int % 16) * 4);
        assert(b64_untail(t) =~= data.skip(3 * g));
    } else {
        assert(b64_untail(t) =~= data.skip(3 * g));
    }
    assert(base64_decode(s) =~= data);
}

// ---------------------------------------------------------------------------
// Session identifiers
// ---------------------------------------------------------------------------

/// The session identifier made from 32 bytes: the bytes in URL-safe base64,
/// without padding. The caller draws the bytes from the operating system's
/// randomness.
pub fn session_id(bytes: &[u8; 32]) -> (r: String)
    ensures
        r@ == base64_url(bytes@),
{
    base64_encode(bytes.as_slice())
}

// ---------------------------------------------------------------------------
// What a user types
// ---------------------------------------------------------------------------

/// The number of bytes of the UTF-8 encoding of `c`.
pub open spec fn utf8_width(c: char) -> nat {
    if (c as u32) < 0x80 {
        1
    } else if (c as u32) < 0x800 {
        2
    } else if (c as u32) < 0x10000 {
        3
    } else {
        4
    }
}

/// The number of bytes of the UTF-8 encoding of `s`.
pub open spec fn utf8_size(s: Seq<char>) -> nat
    decreases s.len(),
{
    if s.len() == 0 {
        0
    } else {
        utf8_size(s.drop_last()) + utf8_width(s.last())
    }
}

/// The length of the longest prefix of `s`, at least `i` long, whose encoding
/// fits in `limit` bytes, found by extending `i` one character at a time.
pub open spec fn fit_from(s: Seq<char>, i: int, limit: nat) -> int
    decreases s.len() - i,
{
    if 0 <= i < s.len() && utf8_size(s.take(i + 1)) <= limit {
        fit_from(s, i + 1, limit)
    } else {
        i
    }
}

/// The characters of a lossy decode of the first `limit` bytes of the UTF-8
/// encoding of `s`: the characters that fit whole, then one replacement
/// character where the cut falls inside a character.
pub open spec fn utf8_truncate(s: Seq<char>, limit: nat) -> Seq<char> {
    let k = fit_from(s, 0, limit);
    if k < s.len() && utf8_size(s.take(k)) < limit {
        s.take(k).push('\u{FFFD}')
    } else {
        s.take(k)
    }
}

proof fn lemma_utf8_size_monotone(s: Seq<char>, j: int, r: int)
    requires
        0 <= j <= r <= s.len(),
    ensures
        utf8_size(s.take(j)) <= utf8_size(s.take(r)),
    decreases r - j,
{
    if j < r {
        lemma_utf8_size_monotone(s, j, r - 1);
        assert(s.take(r).drop_last() =~= s.take(r - 1));
    }
}

proof fn lemma_fit_from_is(s: Seq<char>, i: int, r: int, limit: nat)
    requires
        0 <= i <= r <= s.len(),
        utf8_size(s.take(r)) <= limit,
        r == s.len() || utf8_size(s.take(r + 1)) > limit,
    ensures
        fit_from(s, i, limit) == r,
    decreases r - i,
{
    if i < r {
        lemma_utf8_size_monotone(s, i + 1, r);
        lemma_fit_from_is(s, i + 1, r, limit);
    }
}

proof fn lemma_fit_from_bounds(s: Seq<char>, i: int, limit: nat)
    requires
        0 <= i <= s.len(),
        utf8_size(s.take(i)) <= limit,
    ensures
        i <= fit_from(s, i, limit) <= s.len(),
        utf8_size(s.take(fit_from(s, i, limit))) <= limit,
        fit_from(s, i, limit) == s.len() || utf8_size(s.take(fit_from(s, i, limit) + 1)) > limit,
    decreases s.len() - i,
{
    if i < s.len() && utf8_size(s.take(i + 1)) <= limit {
        lemma_fit_from_bounds(s, i + 1, limit);
    }
}

/// Cutting a text that was already cut at the same limit leaves it as it
/// is: a password as `normalize_password` gives it back is its own normal
/// form.
pub proof fn lemma_utf8_truncate_idempotent(s: Seq<char>, limit: nat)
    ensures
        utf8_truncate(utf8_truncate(s, limit), limit) == utf8_truncate(s, limit),
{
    assert(s.take(0) =~= Seq::<char>::empty());
    lemma_fit_from_bounds(s, 0, limit);
    let k = fit_from(s, 0, limit);
    let t = utf8_truncate(s, limit);
    let a = utf8_size(s.take(k));
    assert(t.take(0) =~= Seq::<char>::empty());
    if k < s.len() && a < limit {
        let f = '\u{FFFD}';
        assert(t == s.take(k).push(f));
        assert(t.take(k) =~= s.take(k));
        assert(t.drop_last() =~= s.take(k));
        assert(utf8_size(t) == a + 3);
        if a + 3 <= limit {
            assert(t.take(k + 1) =~= t);
            lemma_fit_from_is(t, 0, k + 1, limit);
            assert(t.take(k + 1) =~= t);
        } else {
            assert(t.take(k + 1) =~= t);
            lemma_fit_from_is(t, 0, k, limit);
            assert(t.take(k).push(f) =~= t);
        }
    } else {
        assert(t == s.take(k));
        assert(t.take(k) =~= t);
        lemma_fit_from_is(t, 0, k, limit);
    }
}

fn width_of(c: char) -> (w: usize)
    ensures
        w == utf8_width(c),
{
    let v = c as u32;
    if v < 0x80 {
        1
    } else if v < 0x800 {
        2
    } else if v < 0x10000 {
        3
    } else {
        4
    }
}

/// The text of a lossy decode of the first `limit` bytes of `s`.
pub fn truncate_utf8(s: &str, limit: usize) -> (r: String)
    ensures
        r@ == utf8_truncate(s@, limit as nat),
{
    let cs = chars_of(s);
    let mut r = String::new();
    let mut used: usize = 0;
    let mut i: usize = 0;
    assert(s@.take(0) =~= Seq::<char>::empty());
    while i < cs.len()
        invariant
            cs@ == s@,
            i <= cs@.len(),
            used == utf8_size(s@.take(i as int)),
            used <= limit,
            r@ == s@.take(i as int),
            fit_from(s@, i as int, limit as nat) == fit_from(s@, 0, limit as nat),
        ensures
            i <= cs@.len(),
            i == fit_from(s@, 0, limit as nat),
            used == utf8_size(s@.take(i as int)),
            r@ == s@.take(i as int),
        decreases cs@.len() - i,
    {
        let w = width_of(cs[i]);
        assert(s@.take(i + 1).drop_last() =~= s@.take(i as int));
        if w > limit - used {
            assert(fit_from(s@, i as int, limit as nat) == i);
            break;
        }
        push_char(&mut r, cs[i]);
        used = used + w;
        i = i + 1;
        assert(r@ =~= s@.take(i as int));
    }
    if i < cs.len() && used < limit {
        push_char(&mut r, '\u{FFFD}');
    }
    r
}

/// The lowercase form of a text, as `str::to_lowercase` gives it.
pub uninterp spec fn lowercase_of(s: Seq<char>) -> Seq<char>;

/// Calls `str::to_lowercase`, whose documentation states that it returns the
/// lowercase equivalent of the string slice as a new `String`, lowercase being
/// defined by the Unicode property `Lowercase`. The contract names the result
/// and says no more of it.
#[verifier::external_body]
fn lowercase(s: &str) -> (r: String)
    ensures
        r@ == lowercase_of(s@),
{
    s.to_lowercase()
}

/// The most bytes of an email address that are kept.
pub const EMAIL_BYTES: usize = 254;

/// The most bytes of a password that are kept.
pub const PASSWORD_BYTES: usize = 55;

/// The form in which an email address is stored: lowercase, cut to
/// 254 bytes.
pub fn normalize_email(email: &str) -> (r: String)
    ensures
        r@ == utf8_truncate(lowercase_of(email@), 254),
{
    let lower = lowercase(email);
    truncate_utf8(lower.as_str(), EMAIL_BYTES)
}

/// The form in which a password is hashed and checked: cut to 55 bytes.
pub fn normalize_password(password: &str) -> (r: String)
    ensures
        r@ == utf8_truncate(password@, 55),
{
    truncate_utf8(password, PASSWORD_BYTES)
}

// ---------------------------------------------------------------------------
// Password hashes
// ---------------------------------------------------------------------------

/// What `bcrypt::verify` returns for a password and a stored hash: `Some`
/// of its verdict, or `None` where it refuses the hash.
pub uninterp spec fn bcrypt_verdict(password: Seq<char>, hash: Seq<char>) -> Option<bool>;

/// Calls `bcrypt::verify`, which splits the stored hash into cost, salt and
/// digest, hashes the password again with that cost and salt, and compares
/// the digests; it fails on a hash it cannot split or decode. The result
/// depends on the two arguments alone, and the contract names it.
#[verifier::external_body]
fn bcrypt_verify(password: &str, hash: &str) -> (r: Option<bool>)
    ensures
        r == bcrypt_verdict(password@, hash@),
{
    bcrypt::verify(password, hash).ok()
}

/// Calls `bcrypt::hash` with the given cost. A cost outside 4 to 31 is
/// refused. The salt is drawn from the operating system's randomness, so only
/// what holds of every outcome is stated: a hash is 60 characters long, starts
/// with `$2b$`, the cost in two digits and `$`, and `bcrypt::verify` accepts
/// the same password against it (it hashes again with the salt and cost read
/// back from the string). The text of a failure is that of the crate's error
/// and is not stated.
#[verifier::external_body]
fn bcrypt_hash(password: &str, cost: u32) -> (r: Result<String, String>)
    ensures
        !(4 <= cost <= 31) ==> r is Err,
        r matches Ok(h) ==> {
            &&& 4 <= cost <= 31
            &&& h@.len() == 60
            &&& h@.take(7) == "$2b$"@ + two_digits(cost as int) + "$"@
            &&& bcrypt_verdict(password@, h@) == Some(true)
        },
{
    bcrypt::hash(password, cost).map_err(|e| e.to_string())
}

/// Whether a verdict of `bcrypt::verify` accepts the password: a refused
/// hash counts as a wrong password.
pub fn password_accepted(verdict: Option<bool>) -> (r: bool)
    ensures
        r == (verdict == Some(true)),
{
    match verdict {
        Some(b) => b,
        None => false,
    }
}

/// Whether `password`, cut as passwords are, matches the stored `hash`.
pub fn verify_password(password: &str, hash: &str) -> (r: bool)
    ensures
        r == (bcrypt_verdict(utf8_truncate(password@, 55), hash@) == Some(true)),
{
    let p = normalize_password(password);
    password_accepted(bcrypt_verify(p.as_str(), hash))
}

/// The library's answer to an outcome of `bcrypt::hash`: the hash, or a
/// database error that carries the crate's message.
pub fn hash_outcome(outcome: Result<String, String>) -> (r: Result<String, AuthError>)
    ensures
        outcome matches Ok(h) ==> (r matches Ok(h2) && h2@ == h@),
        outcome matches Err(m) ==> (r matches Err(AuthError::Database(m2)) && m2@ == "bcrypt error: "@ + m@),
{
    match outcome {
        Ok(h) => Ok(h),
        Err(m) => {
            let mut text = "bcrypt error: ".to_owned();
            push_str(&mut text, m.as_str());
            Err(AuthError::Database(text))
        },
    }
}

/// Hash a password with bcrypt at cost 10.
pub fn hash_password(password: &str) -> (r: Result<String, AuthError>)
    ensures
        r matches Ok(h) ==> {
            &&& h@.len() == 60
            &&& h@.take(7) == "$2b$10$"@
            &&& bcrypt_verdict(password@, h@) == Some(true)
        },
        r matches Err(e) ==> e is Database,
{
    let r = hash_outcome(bcrypt_hash(password, 10));
    proof {
        reveal_strlit("$2b$");
        reveal_strlit("$");
        reveal_strlit("$2b$10$");
        reveal_with_fuel(nat_text, 2);
        assert("$2b$"@ + two_digits(10) + "$"@ =~= "$2b$10$"@);
    }
    r
}

// ---------------------------------------------------------------------------
// Decisions
// ---------------------------------------------------------------------------

/// A stored account as the decisions see it: absent, or present with a
/// password hash if it has one.
pub open spec fn stored_hash(account: Option<Option<&str>>) -> Option<Option<Seq<char>>> {
    match account {
        Some(Some(h)) => Some(Some(h@)),
        Some(None) => Some(None),
        None => None,
    }
}

/// Whether a login may be tried at all.
pub fn login_gate(login_enabled: bool) -> (r: Result<(), AuthError>)
    ensures
        r is Ok <==> login_enabled,
        r matches Err(e) ==> e is LoginDisabled,
{
    if !login_enabled {
        return Err(AuthError::LoginDisabled);
    }
    Ok(())
}

/// The answer to a login, given the account stored under the normalised
/// email address: no account is `RegistrationDisabled` where registration is
/// off and `UserNotFound` otherwise; an account without a hash, or whose hash
/// does not accept the password, is `InvalidPassword`.
pub open spec fn login_answer(
    registration_enabled: bool,
    account: Option<Option<Seq<char>>>,
    password: Seq<char>,
) -> Result<(), AuthError> {
    match account {
        None => if registration_enabled {
            Err(AuthError::UserNotFound)
        } else {
            Err(AuthError::RegistrationDisabled)
        },
        Some(None) => Err(AuthError::InvalidPassword),
        Some(Some(h)) => if bcrypt_verdict(utf8_truncate(password, 55), h) == Some(true) {
            Ok(())
        } else {
            Err(AuthError::InvalidPassword)
        },
    }
}

/// The answer to a login, given the account stored under the normalised
/// email address.
pub fn login_verdict(registration_enabled: bool, account: Option<Option<&str>>, password: &str) -> (r: Result<(), AuthError>)
    ensures
        r == login_answer(registration_enabled, stored_hash(account), password@),
{
    match account {
        Some(Some(hash)) => {
            if verify_password(password, hash) {
                Ok(())
            } else {
                Err(AuthError::InvalidPassword)
            }
        },
        Some(None) => Err(AuthError::InvalidPassword),
        None => {
            if !registration_enabled {
                return Err(AuthError::RegistrationDisabled);
            }
            Err(AuthError::UserNotFound)
        },
    }
}

/// Whether a registration may be tried at all: logins must be on, then
/// registrations.
pub fn register_gate(login_enabled: bool, registration_enabled: bool) -> (r: Result<(), AuthError>)
    ensures
        r is Ok <==> login_enabled && registration_enabled,
        !login_enabled ==> (r matches Err(e) && e is LoginDisabled),
        login_enabled && !registration_enabled ==> (r matches Err(e) && e is RegistrationDisabled),
{
    if !login_enabled {
        return Err(AuthError::LoginDisabled);
    }
    if !registration_enabled {
        return Err(AuthError::RegistrationDisabled);
    }
    Ok(())
}

/// The answer to a registration: an address that is already taken is refused
/// with `UserNotFound`, any other is accepted.
pub fn register_verdict(taken: bool) -> (r: Result<(), AuthError>)
    ensures
        r is Ok <==> !taken,
        r matches Err(e) ==> e is UserNotFound,
{
    if taken {
        return Err(AuthError::UserNotFound);
    }
    Ok(())
}

/// The answer to a password change, given the stored account: no account is
/// `UserNotFound`; an account without a hash, or whose hash does not accept
/// the old password, is `InvalidPassword`.
pub open spec fn update_password_answer(account: Option<Option<Seq<char>>>, old_password: Seq<char>) -> Result<(), AuthError> {
    match account {
        None => Err(AuthError::UserNotFound),
        Some(None) => Err(AuthError::InvalidPassword),
        Some(Some(h)) => if bcrypt_verdict(utf8_truncate(old_password, 55), h) == Some(true) {
            Ok(())
        } else {
            Err(AuthError::InvalidPassword)
        },
    }
}

/// The answer to a password change, given the stored account.
pub fn update_password_verdict(account: Option<Option<&str>>, old_password: &str) -> (r: Result<(), AuthError>)
    ensures
        r == update_password_answer(stored_hash(account), old_password@),
{
    match account {
        Some(Some(hash)) => {
            if verify_password(old_password, hash) {
                Ok(())
            } else {
                Err(AuthError::InvalidPassword)
            }
        },
        Some(None) => Err(AuthError::InvalidPassword),
        None => Err(AuthError::UserNotFound),
    }
}

/// A password that registration or a password change stored (its hash
/// accepts the password as `normalize_password` cut it) is accepted by a later
/// login and by a later password change that gives it as the old password.
pub proof fn lemma_stored_password_accepted(registration_enabled: bool, password: Seq<char>, hash: Seq<char>)
    requires
        bcrypt_verdict(utf8_truncate(password, 55), hash) == Some(true),
    ensures
        login_answer(registration_enabled, Some(Some(hash)), password) == Ok::<(), AuthError>(()),
        update_password_answer(Some(Some(hash)), password) == Ok::<(), AuthError>(()),
{
}

// ---------------------------------------------------------------------------
// Cookies
// ---------------------------------------------------------------------------

/// The session identifier in the first of `pieces` that, trimmed, starts
/// with `SID=`: what follows that prefix.
pub open spec fn sid_in(pieces: Seq<Seq<char>>) -> Option<Seq<char>>
    decreases pieces.len(),
{
    if pieces.len() == 0 {
        None
    } else if has_prefix(trimmed(pieces[0]), "SID="@) {
        Some(trimmed(pieces[0]).skip(4))
    } else {
        sid_in(pieces.drop_first())
    }
}

/// Extract the session ID from the value of a `Cookie` header: the
/// `;`-separated cookies are trimmed and the first named `SID` wins.
pub fn sid_from_cookies(cookie_header: &str) -> (r: Option<String>)
    ensures
        match r {
            Some(sid) => sid_in(split_seq(cookie_header@, ';')) == Some(sid@),
            None => sid_in(split_seq(cookie_header@, ';')) is None,
        },
{
    let pieces = split_char(cookie_header, ';');
    let ghost ps = split_seq(cookie_header@, ';');
    let mut i: usize = 0;
    proof {
        assert(views(pieces@).skip(0) =~= ps);
    }
    while i < pieces.len()
        invariant
            views(pieces@) == ps,
            ps == split_seq(cookie_header@, ';'),
            i <= pieces@.len(),
            sid_in(ps.skip(i as int)) == sid_in(ps),
        decreases pieces@.len() - i,
    {
        assert(ps.skip(i as int)[0] == pieces@[i as int]@);
        assert(ps.skip(i as int).drop_first() =~= ps.skip(i + 1));
        let cookie = trim(pieces[i].as_str());
        if starts_with(cookie.as_str(), "SID=") {
            proof {
                reveal_strlit("SID=");
            }
            let cs = chars_of(cookie.as_str());
            let sid = string_of(&cs, 4, cs.len());
            assert(sid@ =~= cookie@.skip(4));
            return Some(sid);
        }
        i = i + 1;
    }
    assert(ps.skip(i as int).len() == 0);
    None
}

/// A session identifier is 43 characters of the URL-safe base64 alphabet,
/// whatever its 32 bytes, so it can be carried in a cookie as it is.
pub proof fn lemma_session_id_shape(bytes: Seq<u8>)
    requires
        bytes.len() == 32,
    ensures
        base64_url(bytes).len() == 43,
        forall|i: int| 0 <= i < 43 ==> is_b64_char(#[trigger] base64_url(bytes)[i]),
{
    lemma_base64_shape(bytes);
}

} // verus!
