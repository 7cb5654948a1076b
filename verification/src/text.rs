//! Small verified helpers over strings and bytes.

use vstd::prelude::*;
use vstd::string::*;
use vstd::utf8::*;

verus! {

/// Appends one character to a string.
///
/// Calls `String::push`, whose documentation states that it appends the
/// given `char` to the end of the string.
#[verifier::external_body]
pub fn push_char(s: &mut String, c: char)
    ensures
        final(s)@ == old(s)@.push(c),
{
    s.push(c);
}

/// Whether two string slices hold the same characters.
pub fn str_eq(a: &str, b: &str) -> (r: bool)
    ensures
        r == (a@ == b@),
{
    let ab = a.as_bytes();
    let bb = b.as_bytes();
    proof {
        encode_utf8_decode_utf8(a@);
        encode_utf8_decode_utf8(b@);
    }
    if ab.len() != bb.len() {
        return false;
    }
    let n = ab.len();
    let mut i: usize = 0;
    while i < n
        invariant
            n == ab@.len(),
            n == bb@.len(),
            ab@ == encode_utf8(a@),
            bb@ == encode_utf8(b@),
            i <= n,
            forall|j: int| 0 <= j < i ==> ab@[j] == bb@[j],
        decreases n - i,
    {
        if ab[i] != bb[i] {
            return false;
        }
        i = i + 1;
    }
    assert(ab@ =~= bb@);
    true
}


/// Whether `c` is an ASCII decimal digit.
pub open spec fn is_digit(c: char) -> bool {
    '0' <= c <= '9'
}

/// Whether every character of `s` is an ASCII decimal digit.
pub open spec fn all_digits(s: Seq<char>) -> bool {
    forall|i: int| 0 <= i < s.len() ==> is_digit(#[trigger] s[i])
}

/// The value of a string of decimal digits.
pub open spec fn digits_value(s: Seq<char>) -> nat
    decreases s.len(),
{
    if s.len() == 0 {
        0
    } else {
        digits_value(s.drop_last()) * 10 + (s.last() as nat - '0' as nat) as nat
    }
}

/// The value of a decimal numeral with an optional sign (`-` only where
/// `signed` holds), as Rust's integer `from_str` reads it.
pub open spec fn decimal_value(s: Seq<char>, signed: bool) -> Option<int> {
    if s.len() > 0 && (s[0] == '+' || (signed && s[0] == '-')) {
        let rest = s.drop_first();
        if rest.len() > 0 && all_digits(rest) {
            if s[0] == '-' {
                Some(-(digits_value(rest) as int))
            } else {
                Some(digits_value(rest) as int)
            }
        } else {
            None
        }
    } else if s.len() > 0 && all_digits(s) {
        Some(digits_value(s) as int)
    } else {
        None
    }
}

/// What `i64::from_str` gives for `s`.
pub open spec fn parsed_i64(s: Seq<char>) -> Option<i64> {
    match decimal_value(s, true) {
        Some(v) => if i64::MIN <= v <= i64::MAX {
            Some(v as i64)
        } else {
            None
        },
        None => None,
    }
}

/// What `i32::from_str` gives for `s`.
pub open spec fn parsed_i32(s: Seq<char>) -> Option<i32> {
    match decimal_value(s, true) {
        Some(v) => if i32::MIN <= v <= i32::MAX {
            Some(v as i32)
        } else {
            None
        },
        None => None,
    }
}

/// What `u64::from_str` gives for `s`.
pub open spec fn parsed_u64(s: Seq<char>) -> Option<u64> {
    match decimal_value(s, false) {
        Some(v) => if 0 <= v <= u64::MAX {
            Some(v as u64)
        } else {
            None
        },
        None => None,
    }
}

proof fn lemma_digits_value_monotone(s: Seq<char>, i: int)
    requires
        0 <= i <= s.len(),
        all_digits(s),
    ensures
        digits_value(s.take(i)) <= digits_value(s),
    decreases s.len() - i,
{
    if i < s.len() {
        lemma_digits_value_monotone(s, i + 1);
        assert(s.take(i + 1).drop_last() =~= s.take(i));
    } else {
        assert(s.take(i) =~= s);
    }
}

/// Reads a decimal numeral with an optional sign; `None` where the numeral is
/// malformed or its magnitude exceeds `u64::MAX`.
fn parse_decimal(s: &str, signed: bool) -> (r: Option<i128>)
    ensures
        match r {
            Some(v) => decimal_value(s@, signed) == Some(v as int),
            None => match decimal_value(s@, signed) {
                Some(v) => v < -(u64::MAX as int) || v > u64::MAX,
                None => true,
            },
        },
{
    if !s.is_ascii() {
        proof {
            assert(!is_ascii_chars(s@));
            let k = choose|k: int| 0 <= k < s@.len() && !('\0' <= #[trigger] s@[k] <= '\u{7f}');
            if s@.len() > 0 && (s@[0] == '+' || (signed && s@[0] == '-')) {
                assert(s@.drop_first()[k - 1] == s@[k]);
            }
        }
        return None;
    }
    let b = s.as_bytes();
    proof {
        is_ascii_chars_encode_utf8(s@);
    }
    let n = b.len();
    if n == 0 {
        return None;
    }
    let mut start: usize = 0;
    let mut negative = false;
    if b[0] == 43u8 {
        start = 1;
    } else if signed && b[0] == 45u8 {
        start = 1;
        negative = true;
    }
    if start == n {
        proof {
            if !(s@[0] == '+' || (signed && s@[0] == '-')) {
                assert(!is_digit(s@[0]));
            }
        }
        return None;
    }
    let ghost digits = s@.subrange(start as int, n as int);
    let mut acc: u128 = 0;
    let mut i: usize = start;
    while i < n
        invariant
            b@ == encode_utf8(s@),
            n == b@.len(),
            n == s@.len(),
            start <= i <= n,
            start <= 1,
            start < n,
            start == 0 ==> !(s@[0] == '+' || (signed && s@[0] == '-')),
            start == 1 ==> (s@[0] == '+' || (signed && s@[0] == '-')),
            negative == (start == 1 && s@[0] == '-'),
            digits == s@.subrange(start as int, n as int),
            forall|j: int| 0 <= j < n ==> s@[j] as u8 == b@[j],
            forall|j: int| 0 <= j < n ==> '\0' <= #[trigger] s@[j] <= '\u{7f}',
            all_digits(digits.take(i - start)),
            acc == digits_value(digits.take(i - start)),
            acc <= u64::MAX,
        decreases n - i,
    {
        let c = b[i];
        if c < 48u8 || c > 57u8 {
            proof {
                assert(!is_digit(digits[i - start]));
                if start == 1 {
                    assert(digits =~= s@.drop_first());
                } else {
                    assert(digits =~= s@);
                }
            }
            return None;
        }
        let d = (c - 48u8) as u128;
        proof {
            assert(digits.take(i - start + 1).drop_last() =~= digits.take(i - start));
            assert(digits.take(i - start + 1).last() == s@[i as int]);
        }
        acc = acc * 10 + d;
        i = i + 1;
        if acc > u64::MAX as u128 {
            proof {
                assert(all_digits(digits.take(i - start)));
                if all_digits(digits) {
                    lemma_digits_value_monotone(digits, i - start);
                }
                if start == 1 {
                    assert(digits =~= s@.drop_first());
                } else {
                    assert(digits =~= s@);
                }
            }
            return None;
        }
    }
    proof {
        assert(digits.take(n - start) =~= digits);
        if start == 1 {
            assert(digits =~= s@.drop_first());
        } else {
            assert(digits =~= s@);
            assert(is_digit(s@[0]));
        }
    }
    if negative {
        Some(-(acc as i128))
    } else {
        Some(acc as i128)
    }
}

/// Reads an `i64` as `i64::from_str` does.
pub fn parse_i64(s: &str) -> (r: Option<i64>)
    ensures
        r == parsed_i64(s@),
{
    match parse_decimal(s, true) {
        Some(v) => if v >= i64::MIN as i128 && v <= i64::MAX as i128 {
            Some(v as i64)
        } else {
            None
        },
        None => None,
    }
}

/// Reads an `i32` as `i32::from_str` does.
pub fn parse_i32(s: &str) -> (r: Option<i32>)
    ensures
        r == parsed_i32(s@),
{
    match parse_decimal(s, true) {
        Some(v) => if v >= i32::MIN as i128 && v <= i32::MAX as i128 {
            Some(v as i32)
        } else {
            None
        },
        None => None,
    }
}

/// Reads a `u64` as `u64::from_str` does.
pub fn parse_u64(s: &str) -> (r: Option<u64>)
    ensures
        r == parsed_u64(s@),
{
    match parse_decimal(s, false) {
        Some(v) => if v >= 0 && v <= u64::MAX as i128 {
            Some(v as u64)
        } else {
            None
        },
        None => None,
    }
}


/// The pieces of `s` between occurrences of `sep`, as `str::split` gives
/// them: empty pieces are kept, and an empty string gives one empty piece.
pub open spec fn split_seq(s: Seq<char>, sep: char) -> Seq<Seq<char>>
    decreases s.len(),
{
    if s.len() == 0 {
        seq![Seq::empty()]
    } else {
        let p = split_seq(s.drop_last(), sep);
        if s.last() == sep {
            p.push(Seq::empty())
        } else {
            p.update(p.len() - 1, p.last().push(s.last()))
        }
    }
}

/// A split always gives at least one piece.
pub proof fn lemma_split_nonempty(s: Seq<char>, sep: char)
    ensures
        split_seq(s, sep).len() >= 1,
    decreases s.len(),
{
    if s.len() > 0 {
        lemma_split_nonempty(s.drop_last(), sep);
    }
}

/// A text without the separator splits into itself alone.
pub proof fn lemma_split_without_sep(s: Seq<char>, sep: char)
    requires
        !s.contains(sep),
    ensures
        split_seq(s, sep) == seq![s],
    decreases s.len(),
{
    if s.len() > 0 {
        let a = s.drop_last();
        assert(!a.contains(sep)) by {
            if a.contains(sep) {
                let i = choose|i: int| 0 <= i < a.len() && a[i] == sep;
                assert(s[i] == sep);
            }
        }
        lemma_split_without_sep(a, sep);
        assert(s.last() != sep) by {
            assert(s[s.len() - 1] == s.last());
        }
        assert(a.push(s.last()) =~= s);
        let p = split_seq(a, sep);
        assert(split_seq(s, sep) == p.update(p.len() - 1, p.last().push(s.last())));
        assert(split_seq(s, sep) =~= seq![s]);
    } else {
        assert(s =~= Seq::<char>::empty());
    }
}

/// Splitting at a separator between two texts gives the pieces of the first
/// and then those of the second.
pub proof fn lemma_split_at_sep(a: Seq<char>, b: Seq<char>, sep: char)
    ensures
        split_seq(a.push(sep) + b, sep) == split_seq(a, sep) + split_seq(b, sep),
    decreases b.len(),
{
    lemma_split_nonempty(a, sep);
    lemma_split_nonempty(b, sep);
    if b.len() == 0 {
        assert(a.push(sep) + b =~= a.push(sep));
        assert(a.push(sep).drop_last() =~= a);
        assert(split_seq(a, sep) + split_seq(b, sep) =~= split_seq(a, sep).push(Seq::empty()));
    } else {
        let b1 = b.drop_last();
        let c = b.last();
        lemma_split_at_sep(a, b1, sep);
        lemma_split_nonempty(b1, sep);
        let s = a.push(sep) + b;
        assert(s.drop_last() =~= a.push(sep) + b1);
        assert(s.last() == c);
        let x = split_seq(a, sep);
        let y = split_seq(b1, sep);
        if c == sep {
            assert((x + y).push(Seq::empty()) =~= x + y.push(Seq::empty()));
        } else {
            assert((x + y).update((x + y).len() - 1, (x + y).last().push(c)) =~= x + y.update(
                y.len() - 1,
                y.last().push(c),
            ));
        }
    }
}

/// The views of a sequence of strings.
pub open spec fn views(v: Seq<String>) -> Seq<Seq<char>> {
    v.map_values(|x: String| x@)
}

/// Splits `s` at every `sep`, as `str::split` with a `char` pattern does.
pub fn split_char(s: &str, sep: char) -> (r: Vec<String>)
    ensures
        views(r@) == split_seq(s@, sep),
{
    let mut parts: Vec<String> = Vec::new();
    let mut cur = String::new();
    let ghost mut k: int = 0;
    for c in it: s.chars()
        invariant
            it.seq() == s@,
            k == it.index(),
            0 <= k <= s@.len(),
            views(parts@).push(cur@) == split_seq(s@.take(k), sep),
    {
        proof {
            lemma_split_nonempty(s@.take(k), sep);
            assert(s@.take(k + 1).drop_last() =~= s@.take(k));
            assert(s@.take(k + 1).last() == c);
        }
        if c == sep {
            let done = cur;
            parts.push(done);
            cur = String::new();
            proof {
                assert(views(parts@).push(cur@) =~= split_seq(s@.take(k), sep).push(Seq::empty()));
            }
        } else {
            let ghost before = cur@;
            push_char(&mut cur, c);
            proof {
                assert(views(parts@).push(cur@) =~= split_seq(s@.take(k), sep).update(
                    split_seq(s@.take(k), sep).len() - 1,
                    before.push(c),
                ));
            }
        }
        proof {
            k = k + 1;
        }
    }
    proof {
        assert(s@.take(k) =~= s@);
    }
    parts.push(cur);
    proof {
        assert(views(parts@) =~= split_seq(s@, sep));
    }
    parts
}


/// Appends a string slice to a string.
///
/// Calls `String::push_str`, whose documentation states that it appends the
/// given slice onto the end of the string.
#[verifier::external_body]
pub fn push_str(s: &mut String, t: &str)
    ensures
        final(s)@ == old(s)@ + t@,
{
    s.push_str(t);
}

/// The characters of a string slice.
pub fn chars_of(s: &str) -> (r: Vec<char>)
    ensures
        r@ == s@,
{
    let mut out: Vec<char> = Vec::new();
    let ghost mut k: int = 0;
    for c in it: s.chars()
        invariant
            it.seq() == s@,
            k == it.index(),
            0 <= k <= s@.len(),
            out@ == s@.take(k),
    {
        out.push(c);
        proof {
            assert(out@ =~= s@.take(k + 1));
            k = k + 1;
        }
    }
    proof {
        assert(s@.take(k) =~= s@);
    }
    out
}

/// Whether `s` begins with `p`.
pub open spec fn has_prefix(s: Seq<char>, p: Seq<char>) -> bool {
    p.len() <= s.len() && s.take(p.len() as int) == p
}

/// Whether the characters of `s` from `i` on begin with `p`.
fn matches_at(s: &Vec<char>, i: usize, p: &Vec<char>) -> (r: bool)
    requires
        i <= s@.len(),
    ensures
        r == has_prefix(s@.skip(i as int), p@),
{
    if p.len() > s.len() - i {
        return false;
    }
    let mut j: usize = 0;
    while j < p.len()
        invariant
            i + p@.len() <= s@.len(),
            s@.len() <= usize::MAX,
            j <= p@.len(),
            forall|k: int| 0 <= k < j ==> s@[i + k] == p@[k],
        decreases p@.len() - j,
    {
        if s[i + j] != p[j] {
            proof {
                assert(s@.skip(i as int).take(p@.len() as int)[j as int] != p@[j as int]);
            }
            return false;
        }
        j = j + 1;
    }
    proof {
        assert(s@.skip(i as int).take(p@.len() as int) =~= p@);
    }
    true
}

/// Whether `s` begins with `p`, as `str::starts_with` with a string slice.
pub fn starts_with(s: &str, p: &str) -> (r: bool)
    ensures
        r == has_prefix(s@, p@),
{
    let cs = chars_of(s);
    let ps = chars_of(p);
    proof {
        assert(cs@.skip(0) =~= cs@);
    }
    matches_at(&cs, 0, &ps)
}

/// `s` with every occurrence of `pat` replaced by `with`, scanning from the
/// front, as `str::replace` does for a pattern that is not empty.
pub open spec fn replace_all(s: Seq<char>, pat: Seq<char>, with: Seq<char>) -> Seq<char>
    decreases s.len(),
{
    if s.len() == 0 || pat.len() == 0 {
        s
    } else if has_prefix(s, pat) {
        with + replace_all(s.skip(pat.len() as int), pat, with)
    } else {
        seq![s[0]] + replace_all(s.drop_first(), pat, with)
    }
}

/// Replaces every occurrence of `pat` in `s` by `with`.
pub fn replace(s: &str, pat: &str, with: &str) -> (r: String)
    requires
        pat@.len() > 0,
    ensures
        r@ == replace_all(s@, pat@, with@),
{
    let cs = chars_of(s);
    let ps = chars_of(pat);
    let mut out = String::new();
    let mut i: usize = 0;
    proof {
        assert(cs@.skip(0) =~= cs@);
    }
    while i < cs.len()
        invariant
            cs@ == s@,
            ps@ == pat@,
            ps@.len() > 0,
            i <= cs@.len(),
            out@ + replace_all(cs@.skip(i as int), pat@, with@) == replace_all(s@, pat@, with@),
        decreases cs@.len() - i,
    {
        if matches_at(&cs, i, &ps) {
            let ghost before = out@;
            push_str(&mut out, with);
            proof {
                assert(cs@.skip(i as int).skip(ps@.len() as int) =~= cs@.skip(i + ps@.len()));
                assert(out@ + replace_all(cs@.skip(i + ps@.len()), pat@, with@) =~= before + (
                with@ + replace_all(cs@.skip(i as int).skip(ps@.len() as int), pat@, with@)));
            }
            i = i + ps.len();
        } else {
            let ghost before = out@;
            push_char(&mut out, cs[i]);
            proof {
                assert(cs@.skip(i as int).drop_first() =~= cs@.skip(i + 1));
                assert(out@ + replace_all(cs@.skip(i + 1), pat@, with@) =~= before + (seq![
                    cs@.skip(i as int)[0],
                ] + replace_all(cs@.skip(i as int).drop_first(), pat@, with@)));
            }
            i = i + 1;
        }
    }
    proof {
        assert(out@ =~= out@ + replace_all(cs@.skip(i as int), pat@, with@));
    }
    out
}

/// `s` without the copies of `c` that it begins with.
pub open spec fn trim_start_char(s: Seq<char>, c: char) -> Seq<char>
    decreases s.len(),
{
    if s.len() > 0 && s[0] == c {
        trim_start_char(s.drop_first(), c)
    } else {
        s
    }
}

/// Removes the copies of `c` that `s` begins with, as
/// `str::trim_start_matches` with a `char` pattern does.
pub fn trim_start_matches(s: &str, c: char) -> (r: String)
    ensures
        r@ == trim_start_char(s@, c),
{
    let cs = chars_of(s);
    let mut i: usize = 0;
    proof {
        assert(cs@.skip(0) =~= cs@);
    }
    while i < cs.len() && cs[i] == c
        invariant
            cs@ == s@,
            i <= cs@.len(),
            trim_start_char(cs@.skip(i as int), c) == trim_start_char(s@, c),
        decreases cs@.len() - i,
    {
        proof {
            assert(cs@.skip(i as int).drop_first() =~= cs@.skip(i + 1));
        }
        i = i + 1;
    }
    let mut out = String::new();
    let mut j: usize = i;
    while j < cs.len()
        invariant
            cs@ == s@,
            i <= j <= cs@.len(),
            out@ == cs@.subrange(i as int, j as int),
        decreases cs@.len() - j,
    {
        push_char(&mut out, cs[j]);
        proof {
            assert(out@ =~= cs@.subrange(i as int, j + 1));
        }
        j = j + 1;
    }
    proof {
        assert(out@ =~= cs@.skip(i as int));
    }
    out
}


/// Whether `p` occurs somewhere in `s`.
pub open spec fn has_infix(s: Seq<char>, p: Seq<char>) -> bool {
    exists|i: int| 0 <= i <= s.len() && #[trigger] has_prefix(s.skip(i), p)
}

/// Whether `p` occurs in `s`, as `str::contains` with a string slice.
pub fn contains(s: &str, p: &str) -> (r: bool)
    ensures
        r == has_infix(s@, p@),
{
    let cs = chars_of(s);
    let ps = chars_of(p);
    let mut i: usize = 0;
    while i < cs.len()
        invariant
            cs@ == s@,
            ps@ == p@,
            i <= cs@.len(),
            forall|k: int| 0 <= k < i ==> !#[trigger] has_prefix(s@.skip(k), p@),
        decreases cs@.len() - i,
    {
        if matches_at(&cs, i, &ps) {
            return true;
        }
        i = i + 1;
    }
    if matches_at(&cs, i, &ps) {
        return true;
    }
    proof {
        assert forall|k: int| 0 <= k <= s@.len() implies !#[trigger] has_prefix(s@.skip(k), p@) by {
            assert(k < i || k == i);
        }
    }
    false
}

/// `pieces` joined with `sep` between each two.
pub open spec fn join_seq(pieces: Seq<Seq<char>>, sep: Seq<char>) -> Seq<char>
    decreases pieces.len(),
{
    if pieces.len() == 0 {
        Seq::empty()
    } else if pieces.len() == 1 {
        pieces[0]
    } else {
        join_seq(pieces.drop_last(), sep) + sep + pieces.last()
    }
}

/// Joins `pieces` with `sep` between each two, as `[String]::join` does.
pub fn join(pieces: &Vec<String>, sep: &str) -> (r: String)
    ensures
        r@ == join_seq(views(pieces@), sep@),
{
    let mut out = String::new();
    let mut i: usize = 0;
    while i < pieces.len()
        invariant
            i <= pieces@.len(),
            out@ == join_seq(views(pieces@.take(i as int)), sep@),
        decreases pieces@.len() - i,
    {
        proof {
            assert(views(pieces@.take(i + 1)).drop_last() =~= views(pieces@.take(i as int)));
            assert(views(pieces@.take(i + 1)).last() == pieces@[i as int]@);
        }
        if i > 0 {
            push_str(&mut out, sep);
        } else {
            proof {
                assert(views(pieces@.take(1)) =~= seq![pieces@[0]@]);
                assert(out@ =~= Seq::<char>::empty());
            }
        }
        push_str(&mut out, pieces[i].as_str());
        i = i + 1;
    }
    proof {
        assert(pieces@.take(pieces@.len() as int) =~= pieces@);
    }
    out
}


/// The characters of `cs` from `from` to `to`, as a string.
pub fn string_of(cs: &Vec<char>, from: usize, to: usize) -> (r: String)
    requires
        from <= to <= cs@.len(),
    ensures
        r@ == cs@.subrange(from as int, to as int),
{
    let mut out = String::new();
    let mut j: usize = from;
    while j < to
        invariant
            from <= j <= to,
            to <= cs@.len(),
            out@ == cs@.subrange(from as int, j as int),
        decreases to - j,
    {
        push_char(&mut out, cs[j]);
        proof {
            assert(out@ =~= cs@.subrange(from as int, j + 1));
        }
        j = j + 1;
    }
    out
}

/// Whether `c` has the Unicode `White_Space` property.
pub open spec fn is_white(c: char) -> bool {
    let v = c as u32;
    ||| 0x09 <= v <= 0x0d
    ||| v == 0x20
    ||| v == 0x85
    ||| v == 0xa0
    ||| v == 0x1680
    ||| 0x2000 <= v <= 0x200a
    ||| v == 0x2028
    ||| v == 0x2029
    ||| v == 0x202f
    ||| v == 0x205f
    ||| v == 0x3000
}

/// Whether `c` is whitespace (the Unicode `White_Space` property).
pub fn is_whitespace(c: char) -> (r: bool)
    ensures
        r == is_white(c),
{
    let v = c as u32;
    (0x09 <= v && v <= 0x0d) || v == 0x20 || v == 0x85 || v == 0xa0 || v == 0x1680 || (0x2000 <= v
        && v <= 0x200a) || v == 0x2028 || v == 0x2029 || v == 0x202f || v == 0x205f || v == 0x3000
}

/// The index of the first character at or after `i` that is not whitespace
/// (the length, if there is none).
pub open spec fn white_run_end(s: Seq<char>, i: int) -> int
    decreases s.len() - i,
{
    if 0 <= i < s.len() && is_white(s[i]) {
        white_run_end(s, i + 1)
    } else {
        i
    }
}

/// The index just after the last character before `j`, and at or after
/// `lo`, that is not whitespace (`lo`, if there is none).
pub open spec fn white_run_start(s: Seq<char>, lo: int, j: int) -> int
    decreases j - lo,
{
    if lo < j && is_white(s[j - 1]) {
        white_run_start(s, lo, j - 1)
    } else {
        j
    }
}

/// `s` without its leading and trailing whitespace.
pub open spec fn trimmed(s: Seq<char>) -> Seq<char> {
    let a = white_run_end(s, 0);
    s.subrange(a, white_run_start(s, a, s.len() as int))
}

/// Whether every character of `s` is whitespace.
pub open spec fn all_white(s: Seq<char>) -> bool {
    forall|i: int| 0 <= i < s.len() ==> is_white(#[trigger] s[i])
}

/// `s` without its leading and trailing whitespace.
pub fn trim(s: &str) -> (r: String)
    ensures
        r@ == trimmed(s@),
{
    let cs = chars_of(s);
    let n = cs.len();
    let mut a: usize = 0;
    while a < n && is_whitespace(cs[a])
        invariant
            cs@ == s@,
            n == cs@.len(),
            a <= n,
            white_run_end(s@, a as int) == white_run_end(s@, 0),
        decreases n - a,
    {
        a = a + 1;
    }
    let mut b: usize = n;
    while b > a && is_whitespace(cs[b - 1])
        invariant
            cs@ == s@,
            n == cs@.len(),
            a <= b <= n,
            a == white_run_end(s@, 0),
            white_run_start(s@, a as int, b as int) == white_run_start(s@, a as int, n as int),
        decreases b - a,
    {
        b = b - 1;
    }
    string_of(&cs, a, b)
}

/// Whether `s` is empty once trimmed, that is, holds only whitespace.
pub fn is_blank(s: &str) -> (r: bool)
    ensures
        r == all_white(s@),
{
    let cs = chars_of(s);
    let mut i: usize = 0;
    while i < cs.len()
        invariant
            cs@ == s@,
            i <= cs@.len(),
            forall|j: int| 0 <= j < i ==> is_white(#[trigger] s@[j]),
        decreases cs@.len() - i,
    {
        if !is_whitespace(cs[i]) {
            return false;
        }
        i = i + 1;
    }
    true
}

/// The ASCII character of a decimal digit.
pub open spec fn digit_char(d: int) -> char {
    (48 + d) as char
}

/// The decimal numeral of `n`, without leading zeros.
pub open spec fn nat_text(n: nat) -> Seq<char>
    decreases n,
{
    if n < 10 {
        seq![digit_char(n as int)]
    } else {
        nat_text(n / 10).push(digit_char((n % 10) as int))
    }
}

/// The decimal numeral of `n`, with a `-` in front of a negative number, as
/// `Display` writes an integer.
pub open spec fn int_text(n: int) -> Seq<char> {
    if n < 0 {
        seq!['-'] + nat_text((-n) as nat)
    } else {
        nat_text(n as nat)
    }
}

/// Appends the decimal numeral of `n` to `s`.
pub fn push_u64(s: &mut String, n: u64)
    ensures
        final(s)@ == old(s)@ + nat_text(n as nat),
    decreases n,
{
    if n >= 10 {
        push_u64(s, n / 10);
    }
    let d = (n % 10) as u8;
    push_char(s, (48u8 + d) as char);
    assert(final(s)@ =~= old(s)@ + nat_text(n as nat));
}

/// Appends the decimal numeral of `n`, with its sign, to `s`.
pub fn push_i64(s: &mut String, n: i64)
    ensures
        final(s)@ == old(s)@ + int_text(n as int),
{
    if n < 0 {
        push_char(s, '-');
        let m: u64 = if n == i64::MIN {
            9223372036854775808u64
        } else {
            (-n) as u64
        };
        push_u64(s, m);
        assert(final(s)@ =~= old(s)@ + int_text(n as int));
    } else {
        push_u64(s, n as u64);
    }
}

/// Every character of a numeral is a digit, and reading it gives the number
/// back.
pub proof fn lemma_nat_text_digits(n: nat)
    ensures
        nat_text(n).len() >= 1,
        all_digits(nat_text(n)),
        digits_value(nat_text(n)) == n,
    decreases n,
{
    let d = (n % 10) as int;
    assert(digit_char(d) as nat == 48 + d);
    assert('0' as nat == 48);
    let t = nat_text(n);
    assert(t.drop_last().len() == 0 ==> digits_value(t.drop_last()) == 0);
    assert(digits_value(t) == digits_value(t.drop_last()) * 10 + (t.last() as nat - '0' as nat) as nat);
    if n >= 10 {
        lemma_nat_text_digits(n / 10);
        assert(t.drop_last() =~= nat_text(n / 10));
        assert(t.last() == digit_char(d));
        assert((n / 10) * 10 + n % 10 == n);
        assert forall|i: int| 0 <= i < t.len() implies is_digit(#[trigger] t[i]) by {
            if i < t.len() - 1 {
                assert(t[i] == nat_text(n / 10)[i]);
            }
        }
    }
}

/// `s` without the copies of `c` that it ends with.
pub open spec fn trim_end_char(s: Seq<char>, c: char) -> Seq<char>
    decreases s.len(),
{
    if s.len() > 0 && s.last() == c {
        trim_end_char(s.drop_last(), c)
    } else {
        s
    }
}

/// Whether `s` ends with `c`.
pub open spec fn ends_with_char(s: Seq<char>, c: char) -> bool {
    s.len() > 0 && s.last() == c
}

/// Removes the copies of `c` that `s` ends with, as `str::trim_end_matches`
/// with a `char` pattern does.
pub fn trim_end_matches(s: &str, c: char) -> (r: String)
    ensures
        r@ == trim_end_char(s@, c),
{
    let cs = chars_of(s);
    let mut j: usize = cs.len();
    proof {
        assert(cs@.take(j as int) =~= cs@);
    }
    while j > 0 && cs[j - 1] == c
        invariant
            cs@ == s@,
            j <= cs@.len(),
            trim_end_char(cs@.take(j as int), c) == trim_end_char(s@, c),
        decreases j,
    {
        proof {
            assert(cs@.take(j as int).drop_last() =~= cs@.take(j - 1));
        }
        j = j - 1;
    }
    proof {
        assert(cs@.subrange(0, j as int) =~= cs@.take(j as int));
    }
    string_of(&cs, 0, j)
}

/// Whether `s` ends with `c`, as `str::ends_with` with a `char` pattern.
pub fn ends_with(s: &str, c: char) -> (r: bool)
    ensures
        r == ends_with_char(s@, c),
{
    let cs = chars_of(s);
    cs.len() > 0 && cs[cs.len() - 1] == c
}

} // verus!
