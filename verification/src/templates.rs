//! What the page templates compute: the text of a video length.

use vstd::prelude::*;
use crate::text::{
    all_digits, digits_value, int_text, is_digit, lemma_nat_text_digits, nat_text, parsed_i32, push_char,
    push_i64, push_str, split_seq,
};
use crate::yt_backend::extractors::length_seconds_of;

verus! {

/// `a / b` rounded toward zero, as Rust's integer division does.
pub open spec fn quot(a: int, b: int) -> int {
    if a >= 0 {
        a / b
    } else {
        -((-a) / b)
    }
}

/// The remainder of `quot`, with the sign of `a`, as Rust's `%` does.
pub open spec fn rem(a: int, b: int) -> int {
    a - b * quot(a, b)
}

/// `v` written with at least two characters, a zero in front of a single
/// digit, as `{:02}` writes an integer.
pub open spec fn two_digits(v: int) -> Seq<char> {
    if 0 <= v < 10 {
        seq!['0'] + int_text(v)
    } else {
        int_text(v)
    }
}

/// The text of a length of `seconds`: `h:mm:ss` where there are whole hours,
/// else `m:ss`.
pub open spec fn length_text(seconds: int) -> Seq<char> {
    let h = quot(seconds, 3600);
    let m = quot(rem(seconds, 3600), 60);
    let s = rem(seconds, 60);
    if h > 0 {
        int_text(h) + ":"@ + two_digits(m) + ":"@ + two_digits(s)
    } else {
        int_text(m) + ":"@ + two_digits(s)
    }
}

fn push_two_digits(out: &mut String, v: i64)
    ensures
        final(out)@ == old(out)@ + two_digits(v as int),
{
    if 0 <= v && v < 10 {
        push_char(out, '0');
        push_i64(out, v);
        assert(final(out)@ =~= old(out)@ + two_digits(v as int));
    } else {
        push_i64(out, v);
    }
}

/// Format a length in seconds as `h:mm:ss`, or `m:ss` under an hour.
pub fn format_length(seconds: i64) -> (r: String)
    ensures
        r@ == length_text(seconds as int),
{
    let hours = seconds / 3600;
    let minutes = (seconds % 3600) / 60;
    let secs = seconds % 60;
    assert(hours == quot(seconds as int, 3600));
    assert(minutes == quot(rem(seconds as int, 3600), 60));
    assert(secs == rem(seconds as int, 60));
    let mut r = String::new();
    if hours > 0 {
        push_i64(&mut r, hours);
        push_str(&mut r, ":");
        push_two_digits(&mut r, minutes);
        push_str(&mut r, ":");
        push_two_digits(&mut r, secs);
    } else {
        push_i64(&mut r, minutes);
        push_str(&mut r, ":");
        push_two_digits(&mut r, secs);
    }
    assert(r@ =~= length_text(seconds as int));
    r
}

proof fn lemma_no_sep_prefix(t: Seq<char>, sep: char)
    requires
        t.len() > 0,
        !t.contains(sep),
    ensures
        !t.drop_last().contains(sep),
        t.last() != sep,
{
    if t.drop_last().contains(sep) {
        let k = choose|k: int| 0 <= k < t.drop_last().len() && t.drop_last()[k] == sep;
        assert(t[k] == sep);
    }
    assert(t[t.len() - 1] == t.last());
}

proof fn lemma_split_single(t: Seq<char>, sep: char)
    requires
        !t.contains(sep),
    ensures
        split_seq(t, sep) == seq![t],
    decreases t.len(),
{
    if t.len() > 0 {
        lemma_no_sep_prefix(t, sep);
        lemma_split_single(t.drop_last(), sep);
        let p = split_seq(t.drop_last(), sep);
        assert(split_seq(t, sep) == p.update(p.len() - 1, p.last().push(t.last())));
        assert(t.drop_last().push(t.last()) =~= t);
        assert(split_seq(t, sep) =~= seq![t]);
    } else {
        assert(t =~= Seq::<char>::empty());
    }
}

proof fn lemma_split_append(s: Seq<char>, t: Seq<char>, sep: char)
    requires
        !t.contains(sep),
    ensures
        split_seq(s.push(sep) + t, sep) == split_seq(s, sep).push(t),
    decreases t.len(),
{
    let u = s.push(sep) + t;
    if t.len() == 0 {
        assert(u =~= s.push(sep));
        assert(s.push(sep).drop_last() =~= s);
        assert(t =~= Seq::<char>::empty());
        assert(split_seq(u, sep) == split_seq(s, sep).push(Seq::empty()));
    } else {
        lemma_no_sep_prefix(t, sep);
        lemma_split_append(s, t.drop_last(), sep);
        assert(u.drop_last() =~= s.push(sep) + t.drop_last());
        assert(u.last() == t.last());
        let p = split_seq(u.drop_last(), sep);
        assert(p == split_seq(s, sep).push(t.drop_last()));
        assert(split_seq(u, sep) == p.update(p.len() - 1, p.last().push(t.last())));
        assert(t.drop_last().push(t.last()) =~= t);
        assert(split_seq(u, sep) =~= split_seq(s, sep).push(t));
    }
}

proof fn lemma_digits_no_colon(t: Seq<char>)
    requires
        all_digits(t),
    ensures
        !t.contains(':'),
{
    if t.contains(':') {
        let k = choose|k: int| 0 <= k < t.len() && t[k] == ':';
        assert(is_digit(t[k]));
    }
}

proof fn lemma_two_digits(v: int)
    requires
        0 <= v < 60,
    ensures
        two_digits(v).len() >= 1,
        all_digits(two_digits(v)),
        digits_value(two_digits(v)) == v,
{
    lemma_nat_text_digits(v as nat);
    if v < 10 {
        let t = two_digits(v);
        let z = seq!['0'];
        assert(t =~= seq!['0', nat_text(v as nat)[0]]);
        assert(t.drop_last() =~= z);
        assert(z.drop_last() =~= Seq::<char>::empty());
        assert('0' as nat == 48);
        assert(digits_value(z) == digits_value(z.drop_last()) * 10 + (z.last() as nat - '0' as nat) as nat);
        assert(digits_value(z) == 0);
        assert(nat_text(v as nat)[0] as nat == 48 + v);
        assert(digits_value(t) == digits_value(t.drop_last()) * 10 + (t.last() as nat - '0' as nat) as nat);
        assert(t.last() == nat_text(v as nat)[0]);
        assert(forall|i: int| 0 <= i < t.len() ==> is_digit(#[trigger] t[i])) by {
            assert(is_digit(nat_text(v as nat)[0]));
        }
    }
}

proof fn lemma_parsed_digits(t: Seq<char>)
    requires
        t.len() >= 1,
        all_digits(t),
        digits_value(t) <= i32::MAX,
    ensures
        parsed_i32(t) == Some(digits_value(t) as i32),
{
    assert(is_digit(t[0]));
}

proof fn lemma_int_text_reads_back(v: int)
    requires
        i32::MIN < v <= i32::MAX,
    ensures
        !int_text(v).contains(':'),
        parsed_i32(int_text(v)) == Some(v as i32),
{
    if v >= 0 {
        lemma_nat_text_digits(v as nat);
        lemma_digits_no_colon(int_text(v));
        lemma_parsed_digits(int_text(v));
    } else {
        let t = nat_text((-v) as nat);
        let s = int_text(v);
        lemma_nat_text_digits((-v) as nat);
        lemma_digits_no_colon(t);
        assert(s.drop_first() =~= t);
        assert(s[0] == '-');
        if s.contains(':') {
            let k = choose|k: int| 0 <= k < s.len() && s[k] == ':';
            if k > 0 {
                assert(s[k] == t[k - 1]);
            }
        }
    }
}

proof fn lemma_two_digits_reads_back(v: int)
    requires
        -60 < v < 60,
    ensures
        !two_digits(v).contains(':'),
        parsed_i32(two_digits(v)) == Some(v as i32),
{
    if 0 <= v < 10 {
        lemma_two_digits(v);
        lemma_digits_no_colon(two_digits(v));
        lemma_parsed_digits(two_digits(v));
    } else {
        lemma_int_text_reads_back(v);
    }
}

/// The text of a length reads back as the same number of seconds:
/// `parse_length_seconds` of what `format_length` writes gives that length,
/// for every length that fits in an `i32` and is above minus one hour.
pub proof fn lemma_length_text_round_trip(n: int)
    requires
        -3600 < n <= i32::MAX,
    ensures
        length_seconds_of(length_text(n)) == Some(n as i32),
{
    reveal_strlit(":");
    let h = quot(n, 3600);
    let m = quot(rem(n, 3600), 60);
    let x = rem(n, 60);
    if n >= 0 {
        assert(h == n / 3600 && m == (n % 3600) / 60 && x == n % 60);
        assert(n == h * 3600 + m * 60 + x) by (nonlinear_arith)
            requires
                h == n / 3600,
                m == (n % 3600) / 60,
                x == n % 60,
                n >= 0,
        ;
        assert(0 <= m < 60 && 0 <= x < 60);
    } else {
        assert(h == 0);
        assert(rem(n, 3600) == n);
        let a = -n;
        assert(m == -(a / 60) && x == n + 60 * (a / 60));
        assert(0 <= a - 60 * (a / 60) < 60) by (nonlinear_arith)
            requires
                a > 0,
        ;
        assert(a / 60 < 60) by (nonlinear_arith)
            requires
                0 < a < 3600,
        ;
        assert(n == m * 60 + x);
        assert(-60 < m <= 0 && -60 < x <= 0);
    }
    lemma_two_digits_reads_back(x);
    let tx = two_digits(x);
    if h > 0 {
        lemma_two_digits_reads_back(m);
        let tm = two_digits(m);
        let th = int_text(h);
        assert(h <= i32::MAX);
        lemma_int_text_reads_back(h);
        lemma_split_single(th, ':');
        lemma_split_append(th, tm, ':');
        let front = th.push(':') + tm;
        lemma_split_append(front, tx, ':');
        assert(length_text(n) =~= front.push(':') + tx);
        let parts = split_seq(length_text(n), ':');
        assert(parts =~= seq![th, tm, tx]);
        assert(parsed_i32(parts[0]) == Some(h as i32));
        assert(parsed_i32(parts[1]) == Some(m as i32));
        assert(parsed_i32(parts[2]) == Some(x as i32));
    } else {
        let t0 = int_text(m);
        lemma_int_text_reads_back(m);
        lemma_split_single(t0, ':');
        lemma_split_append(t0, tx, ':');
        assert(length_text(n) =~= t0.push(':') + tx);
        let parts = split_seq(length_text(n), ':');
        assert(parts =~= seq![t0, tx]);
        assert(parsed_i32(parts[0]) == Some(m as i32));
        assert(parsed_i32(parts[1]) == Some(x as i32));
    }
}

} // verus!
