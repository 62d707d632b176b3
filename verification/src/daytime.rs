//! Calendar days and clock times of instants, in China time (UTC+8), and
//! their `YYYY-MM-DD` / `HH:MM` texts.
use vstd::prelude::*;
use crate::text::{
    is_digit, lemma_padded_digits, lemma_split_join, lemma_split_single, padded, push_padded, split,
};

verus! {

/// The day number (from 1970-01-01) of an instant in China time.
pub open spec fn local_day(micros: int) -> int {
    (micros + 28_800_000_000) / 86_400_000_000
}

/// A clock reading (microseconds since the epoch) held at the last instant
/// whose China-time day can still be formed.
pub open spec fn clamped_reading(micros: int) -> int {
    if micros > i64::MAX - 28_800_000_000 {
        i64::MAX - 28_800_000_000
    } else {
        micros
    }
}

/// Seconds since midnight (China time) of an instant.
pub open spec fn local_seconds(micros: int) -> int {
    ((micros + 28_800_000_000) % 86_400_000_000) / 1_000_000
}

/// `HH:MM` of a number of seconds.
pub open spec fn clock_label(seconds: int) -> Seq<char> {
    padded(seconds / 3600, 2) + seq![':'] + padded(seconds % 3600 / 60, 2)
}

/// `YYYY-MM-DD`, each field zero padded.
pub open spec fn date_text(y: int, m: int, d: int) -> Seq<char> {
    padded(y, 4) + seq!['-'] + padded(m, 2) + seq!['-'] + padded(d, 2)
}

/// Appends `YYYY-MM-DD`.
pub fn push_date(out: &mut String, y: i64, m: u32, d: u32)
    ensures
        final(out)@ == old(out)@ + date_text(y as int, m as int, d as int),
{
    proof {
        reveal_strlit("-");
    }
    push_padded(out, y, 4);
    out.append("-");
    push_padded(out, m as i64, 2);
    out.append("-");
    push_padded(out, d as i64, 2);
    proof {
        assert(final(out)@ =~= old(out)@ + date_text(y as int, m as int, d as int));
    }
}

/// Appends `HH:MM` of a number of seconds.
pub fn push_clock(out: &mut String, seconds: i64)
    requires
        seconds >= 0,
    ensures
        final(out)@ == old(out)@ + clock_label(seconds as int),
{
    proof {
        reveal_strlit(":");
    }
    push_padded(out, seconds / 3600, 2);
    out.append(":");
    push_padded(out, seconds % 3600 / 60, 2);
}

/// Day number and seconds of day, China time.
pub fn local_parts(micros: i64) -> (r: (i64, i64))
    requires
        micros <= i64::MAX - 28_800_000_000,
    ensures
        r.0 == local_day(micros as int),
        r.1 == (micros + 28_800_000_000) % 86_400_000_000,
        r.0 <= i64::MAX / 86_400_000_000,
        0 <= r.1 < 86_400_000_000,
{
    let local = micros + 28_800_000_000;
    let days = match local.checked_div_euclid(86_400_000_000) {
        Some(q) => q,
        None => 0,
    };
    (days, local - days * 86_400_000_000)
}

/// `YYYY-MM-DD` of a date with no negative field: its fields are the
/// pieces between the `-`, and it is made of digits and `-`, starting and
/// ending with a digit.
pub proof fn lemma_date_text_split(y: int, m: int, d: int)
    requires
        y >= 0,
        m >= 0,
        d >= 0,
    ensures
        split(date_text(y, m, d), '-') == seq![padded(y, 4), padded(m, 2), padded(d, 2)],
        forall|i: int|
            0 <= i < date_text(y, m, d).len() ==> is_digit(#[trigger] date_text(y, m, d)[i])
                || date_text(y, m, d)[i] == '-',
        is_digit(date_text(y, m, d)[0]),
        is_digit(date_text(y, m, d).last()),
{
    let s = date_text(y, m, d);
    let p = padded(y, 4);
    let q = padded(m, 2);
    let r = padded(d, 2);
    lemma_padded_digits(y, 4);
    lemma_padded_digits(m, 2);
    lemma_padded_digits(d, 2);
    lemma_split_single(p, '-');
    lemma_split_single(q, '-');
    lemma_split_single(r, '-');
    lemma_split_join(p, q, '-');
    lemma_split_join(p + seq!['-'] + q, r, '-');
    assert(split(s, '-') =~= seq![p, q, r]);
    assert(s[0] == p[0]);
    assert(s.last() == r.last());
    assert forall|i: int| 0 <= i < s.len() implies is_digit(#[trigger] s[i]) || s[i] == '-' by {
        if i < p.len() {
            assert(s[i] == p[i]);
        } else if i == p.len() {
        } else if i < p.len() + 1 + q.len() {
            assert(s[i] == q[i - p.len() - 1]);
        } else if i == p.len() + 1 + q.len() {
        } else {
            assert(s[i] == r[i - p.len() - 2 - q.len()]);
        }
    }
}

/// `HH:MM` of a whole minute of the day: hour and minute are the pieces
/// around the `:`, and it is made of digits and `:`, starting and ending
/// with a digit.
pub proof fn lemma_clock_label_split(h: int, mi: int)
    requires
        0 <= h < 24,
        0 <= mi < 60,
    ensures
        split(clock_label(h * 3600 + mi * 60), ':') == seq![padded(h, 2), padded(mi, 2)],
        forall|i: int|
            0 <= i < clock_label(h * 3600 + mi * 60).len() ==> is_digit(
                #[trigger] clock_label(h * 3600 + mi * 60)[i],
            ) || clock_label(h * 3600 + mi * 60)[i] == ':',
        is_digit(clock_label(h * 3600 + mi * 60)[0]),
        is_digit(clock_label(h * 3600 + mi * 60).last()),
{
    let v = h * 3600 + mi * 60;
    assert(v / 3600 == h && v % 3600 / 60 == mi) by (nonlinear_arith)
        requires
            0 <= h < 24,
            0 <= mi < 60,
            v == h * 3600 + mi * 60,
    ;
    let p = padded(h, 2);
    let q = padded(mi, 2);
    lemma_padded_digits(h, 2);
    lemma_padded_digits(mi, 2);
    lemma_split_single(p, ':');
    lemma_split_single(q, ':');
    lemma_split_join(p, q, ':');
    let s = clock_label(v);
    assert(s =~= p + seq![':'] + q);
    assert(split(s, ':') =~= seq![p, q]);
    assert forall|i: int| 0 <= i < s.len() implies is_digit(#[trigger] s[i]) || s[i] == ':' by {
        if i < p.len() {
            assert(s[i] == p[i]);
        } else if i > p.len() {
            assert(s[i] == q[i - p.len() - 1]);
        }
    }
}

} // verus!
