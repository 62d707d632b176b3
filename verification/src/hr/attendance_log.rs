//! The attendance records page: its tallies and its name and status filter.
use vstd::prelude::*;
use crate::records::Attendance;
use crate::tally::{count, lemma_count_step, lemma_take_all};
use crate::text::{contains, contains_str, lowercase, padded, push_padded, str_eq, to_lowercase};

verus! {

broadcast use vstd::seq_lib::group_seq_properties;

pub open spec fn is_normal() -> spec_fn(Attendance) -> bool {
    |a: Attendance| a.status == Some(0i8)
}

/// Late, early, late and early, or absent.
pub open spec fn is_irregular() -> spec_fn(Attendance) -> bool {
    |a: Attendance| a.status matches Some(v) && 1 <= v <= 4
}

pub open spec fn has_punched_out() -> spec_fn(Attendance) -> bool {
    |a: Attendance| a.punch_out is Some
}

/// Normal days, irregular days (late, early, absent) and days with a
/// punch-out, over all records.
pub fn log_counts(rows: &[Attendance]) -> (r: (usize, usize, usize))
    ensures
        r.0 == count(rows@, is_normal()),
        r.1 == count(rows@, is_irregular()),
        r.2 == count(rows@, has_punched_out()),
        r.0 == count(rows@, |a: Attendance| a.status == Some(0i8)),
        r.1 == count(
            rows@,
            |a: Attendance| a.status == Some(1i8) || a.status == Some(2i8) || a.status == Some(3i8) || a.status == Some(4i8),
        ),
        r.2 == count(rows@, |a: Attendance| a.punch_out is Some),
        r.0 + r.1 <= rows@.len(),
{
    proof {
        lemma_log_count_kinds(rows@);
    }
    let ghost pn = is_normal();
    let ghost pi = is_irregular();
    let ghost pc = has_punched_out();
    let mut normal: usize = 0;
    let mut irregular: usize = 0;
    let mut completed: usize = 0;
    let mut i: usize = 0;
    while i < rows.len()
        invariant
            0 <= i <= rows@.len(),
            pn == is_normal(),
            pi == is_irregular(),
            pc == has_punched_out(),
            normal == count(rows@.take(i as int), pn),
            irregular == count(rows@.take(i as int), pi),
            completed == count(rows@.take(i as int), pc),
            normal + irregular <= i,
            completed <= i,
        decreases rows@.len() - i,
    {
        proof {
            lemma_count_step(rows@, pn, i as int);
            lemma_count_step(rows@, pi, i as int);
            lemma_count_step(rows@, pc, i as int);
        }
        match rows[i].status {
            Some(v) => {
                if v == 0 {
                    normal = normal + 1;
                } else if 1 <= v && v <= 4 {
                    irregular = irregular + 1;
                }
            },
            None => {},
        }
        if rows[i].punch_out.is_some() {
            completed = completed + 1;
        }
        i = i + 1;
    }
    proof {
        lemma_take_all(rows@);
    }
    (normal, irregular, completed)
}

/// The figures of the records page count, over all records: normal days
/// (status 0), irregular days (status 1 late, 2 early, 3 late and early,
/// 4 absent) and days with a punch-out. A record is never both normal and
/// irregular, and adding a record of status 1 to 4 adds one irregular day.
pub proof fn lemma_log_count_kinds(rows: Seq<Attendance>)
    ensures
        count(rows, is_normal()) == count(rows, |a: Attendance| a.status == Some(0i8)),
        count(rows, is_irregular()) == count(
            rows,
            |a: Attendance| a.status == Some(1i8) || a.status == Some(2i8) || a.status == Some(3i8) || a.status == Some(4i8),
        ),
        count(rows, has_punched_out()) == count(rows, |a: Attendance| a.punch_out is Some),
        count(rows, is_normal()) + count(rows, is_irregular()) <= rows.len(),
        forall|a: Attendance|
            #![trigger rows.push(a)]
            (a.status == Some(1i8) || a.status == Some(2i8) || a.status == Some(3i8) || a.status == Some(4i8))
                ==> count(rows.push(a), is_irregular()) == count(rows, is_irregular()) + 1,
{
    assert(is_normal() =~= |a: Attendance| a.status == Some(0i8));
    assert(is_irregular() =~= |a: Attendance|
        a.status == Some(1i8) || a.status == Some(2i8) || a.status == Some(3i8) || a.status == Some(4i8));
    assert(has_punched_out() =~= |a: Attendance| a.punch_out is Some);
    crate::tally::lemma_count_disjoint(rows, is_normal(), is_irregular());
    assert forall|a: Attendance|
        #![trigger rows.push(a)]
        (a.status == Some(1i8) || a.status == Some(2i8) || a.status == Some(3i8) || a.status == Some(4i8))
            implies count(rows.push(a), is_irregular()) == count(rows, is_irregular()) + 1 by {
        assert(rows.push(a).drop_last() =~= rows);
    }
}

/// A record is shown for a lower-cased query and a status filter when the
/// query is empty or occurs in the lower-cased account name, and the filter
/// is `all` or spells the record's status.
pub open spec fn log_shows(a: Attendance, query: Seq<char>, status: Seq<char>) -> bool {
    &&& (query.len() == 0 || contains(lowercase(a.username@), query))
    &&& (status == "all"@ || (a.status matches Some(v) && padded(v as int, 0) == status))
}

/// Places of the records shown.
pub open spec fn log_places(rows: Seq<Attendance>, query: Seq<char>, status: Seq<char>) -> Seq<int>
    decreases rows.len(),
{
    if rows.len() == 0 {
        Seq::empty()
    } else {
        log_places(rows.drop_last(), query, status) + if log_shows(rows.last(), query, status) {
            seq![rows.len() - 1]
        } else {
            Seq::empty()
        }
    }
}

fn shows(a: &Attendance, query: &str, status: &str) -> (r: bool)
    ensures
        r == log_shows(*a, query@, status@),
{
    if query.unicode_len() != 0 {
        let name = to_lowercase(a.username.as_str());
        if !contains_str(name.as_str(), query) {
            return false;
        }
    }
    if str_eq(status, "all") {
        return true;
    }
    match a.status {
        Some(v) => {
            let mut spelled = String::new();
            push_padded(&mut spelled, v as i64, 0);
            proof {
                assert(Seq::<char>::empty() + padded(v as int, 0) =~= padded(v as int, 0));
            }
            str_eq(spelled.as_str(), status)
        },
        None => false,
    }
}

/// The places of the records shown for a keyword (lower-cased, not
/// trimmed) and a status filter, in order.
pub fn filter_log(rows: &[Attendance], keyword: &str, status: &str) -> (r: Vec<usize>)
    ensures
        r@.len() == log_places(rows@, lowercase(keyword@), status@).len(),
        forall|i: int|
            0 <= i < r@.len() ==> (#[trigger] r@[i]) as int == log_places(
                rows@,
                lowercase(keyword@),
                status@,
            )[i],
{
    let query = to_lowercase(keyword);
    let mut out: Vec<usize> = Vec::new();
    let mut i: usize = 0;
    while i < rows.len()
        invariant
            0 <= i <= rows@.len(),
            query@ == lowercase(keyword@),
            out@.len() == log_places(rows@.take(i as int), query@, status@).len(),
            forall|k: int|
                0 <= k < out@.len() ==> (#[trigger] out@[k]) as int == log_places(
                    rows@.take(i as int),
                    query@,
                    status@,
                )[k],
        decreases rows@.len() - i,
    {
        let ghost after = rows@.take(i + 1);
        assert(after.drop_last() =~= rows@.take(i as int));
        assert(after.last() == rows@[i as int]);
        if shows(&rows[i], query.as_str(), status) {
            out.push(i);
        }
        i = i + 1;
    }
    proof {
        lemma_take_all(rows@);
    }
    out
}

} // verus!
