//! The employee roster: its tallies, the keyword and status filter, and
//! what each row shows.
use vstd::prelude::*;
use crate::badge::BadgeVariant;
use crate::daytime::clock_label;
use crate::hr::model::seconds_to_time;
use crate::records::{Employee, EmployeeUserOption};
use crate::tally::{count, first_match, is_first, lemma_count_step, lemma_first_match_at, lemma_first_match_none, lemma_take_all};
use crate::text::{
    contains, contains_str, join_names, joined, lowercase, name_texts, owned, str_eq, to_lowercase,
    trim, trim_str,
};

verus! {

broadcast use vstd::seq_lib::group_seq_properties;

// ---------------------------------------------------------------------------
// Tallies
// ---------------------------------------------------------------------------

pub open spec fn still_employed() -> spec_fn(Employee) -> bool {
    |e: Employee| !e.is_resigned
}

pub open spec fn with_account() -> spec_fn(Employee) -> bool {
    |e: Employee| e.user_id is Some
}

/// Employees still employed, employees who left, and files bound to a
/// login account, over every row the roster holds.
pub fn roster_counts(rows: &[Employee]) -> (r: (usize, usize, usize))
    ensures
        r.0 == count(rows@, still_employed()),
        r.0 + r.1 == rows@.len(),
        r.2 == count(rows@, with_account()),
{
    let ghost pa = still_employed();
    let ghost pb = with_account();
    let mut active: usize = 0;
    let mut bound: usize = 0;
    let mut i: usize = 0;
    while i < rows.len()
        invariant
            0 <= i <= rows@.len(),
            pa == still_employed(),
            pb == with_account(),
            active == count(rows@.take(i as int), pa),
            bound == count(rows@.take(i as int), pb),
            active <= i,
            bound <= i,
        decreases rows@.len() - i,
    {
        proof {
            lemma_count_step(rows@, pa, i as int);
            lemma_count_step(rows@, pb, i as int);
        }
        if !rows[i].is_resigned {
            active = active + 1;
        }
        if rows[i].user_id.is_some() {
            bound = bound + 1;
        }
        i = i + 1;
    }
    proof {
        lemma_take_all(rows@);
    }
    (active, rows.len() - active, bound)
}

// ---------------------------------------------------------------------------
// Filter
// ---------------------------------------------------------------------------

/// The department of a file, empty when none is recorded.
pub open spec fn department_text(e: Employee) -> Seq<char> {
    match e.department {
        Some(d) => d@,
        None => Seq::empty(),
    }
}

/// A file matches a lower-cased query when the query is empty, or occurs in
/// the lower-cased name, in the phone number, or in the lower-cased
/// department.
pub open spec fn matches_query(e: Employee, query: Seq<char>) -> bool {
    ||| query.len() == 0
    ||| contains(lowercase(e.name@), query)
    ||| contains(e.phone@, query)
    ||| contains(lowercase(department_text(e)), query)
}

/// The status filter: `all`, `active` (still employed) or `resigned`.
pub open spec fn passes_status(e: Employee, status: Seq<char>) -> bool {
    ||| status == "all"@
    ||| (status == "active"@ && !e.is_resigned)
    ||| (status == "resigned"@ && e.is_resigned)
}

/// Places of the files shown for a lower-cased query and a status filter.
pub open spec fn roster_places(rows: Seq<Employee>, query: Seq<char>, status: Seq<char>) -> Seq<int>
    decreases rows.len(),
{
    if rows.len() == 0 {
        Seq::empty()
    } else {
        roster_places(rows.drop_last(), query, status) + if matches_query(rows.last(), query)
            && passes_status(rows.last(), status) {
            seq![rows.len() - 1]
        } else {
            Seq::empty()
        }
    }
}

fn passes_status_text(e: &Employee, status: &str) -> (r: bool)
    ensures
        r == passes_status(*e, status@),
{
    str_eq(status, "all") || (str_eq(status, "active") && !e.is_resigned) || (str_eq(
        status,
        "resigned",
    ) && e.is_resigned)
}

fn matches_query_text(e: &Employee, query: &str) -> (r: bool)
    ensures
        r == matches_query(*e, query@),
{
    if query.unicode_len() == 0 {
        return true;
    }
    let name = to_lowercase(e.name.as_str());
    if contains_str(name.as_str(), query) {
        return true;
    }
    if contains_str(e.phone.as_str(), query) {
        return true;
    }
    let department = match &e.department {
        Some(d) => to_lowercase(d.as_str()),
        None => to_lowercase(""),
    };
    proof {
        reveal_strlit("");
        assert(""@ =~= Seq::<char>::empty());
    }
    contains_str(department.as_str(), query)
}

/// Whether a file is shown under a status filter, with the filter's words
/// spelled out: `all` shows every file, `active` the files still employed,
/// `resigned` the files of those who left; any other word shows none.
pub open spec fn status_shows(e: Employee, status: Seq<char>) -> bool {
    ||| status == "all"@
    ||| (status == "active"@ && !e.is_resigned)
    ||| (status == "resigned"@ && e.is_resigned)
}

/// File `j` may be shown for a query and a status filter: it exists,
/// matches the query, and its employment state is the one the filter asks
/// for (`active`: still employed; `resigned`: left; `all`: either).
pub open spec fn may_show(rows: Seq<Employee>, query: Seq<char>, status: Seq<char>, j: int) -> bool {
    &&& 0 <= j < rows.len()
    &&& matches_query(rows[j], query)
    &&& (status == "active"@ ==> !rows[j].is_resigned)
    &&& (status == "resigned"@ ==> rows[j].is_resigned)
    &&& (status == "all"@ || status == "active"@ || status == "resigned"@)
}

/// The files the roster shows for a query and a status filter are, in
/// increasing order, exactly the files that match the query and whose
/// employment state the filter asks for: under `active` no one who left is
/// shown, whatever the keyword, and under `resigned` only those who left.
pub proof fn lemma_roster_places(rows: Seq<Employee>, query: Seq<char>, status: Seq<char>)
    ensures
        forall|k: int|
            0 <= k < roster_places(rows, query, status).len() ==> may_show(
                rows,
                query,
                status,
                #[trigger] roster_places(rows, query, status)[k],
            ),
        forall|k1: int, k2: int|
            0 <= k1 < k2 < roster_places(rows, query, status).len() ==> #[trigger] roster_places(rows, query, status)[k1]
                < #[trigger] roster_places(rows, query, status)[k2],
        forall|j: int|
            0 <= j < rows.len() && matches_query(rows[j], query) && #[trigger] status_shows(rows[j], status) ==> exists|k: int|
                0 <= k < roster_places(rows, query, status).len() && #[trigger] roster_places(rows, query, status)[k] == j,
    decreases rows.len(),
{
    reveal_strlit("all");
    reveal_strlit("active");
    reveal_strlit("resigned");
    assert("all"@.len() == 3 && "active"@.len() == 6 && "resigned"@.len() == 8);
    if rows.len() > 0 {
        let prefix = rows.drop_last();
        lemma_roster_places(prefix, query, status);
        let before = roster_places(prefix, query, status);
        let places = roster_places(rows, query, status);
        assert(places.take(before.len() as int) =~= before);
        assert forall|k: int| 0 <= k < before.len() implies places[k] == before[k] by {
            assert(places.take(before.len() as int)[k] == places[k]);
        }
        assert forall|k: int| 0 <= k < places.len() implies may_show(rows, query, status, #[trigger] places[k]) by {
            if k < before.len() {
                assert(places[k] == before[k]);
                assert(prefix[before[k]] == rows[before[k]]);
            } else {
                assert(places[k] == rows.len() - 1);
            }
        }
        assert forall|j: int|
            0 <= j < rows.len() && matches_query(rows[j], query) && #[trigger] status_shows(rows[j], status) implies exists|k: int|
                0 <= k < places.len() && #[trigger] places[k] == j by {
            if j < rows.len() - 1 {
                assert(prefix[j] == rows[j]);
                assert(status_shows(prefix[j], status));
                let k = choose|k: int| 0 <= k < before.len() && #[trigger] before[k] == j;
                assert(places[k] == j);
            } else {
                assert(places[before.len() as int] == j);
            }
        }
    }
}

/// The places of the files the roster shows for a keyword (trimmed and
/// lower-cased) and a status filter, in order.
pub fn filter_roster(rows: &[Employee], keyword: &str, status: &str) -> (r: Vec<usize>)
    ensures
        r@.len() == roster_places(rows@, lowercase(trim(keyword@)), status@).len(),
        forall|i: int|
            0 <= i < r@.len() ==> (#[trigger] r@[i]) as int == roster_places(
                rows@,
                lowercase(trim(keyword@)),
                status@,
            )[i],
        forall|i: int| 0 <= i < r@.len() ==> may_show(rows@, lowercase(trim(keyword@)), status@, (#[trigger] r@[i]) as int),
        forall|i1: int, i2: int| 0 <= i1 < i2 < r@.len() ==> #[trigger] r@[i1] < #[trigger] r@[i2],
        forall|j: int|
            0 <= j < rows@.len() && matches_query(rows@[j], lowercase(trim(keyword@))) && #[trigger] status_shows(
                rows@[j],
                status@,
            ) ==> exists|i: int| 0 <= i < r@.len() && #[trigger] r@[i] as int == j,
{
    proof {
        lemma_roster_places(rows@, lowercase(trim(keyword@)), status@);
    }
    let query = to_lowercase(trim_str(keyword));
    let mut out: Vec<usize> = Vec::new();
    let mut i: usize = 0;
    while i < rows.len()
        invariant
            0 <= i <= rows@.len(),
            query@ == lowercase(trim(keyword@)),
            out@.len() == roster_places(rows@.take(i as int), query@, status@).len(),
            forall|k: int|
                0 <= k < out@.len() ==> (#[trigger] out@[k]) as int == roster_places(
                    rows@.take(i as int),
                    query@,
                    status@,
                )[k],
        decreases rows@.len() - i,
    {
        let ghost after = rows@.take(i + 1);
        assert(after.drop_last() =~= rows@.take(i as int));
        assert(after.last() == rows@[i as int]);
        let shown = matches_query_text(&rows[i], query.as_str()) && passes_status_text(&rows[i], status);
        if shown {
            out.push(i);
        }
        i = i + 1;
    }
    proof {
        lemma_take_all(rows@);
        let places = roster_places(rows@, query@, status@);
        assert forall|j: int|
            0 <= j < rows@.len() && matches_query(rows@[j], query@) && #[trigger] status_shows(rows@[j], status@)
                implies exists|i: int| 0 <= i < out@.len() && #[trigger] out@[i] as int == j by {
            let k = choose|k: int| 0 <= k < places.len() && #[trigger] places[k] == j;
            assert(out@[k] as int == j);
        }
    }
    out
}

// ---------------------------------------------------------------------------
// A row
// ---------------------------------------------------------------------------

/// The department of a file, or `未分配`.
pub fn department_label(e: &Employee) -> (r: String)
    ensures
        r@ == match e.department {
            Some(d) => d@,
            None => "未分配"@,
        },
{
    match &e.department {
        Some(d) => owned(d.as_str()),
        None => String::from_str("未分配"),
    }
}

/// Badge of a file's employment state.
pub fn employment_badge(e: &Employee) -> (r: (&'static str, BadgeVariant))
    ensures
        r.0@ == (if e.is_resigned { "已离职"@ } else { "在职"@ }),
        r.1 == (if e.is_resigned { BadgeVariant::Outline } else { BadgeVariant::Secondary }),
{
    if e.is_resigned {
        ("已离职", BadgeVariant::Outline)
    } else {
        ("在职", BadgeVariant::Secondary)
    }
}

/// An account option for the login account `user_id`.
pub open spec fn option_for(user_id: Option<u64>) -> spec_fn(EmployeeUserOption) -> bool {
    |o: EmployeeUserOption| Some(o.user_id) == user_id
}

/// Place of the first account option of the file's login account.
pub fn find_account(options: &[EmployeeUserOption], user_id: Option<u64>) -> (r: Option<usize>)
    ensures
        match r {
            Some(i) => first_match(options@, option_for(user_id)) == Some(i as int),
            None => first_match(options@, option_for(user_id)) is None,
        },
{
    let ghost p = option_for(user_id);
    let mut i: usize = 0;
    while i < options.len()
        invariant
            p == option_for(user_id),
            0 <= i <= options@.len(),
            forall|k: int| 0 <= k < i ==> !p(#[trigger] options@[k]),
        decreases options@.len() - i,
    {
        let hit = match user_id {
            Some(u) => options[i].user_id == u,
            None => false,
        };
        if hit {
            proof {
                assert(is_first(options@, p, i as int));
                lemma_first_match_at(options@, p, i as int);
            }
            return Some(i);
        }
        i = i + 1;
    }
    proof {
        lemma_first_match_none(options@, p);
    }
    None
}

/// `{real_name} · {username}` of the file's account, or `未绑定`.
pub fn account_label(options: &[EmployeeUserOption], e: &Employee) -> (r: String)
    ensures
        r@ == match first_match(options@, option_for(e.user_id)) {
            Some(i) => options@[i].real_name@ + " · "@ + options@[i].username@,
            None => "未绑定"@,
        },
{
    match find_account(options, e.user_id) {
        Some(i) => {
            let mut out = owned(options[i].real_name.as_str());
            out.append(" · ");
            out.append(options[i].username.as_str());
            out
        },
        None => String::from_str("未绑定"),
    }
}

/// The roles of the file's account joined with `、`, `暂未分配角色` for an
/// account without roles, `—` without an account.
pub fn role_summary(options: &[EmployeeUserOption], e: &Employee) -> (r: String)
    ensures
        r@ == match first_match(options@, option_for(e.user_id)) {
            Some(i) => if options@[i].role_names@.len() == 0 {
                "暂未分配角色"@
            } else {
                joined(name_texts(options@[i].role_names@), "、"@)
            },
            None => "—"@,
        },
{
    match find_account(options, e.user_id) {
        Some(i) => if options[i].role_names.len() == 0 {
            String::from_str("暂未分配角色")
        } else {
            join_names(&options[i].role_names, "、")
        },
        None => String::from_str("—"),
    }
}

/// `HH:MM` of an optional shift time, empty for none.
pub open spec fn shift_text(v: Option<u32>) -> Seq<char> {
    match v {
        Some(s) => clock_label(s as int),
        None => Seq::empty(),
    }
}

/// The standard shift of a file: `{in} — {out}`, or `未设置` when neither
/// time is set.
pub fn schedule_label(e: &Employee) -> (r: String)
    ensures
        r@ == (if e.check_in_seconds is None && e.check_out_seconds is None {
            "未设置"@
        } else {
            shift_text(e.check_in_seconds) + " — "@ + shift_text(e.check_out_seconds)
        }),
{
    let check_in = seconds_to_time(e.check_in_seconds);
    let check_out = seconds_to_time(e.check_out_seconds);
    proof {
        if let Some(s) = e.check_in_seconds {
            assert(clock_label(s as int).len() > 0);
        }
        if let Some(s) = e.check_out_seconds {
            assert(clock_label(s as int).len() > 0);
        }
    }
    if check_in.as_str().unicode_len() == 0 && check_out.as_str().unicode_len() == 0 {
        String::from_str("未设置")
    } else {
        let mut out = check_in;
        out.append(" — ");
        out.append(check_out.as_str());
        out
    }
}

/// The question asked before a file is deleted.
pub fn delete_description(name: &str) -> (r: String)
    ensures
        r@ == "员工“"@ + name@ + "”将被逻辑删除并记录离职时间，历史考勤不会丢失。"@,
{
    let mut out = String::from_str("员工“");
    out.append(name);
    out.append("”将被逻辑删除并记录离职时间，历史考勤不会丢失。");
    out
}

} // verus!
