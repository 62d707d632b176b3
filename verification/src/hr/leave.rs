//! Leave applications: the status filter and tallies of the ledger, what a
//! row shows and offers to whom, and the application form.
use vstd::prelude::*;
use crate::daytime::{clock_label, local_day, local_parts, local_seconds, push_clock, push_date};
use crate::hr::model::{
    CHINA_OFFSET_MICROS, civil_from_days, date_label, datetime_fits, format_datetime,
    parse_datetime, parse_datetime_spec,
};
use crate::records::{LeaveApplication, Park};
use crate::tally::{count, lemma_count_step, lemma_take_all};
use crate::text::{
    decimal, decimal_string, is_blank, is_blank_str, optional_agrees, optional_text, owned,
    padded, parse_in_range, parse_u64, push_padded, str_eq, trim, trim_str,
};
use crate::timestamp::Timestamp;

verus! {

broadcast use vstd::seq_lib::group_seq_properties;

pub const PARK_REQUIRED: &'static str = "请选择园区";

pub const REASON_REQUIRED: &'static str = "请输入请假事由";

// ---------------------------------------------------------------------------
// The ledger
// ---------------------------------------------------------------------------

/// Whether a row with status `status` passes the status filter: `all`
/// passes every row, any other filter value the rows whose status it spells.
pub open spec fn passes_filter(filter: Seq<char>, status: i8) -> bool {
    filter == "all"@ || filter == padded(status as int, 0)
}

/// `passes_filter` of a filter value.
pub fn status_passes(filter: &str, status: i8) -> (r: bool)
    ensures
        r == passes_filter(filter@, status),
{
    if str_eq(filter, "all") {
        return true;
    }
    let mut spelled = String::new();
    push_padded(&mut spelled, status as i64, 0);
    proof {
        assert(Seq::<char>::empty() + padded(status as int, 0) =~= padded(status as int, 0));
    }
    str_eq(filter, spelled.as_str())
}

/// Places of the rows that pass the filter.
pub open spec fn shown_places(rows: Seq<LeaveApplication>, filter: Seq<char>) -> Seq<int>
    decreases rows.len(),
{
    if rows.len() == 0 {
        Seq::empty()
    } else {
        shown_places(rows.drop_last(), filter) + if passes_filter(filter, rows.last().status) {
            seq![rows.len() - 1]
        } else {
            Seq::empty()
        }
    }
}

/// The places of the rows the ledger shows for a status filter, in order.
pub fn filter_leaves(rows: &[LeaveApplication], filter: &str) -> (r: Vec<usize>)
    ensures
        r@.len() == shown_places(rows@, filter@).len(),
        forall|i: int| 0 <= i < r@.len() ==> (#[trigger] r@[i]) as int == shown_places(rows@, filter@)[i],
{
    let mut out: Vec<usize> = Vec::new();
    let mut i: usize = 0;
    while i < rows.len()
        invariant
            0 <= i <= rows@.len(),
            out@.len() == shown_places(rows@.take(i as int), filter@).len(),
            forall|k: int|
                0 <= k < out@.len() ==> (#[trigger] out@[k]) as int == shown_places(
                    rows@.take(i as int),
                    filter@,
                )[k],
        decreases rows@.len() - i,
    {
        let ghost after = rows@.take(i + 1);
        assert(after.drop_last() =~= rows@.take(i as int));
        assert(after.last() == rows@[i as int]);
        if status_passes(filter, rows[i].status) {
            out.push(i);
        }
        i = i + 1;
    }
    proof {
        lemma_take_all(rows@);
    }
    out
}

pub open spec fn with_status(status: i8) -> spec_fn(LeaveApplication) -> bool {
    |row: LeaveApplication| row.status == status
}

/// Pending, approved and rejected applications.
pub fn leave_counts(rows: &[LeaveApplication]) -> (r: (usize, usize, usize))
    ensures
        r.0 == count(rows@, with_status(0)),
        r.1 == count(rows@, with_status(1)),
        r.2 == count(rows@, with_status(2)),
{
    let ghost p0 = with_status(0);
    let ghost p1 = with_status(1);
    let ghost p2 = with_status(2);
    let mut pending: usize = 0;
    let mut approved: usize = 0;
    let mut rejected: usize = 0;
    let mut i: usize = 0;
    while i < rows.len()
        invariant
            0 <= i <= rows@.len(),
            p0 == with_status(0),
            p1 == with_status(1),
            p2 == with_status(2),
            pending == count(rows@.take(i as int), p0),
            approved == count(rows@.take(i as int), p1),
            rejected == count(rows@.take(i as int), p2),
            pending + approved + rejected <= i,
        decreases rows@.len() - i,
    {
        proof {
            lemma_count_step(rows@, p0, i as int);
            lemma_count_step(rows@, p1, i as int);
            lemma_count_step(rows@, p2, i as int);
        }
        let status = rows[i].status;
        if status == 0 {
            pending = pending + 1;
        } else if status == 1 {
            approved = approved + 1;
        } else if status == 2 {
            rejected = rejected + 1;
        }
        i = i + 1;
    }
    proof {
        lemma_take_all(rows@);
    }
    (pending, approved, rejected)
}

/// Heading of the ledger: the approval ledger for HR, one's own records
/// for everyone else.
pub fn ledger_heading(admin: bool) -> (r: &'static str)
    ensures
        r@ == (if admin { "请假审批台账"@ } else { "我的请假记录"@ }),
{
    if admin {
        "请假审批台账"
    } else {
        "我的请假记录"
    }
}

/// Who applied: the applicant's name, else the account name, else `--`.
pub fn applicant_label(row: &LeaveApplication) -> (r: String)
    ensures
        r@ == match (row.applicant_name, row.username) {
            (Some(a), _) => a@,
            (None, Some(u)) => u@,
            (None, None) => "--"@,
        },
{
    match &row.applicant_name {
        Some(a) => owned(a.as_str()),
        None => match &row.username {
            Some(u) => owned(u.as_str()),
            None => String::from_str("--"),
        },
    }
}

/// The park of an application, or `未分配园区`.
pub fn park_label(row: &LeaveApplication) -> (r: String)
    ensures
        r@ == match row.park_name {
            Some(p) => p@,
            None => "未分配园区"@,
        },
{
    match &row.park_name {
        Some(p) => owned(p.as_str()),
        None => String::from_str("未分配园区"),
    }
}

/// `YYYY-MM-DD HH:MM` of an instant in the HR pages.
pub open spec fn hr_datetime_label(micros: int) -> Seq<char> {
    date_label(local_day(micros)) + seq![' '] + clock_label(local_seconds(micros))
}

/// `{start} — {end}`.
pub fn leave_period(row: &LeaveApplication) -> (r: String)
    requires
        row.start_date.micros <= i64::MAX - CHINA_OFFSET_MICROS,
        row.end_date.micros <= i64::MAX - CHINA_OFFSET_MICROS,
    ensures
        r@ == hr_datetime_label(row.start_date.micros as int) + " — "@ + hr_datetime_label(
            row.end_date.micros as int,
        ),
{
    let mut out = format_datetime(Some(row.start_date));
    out.append(" — ");
    let end = format_datetime(Some(row.end_date));
    out.append(end.as_str());
    out
}

/// What a row offers its viewer.
#[derive(Clone, Debug)]
pub struct LeaveActions {
    /// Label of the first button: approve for HR on a pending row, else view.
    pub open_label: &'static str,
    /// The applicant may change a pending application.
    pub can_edit: bool,
    /// HR may delete any application, the applicant a pending one.
    pub can_delete: bool,
}

/// Whether the application belongs to the signed-in account `viewer`.
pub open spec fn is_own(viewer: Option<u64>, row: LeaveApplication) -> bool {
    viewer matches Some(v) && row.user_id == Some(v)
}

/// What a row offers: `admin` is HR, `viewer` the signed-in account.
pub fn leave_actions(admin: bool, viewer: Option<u64>, row: &LeaveApplication) -> (r: LeaveActions)
    ensures
        r.open_label@ == (if admin && row.status == 0 { "审批"@ } else { "查看"@ }),
        r.can_edit == (is_own(viewer, *row) && row.status == 0),
        r.can_delete == (admin || (is_own(viewer, *row) && row.status == 0)),
{
    let own = match viewer {
        Some(v) => match row.user_id {
            Some(u) => u == v,
            None => false,
        },
        None => false,
    };
    let pending = row.status == 0;
    LeaveActions {
        open_label: if admin && pending { "审批" } else { "查看" },
        can_edit: own && pending,
        can_delete: admin || (own && pending),
    }
}

/// The reply of an approval: trimmed, nothing when blank.
pub fn audit_reply(reply: &str) -> (r: Option<String>)
    ensures
        optional_agrees(r, reply@),
{
    optional_text(reply)
}

// ---------------------------------------------------------------------------
// The form
// ---------------------------------------------------------------------------

/// Title of the dialog.
pub fn form_title(editing: bool) -> (r: &'static str)
    ensures
        r@ == (if editing { "修改请假"@ } else { "新增请假"@ }),
{
    if editing {
        "修改请假"
    } else {
        "新增请假"
    }
}

/// The value a time field of the form starts from: the stored instant as
/// `YYYY-MM-DDTHH:MM`, or for a new application today's date with the
/// given clock time.
pub fn initial_leave_time(stored: Option<Timestamp>, today: &str, clock: &str) -> (r: String)
    requires
        stored matches Some(t) ==> t.micros <= i64::MAX - CHINA_OFFSET_MICROS,
    ensures
        r@ == match stored {
            Some(t) => date_label(local_day(t.micros as int)) + seq!['T'] + clock_label(
                local_seconds(t.micros as int),
            ),
            None => today@ + seq!['T'] + clock@,
        },
{
    proof {
        reveal_strlit("T");
    }
    match stored {
        Some(t) => {
            let (days, rest) = local_parts(t.to_micros_since_unix_epoch());
            let (y, m, d) = civil_from_days(days);
            let mut out = String::new();
            push_date(&mut out, y as i64, m, d);
            out.append("T");
            push_clock(&mut out, rest / 1_000_000);
            out
        },
        None => {
            let mut out = owned(today);
            out.append("T");
            out.append(clock);
            out
        },
    }
}

/// The park the form starts from: the application's park when it has one,
/// else the first park, else none.
pub fn initial_leave_park(stored_park: Option<u64>, parks: &[Park]) -> (r: String)
    ensures
        r@ == match stored_park {
            Some(p) => decimal(p as nat),
            None => if parks@.len() > 0 {
                decimal(parks@[0].park_id as nat)
            } else {
                Seq::empty()
            },
        },
{
    match stored_park {
        Some(p) => decimal_string(p),
        None => if parks.len() > 0 {
            decimal_string(parks[0].park_id)
        } else {
            String::new()
        },
    }
}

/// The fields of the leave form, as typed.
#[derive(Clone, Debug)]
pub struct LeaveForm {
    pub leave_type: String,
    pub start: String,
    pub end: String,
    pub park_id: String,
    pub reason: String,
}

/// What the leave form submits.
#[derive(Clone, Debug)]
pub struct LeaveApplicationInput {
    pub start_date: Timestamp,
    pub end_date: Timestamp,
    pub leave_type: String,
    pub reason: String,
    pub park_id: u64,
}

/// The first complaint about the form: the start time's message, the end
/// time's, an unreadable park, then a blank reason.
pub open spec fn leave_form_error(f: LeaveForm) -> Option<Seq<char>> {
    if parse_datetime_spec(f.start@) is Err {
        Some(parse_datetime_spec(f.start@)->Err_0)
    } else if parse_datetime_spec(f.end@) is Err {
        Some(parse_datetime_spec(f.end@)->Err_0)
    } else if parse_in_range(f.park_id@, false, 0, u64::MAX as int) is None {
        Some(PARK_REQUIRED@)
    } else if is_blank(f.reason@) {
        Some(REASON_REQUIRED@)
    } else {
        None
    }
}

/// Checks the leave form and builds the application it submits.
pub fn check_leave_form(f: &LeaveForm) -> (r: Result<LeaveApplicationInput, String>)
    requires
        datetime_fits(f.start@),
        parse_datetime_spec(f.start@) is Ok ==> datetime_fits(f.end@),
    ensures
        match r {
            Err(e) => leave_form_error(*f) == Some(e@),
            Ok(input) => {
                &&& leave_form_error(*f) is None
                &&& parse_datetime_spec(f.start@) == Ok::<int, Seq<char>>(input.start_date.micros as int)
                &&& parse_datetime_spec(f.end@) == Ok::<int, Seq<char>>(input.end_date.micros as int)
                &&& input.leave_type@ == f.leave_type@
                &&& input.reason@ == trim(f.reason@)
                &&& parse_in_range(f.park_id@, false, 0, u64::MAX as int) == Some(input.park_id as int)
            },
        },
{
    let start_date = match parse_datetime(f.start.as_str()) {
        Ok(t) => t,
        Err(m) => return Err(m),
    };
    let end_date = match parse_datetime(f.end.as_str()) {
        Ok(t) => t,
        Err(m) => return Err(m),
    };
    let park_id = match parse_u64(f.park_id.as_str()) {
        Some(v) => v,
        None => return Err(String::from_str(PARK_REQUIRED)),
    };
    if is_blank_str(f.reason.as_str()) {
        return Err(String::from_str(REASON_REQUIRED));
    }
    Ok(LeaveApplicationInput {
        start_date,
        end_date,
        leave_type: owned(f.leave_type.as_str()),
        reason: owned(trim_str(f.reason.as_str())),
        park_id,
    })
}

/// The question asked before an application is deleted.
pub fn delete_description(leave_type: &str) -> (r: String)
    ensures
        r@ == "将删除“"@ + leave_type@ + "”申请，此操作不可撤销。"@,
{
    let mut out = String::from_str("将删除“");
    out.append(leave_type);
    out.append("”申请，此操作不可撤销。");
    out
}

} // verus!
