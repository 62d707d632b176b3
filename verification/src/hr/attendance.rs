//! The punch page: finding today's record and what the punch button does.
use vstd::prelude::*;
use crate::badge::BadgeVariant;
use crate::hr::model::{attendance_status, attendance_status_spec, date_label, format_datetime};
use crate::daytime::{clock_label, local_day, local_seconds};
use crate::records::Attendance;
use crate::text::{contains, contains_str, starts_with, starts_with_str};

verus! {

/// The punch-in label (`YYYY-MM-DD HH:MM`, China time) of a record.
pub open spec fn punch_in_label(row: Attendance) -> Seq<char> {
    date_label(local_day(row.punch_in.micros as int)) + seq![' '] + clock_label(local_seconds(row.punch_in.micros as int))
}

/// Instants the pages can print.
pub open spec fn printable(row: Attendance) -> bool {
    row.punch_in.micros <= i64::MAX - 28_800_000_000
}

/// A record punched in on the day whose label is `today_label`.
pub open spec fn is_today(row: Attendance, today_label: Seq<char>) -> bool {
    starts_with(punch_in_label(row), today_label)
}

/// Whether a record was punched in on the day labelled `today_label`.
pub fn is_today_record(row: &Attendance, today_label: &str) -> (r: bool)
    requires
        printable(*row),
    ensures
        r == is_today(*row, today_label@),
{
    let label = format_datetime(Some(row.punch_in));
    starts_with_str(label.as_str(), today_label)
}

/// Row `j` is today's record: punched in today, and of today's records the
/// latest punch-in, the last one on a tie, as `max_by_key` picks.
pub open spec fn is_todays(records: Seq<Attendance>, today_label: Seq<char>, j: int) -> bool {
    &&& 0 <= j < records.len()
    &&& is_today(records[j], today_label)
    &&& forall|k: int| 0 <= k < records.len() && is_today(records[k], today_label) ==> (#[trigger] records[k]).punch_in.micros <= records[j].punch_in.micros
    &&& forall|k: int| j < k < records.len() && is_today(records[k], today_label) ==> (#[trigger] records[k]).punch_in.micros < records[j].punch_in.micros
}

/// Today's record of the signed-in employee, if any.
pub fn locate_today_record(records: &[Attendance], today_label: &str) -> (r: Option<Attendance>)
    requires
        forall|k: int| 0 <= k < records@.len() ==> printable(#[trigger] records@[k]),
    ensures
        match r {
            Some(x) => exists|j: int| is_todays(records@, today_label@, j) && x == records@[j],
            None => forall|k: int| 0 <= k < records@.len() ==> !is_today(#[trigger] records@[k], today_label@),
        },
{
    let mut best: Option<usize> = None;
    let mut i: usize = 0;
    while i < records.len()
        invariant
            forall|k: int| 0 <= k < records@.len() ==> printable(#[trigger] records@[k]),
            0 <= i <= records@.len(),
            match best {
                Some(j) => is_todays(records@.take(i as int), today_label@, j as int),
                None => forall|k: int| 0 <= k < i ==> !is_today(#[trigger] records@[k], today_label@),
            },
        decreases records@.len() - i,
    {
        let row = &records[i];
        if is_today_record(row, today_label) {
            let replace = match best {
                None => true,
                Some(j) => records[j].punch_in.micros <= row.punch_in.micros,
            };
            if replace {
                best = Some(i);
            }
        }
        proof {
            let t = records@.take(i + 1);
            assert(forall|k: int| 0 <= k < i ==> t[k] == records@.take(i as int)[k]);
        }
        i = i + 1;
    }
    proof {
        assert(records@.take(i as int) =~= records@);
    }
    match best {
        Some(j) => Some(records[j].duplicate()),
        None => None,
    }
}

/// Punched in and not yet out: the button punches out.
pub fn is_punched(record: &Option<Attendance>) -> (r: bool)
    ensures
        r == (record matches Some(x) && x.punch_out is None),
{
    match record {
        Some(value) => value.punch_out.is_none(),
        None => false,
    }
}

/// The server refused the punch because the device changed.
pub fn is_device_abnormal(message: &str) -> (r: bool)
    ensures
        r == contains(message@, "检测到考勤设备异常"@),
{
    contains_str(message, "检测到考勤设备异常")
}

/// Text of the punch button: punch in, punch out, or done for today.
pub fn punch_button_text(record: &Option<Attendance>) -> (r: &'static str)
    ensures
        r@ == (match record {
            None => "上班打卡"@,
            Some(x) => if x.punch_out is None { "下班打卡"@ } else { "今日考勤已完成"@ },
        }),
{
    if record.is_none() {
        "上班打卡"
    } else if is_punched(record) {
        "下班打卡"
    } else {
        "今日考勤已完成"
    }
}

/// The "下班状态" line: waiting to punch out, done, or not punched in.
pub fn checkout_state(record: &Option<Attendance>) -> (r: &'static str)
    ensures
        r@ == (match record {
            None => "未打卡"@,
            Some(x) => if x.punch_out is None { "待下班"@ } else { "已完成"@ },
        }),
{
    if is_punched(record) {
        "待下班"
    } else if record.is_some() {
        "已完成"
    } else {
        "未打卡"
    }
}

/// Status badge of today's record, `尚未打卡` before the first punch.
pub fn today_status(record: &Option<Attendance>) -> (r: (&'static str, BadgeVariant))
    ensures
        (r.0@, r.1) == match record {
            Some(x) => attendance_status_spec(x.status),
            None => ("尚未打卡"@, BadgeVariant::Outline),
        },
{
    match record {
        Some(row) => attendance_status(row.status),
        None => ("尚未打卡", BadgeVariant::Outline),
    }
}

/// What the punch page does with the server's answer to a punch.
#[derive(Clone, Debug)]
pub struct PunchOutcome {
    /// The notice shown under the button.
    pub notice: String,
    /// Ask the employee to confirm a changed device before trying again.
    pub ask_device_confirmation: bool,
    /// Clear the device confirmation box.
    pub clear_confirmation: bool,
}

/// A punch that went through clears the device confirmation and says so;
/// a refused one shows the server's message, and asks for the device
/// confirmation exactly when the server found the device changed.
pub fn punch_outcome(result: Result<(), String>) -> (r: PunchOutcome)
    ensures
        match result {
            Ok(()) => r.notice@ == "打卡成功，记录已同步"@ && !r.ask_device_confirmation && r.clear_confirmation,
            Err(m) => r.notice@ == m@ && r.ask_device_confirmation == contains(m@, "检测到考勤设备异常"@)
                && !r.clear_confirmation,
        },
{
    match result {
        Ok(()) => PunchOutcome {
            notice: String::from_str("打卡成功，记录已同步"),
            ask_device_confirmation: false,
            clear_confirmation: true,
        },
        Err(message) => {
            let ask = is_device_abnormal(message.as_str());
            PunchOutcome { notice: message, ask_device_confirmation: ask, clear_confirmation: false }
        },
    }
}

} // verus!
