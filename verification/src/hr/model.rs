//! Dates, shift times, statuses and account bindings shared by the HR pages.
use vstd::prelude::*;
use crate::calendar::{
    civil_of, lemma_year_of_day_range, epoch_day, is_leap, is_valid_date, lemma_civil_of, lemma_epoch_day_injective,
    lemma_epoch_day_range,
    lemma_era_split, lemma_formula_days, month_length,
};
use crate::text::{
    is_digit, lemma_parse_padded, lemma_trim_unchanged, parse_i32, parse_i64, parse_piece, parse_u32, split,
    split_char, split_once, split_once_char, trim, trim_str, is_blank, is_blank_str,
};
use crate::timestamp::Timestamp;
use crate::daytime::{
    clamped_reading, lemma_clock_label_split, lemma_date_text_split, date_text, clock_label, local_day, local_parts, local_seconds, push_clock, push_date};
use crate::badge::BadgeVariant;
use crate::records::Employee;
use crate::tally::{count, lemma_count_step, lemma_take_all};
use crate::sets::has_id;
use std::collections::BTreeSet;

verus! {

pub const MICROS_PER_DAY: i64 = 86_400_000_000;

pub const CHINA_OFFSET_MICROS: i64 = 28_800_000_000;

/// Gregorian leap year.
pub fn leap(y: i32) -> (r: bool)
    ensures
        r == is_leap(y as int),
{
    let by4 = y % 4 == 0;
    let by100 = y % 100 == 0;
    let by400 = y % 400 == 0;
    by4 && (!by100 || by400)
}

/// Days in month `m` of year `y`; 0 when `m` is no month.
pub fn mdays(y: i32, m: u32) -> (r: u32)
    ensures
        r as int == month_length(y as int, m as int),
{
    match m {
        1 | 3 | 5 | 7 | 8 | 10 | 12 => 31,
        4 | 6 | 9 | 11 => 30,
        2 => if leap(y) { 29 } else { 28 },
        _ => 0,
    }
}

/// The dates the HR forms accept: valid dates of the years 1970 to 9999.
pub open spec fn in_hr_range(y: int, m: int, d: int) -> bool {
    1970 <= y <= 9999 && is_valid_date(y, m, d)
}

/// Day number of a date counted from 1970-01-01, or `None` for a date the
/// forms do not accept.
pub fn days_from_civil(y: i32, m: u32, d: u32) -> (r: Option<i64>)
    ensures
        match r {
            Some(v) => in_hr_range(y as int, m as int, d as int) && v == epoch_day(
                y as int,
                m as int,
                d as int,
            ),
            None => !in_hr_range(y as int, m as int, d as int),
        },
{
    if !(1970 <= y && y <= 9999) || !(1 <= m && m <= 12) || d == 0 || d > mdays(y, m) {
        return None;
    }
    let mut y = y as i64;
    let m = m as i64;
    let d = d as i64;
    y -= if m <= 2 { 1 } else { 0 };
    let e = y / 400;
    let yo = y - e * 400;
    let mp = m + if m > 2 { -3 } else { 9 };
    proof {
        lemma_era_split(y as int, e as int, yo as int);
        lemma_formula_days(
            if m <= 2 { y + 1 } else { y as int },
            m as int,
            d as int,
        );
    }
    Some(e * 146097 + (yo * 365 + yo / 4 - yo / 100 + (153 * mp + 2) / 5 + d - 1) - 719468)
}

/// The date with day number `z` (counted from 1970-01-01); the year is kept
/// as its low 32 bits.
pub fn civil_from_days(z: i64) -> (r: (i32, u32, u32))
    requires
        z <= i64::MAX - 719468,
    ensures
        r.0 == civil_of(z as int).0 as i32,
        r.1 == civil_of(z as int).1,
        r.2 == civil_of(z as int).2,
{
    proof {
        lemma_civil_of(z as int);
    }
    let z = z + 719468;
    let e = match z.checked_div_euclid(146097) {
        Some(q) => q,
        None => 0,
    };
    let doe = z - e * 146097;
    let yo = (doe - doe / 1460 + doe / 36524 - doe / 146096) / 365;
    let mut y = yo + e * 400;
    let doy = doe - (365 * yo + yo / 4 - yo / 100);
    let mp = (5 * doy + 2) / 153;
    let d = doy - (153 * mp + 2) / 5 + 1;
    let m = mp + if mp < 10 { 3 } else { -9 };
    y += if m <= 2 { 1 } else { 0 };
    (y as i32, m as u32, d as u32)
}


/// A result of a date or time parser: an instant in microseconds, or the
/// message shown to the user.
pub open spec fn agrees(r: Result<Timestamp, String>, s: Result<int, Seq<char>>) -> bool {
    match (r, s) {
        (Ok(t), Ok(v)) => t.micros == v,
        (Err(e), Err(w)) => e@ == w,
        _ => false,
    }
}

/// The year, month and day pieces of a `YYYY-MM-DD` field.
pub open spec fn date_fields(s: Seq<char>) -> Option<(int, int, int)> {
    let p = split(trim(s), '-');
    match (
        parse_piece(p, 0, true, i32::MIN as int, i32::MAX as int),
        parse_piece(p, 1, false, 0, u32::MAX as int),
        parse_piece(p, 2, false, 0, u32::MAX as int),
    ) {
        (Some(y), Some(m), Some(d)) => Some((y, m, d)),
        _ => None,
    }
}

/// What `parse_date` makes of a text: midnight (China time) of the date, or
/// the message for a text with more than three pieces, or the message for
/// any other text that is not an accepted date.
pub open spec fn parse_date_spec(s: Seq<char>) -> Result<int, Seq<char>> {
    if split(trim(s), '-').len() > 3 {
        Err("日期格式不正确"@)
    } else {
        match date_fields(s) {
            Some((y, m, d)) => if in_hr_range(y, m, d) {
                Ok(epoch_day(y, m, d) * 86_400_000_000 - 28_800_000_000)
            } else {
                Err("请选择正确日期"@)
            },
            None => Err("请选择正确日期"@),
        }
    }
}

/// An accepted date lies between 1970 and the end of 9999.
pub proof fn lemma_parse_date_bounds(s: Seq<char>)
    ensures
        parse_date_spec(s) matches Ok(v) ==> -28_800_000_000 <= v <= 2932927 * 86_400_000_000,
{
    if let Some((y, m, d)) = date_fields(s) {
        if in_hr_range(y, m, d) {
            lemma_epoch_day_range(y, m, d);
        }
    }
}

/// Reads a `YYYY-MM-DD` date as midnight in China time.
pub fn parse_date(value: &str) -> (r: Result<Timestamp, String>)
    ensures
        agrees(r, parse_date_spec(value@)),
{
    let t = trim_str(value);
    let parts = split_char(t, '-');
    if parts.len() > 3 {
        return Err(String::from_str("日期格式不正确"));
    }
    let y = parse_i32(parts[0]);
    let m = if parts.len() > 1 { parse_u32(parts[1]) } else { None };
    let d = if parts.len() > 2 { parse_u32(parts[2]) } else { None };
    match (y, m, d) {
        (Some(y), Some(m), Some(d)) => match days_from_civil(y, m, d) {
            Some(days) => {
                proof {
                    lemma_epoch_day_range(y as int, m as int, d as int);
                }
                Ok(Timestamp::from_micros_since_unix_epoch(days * MICROS_PER_DAY - CHINA_OFFSET_MICROS))
            },
            None => Err(String::from_str("请选择正确日期")),
        },
        _ => Err(String::from_str("请选择正确日期")),
    }
}

/// The pieces of a `YYYY-MM-DDTHH:MM` field once the date is accepted and
/// hour and minute are read: the date's midnight, the hour, the minute.
pub open spec fn datetime_fields(s: Seq<char>) -> Option<(int, int, int)> {
    match split_once(s, 'T') {
        Some((date, time)) => match parse_date_spec(date) {
            Ok(base) => {
                let p = split(time, ':');
                match (
                    parse_piece(p, 0, true, i64::MIN as int, i64::MAX as int),
                    parse_piece(p, 1, true, i64::MIN as int, i64::MAX as int),
                ) {
                    (Some(h), Some(mi)) => if h < 24 && mi < 60 { Some((base, h, mi)) } else { None },
                    _ => None,
                }
            },
            Err(_) => None,
        },
        None => None,
    }
}

/// The arithmetic of an accepted date and time stays within `i64`.
pub open spec fn datetime_fits(s: Seq<char>) -> bool {
    match datetime_fields(s) {
        Some((base, h, mi)) => {
            &&& i64::MIN <= h * 3600
            &&& i64::MIN <= mi * 60
            &&& i64::MIN <= h * 3600 + mi * 60
            &&& i64::MIN <= (h * 3600 + mi * 60) * 1_000_000
            &&& i64::MIN <= base + (h * 3600 + mi * 60) * 1_000_000
        },
        None => true,
    }
}

/// What `parse_datetime` makes of a text.
pub open spec fn parse_datetime_spec(s: Seq<char>) -> Result<int, Seq<char>> {
    match split_once(s, 'T') {
        None => Err("请选择完整时间"@),
        Some((date, time)) => match parse_date_spec(date) {
            Err(e) => Err(e),
            Ok(base) => {
                let p = split(time, ':');
                let h = parse_piece(p, 0, true, i64::MIN as int, i64::MAX as int);
                let mi = parse_piece(p, 1, true, i64::MIN as int, i64::MAX as int);
                if h is Some && h->0 < 24 && mi is Some && mi->0 < 60 {
                    Ok(base + (h->0 * 3600 + mi->0 * 60) * 1_000_000)
                } else {
                    Err("时间格式不正确"@)
                }
            },
        },
    }
}

/// Reads a `YYYY-MM-DDTHH:MM` field (China time).
pub fn parse_datetime(value: &str) -> (r: Result<Timestamp, String>)
    requires
        datetime_fits(value@),
    ensures
        agrees(r, parse_datetime_spec(value@)),
{
    let (date, time) = match split_once_char(value, 'T') {
        Some(pair) => pair,
        None => return Err(String::from_str("请选择完整时间")),
    };
    let base = match parse_date(date) {
        Ok(t) => t,
        Err(e) => return Err(e),
    };
    proof {
        lemma_parse_date_bounds(date@);
    }
    let parts = split_char(time, ':');
    let hour = match parse_i64(parts[0]) {
        Some(h) if h < 24 => h,
        _ => return Err(String::from_str("时间格式不正确")),
    };
    let minute_field = if parts.len() > 1 { parse_i64(parts[1]) } else { None };
    let minute = match minute_field {
        Some(mi) if mi < 60 => mi,
        _ => return Err(String::from_str("时间格式不正确")),
    };
    Ok(Timestamp::from_micros_since_unix_epoch(
        base.to_micros_since_unix_epoch() + (hour * 3600 + minute * 60) * 1_000_000,
    ))
}


/// `YYYY-MM-DD` of day number `z`; the year printed from its low 32 bits.
pub open spec fn date_label(z: int) -> Seq<char> {
    let c = civil_of(z);
    date_text((c.0 as i32) as int, c.1, c.2)
}

/// `YYYY-MM-DD` (China time) of an instant, `--` for none.
pub fn format_date(value: Option<Timestamp>) -> (r: String)
    requires
        value matches Some(t) ==> t.micros <= i64::MAX - CHINA_OFFSET_MICROS,
    ensures
        r@ == match value {
            Some(t) => date_label(local_day(t.micros as int)),
            None => "--"@,
        },
{
    match value {
        Some(value) => {
            let (days, _) = local_parts(value.to_micros_since_unix_epoch());
            let (y, m, d) = civil_from_days(days);
            let mut out = String::new();
            push_date(&mut out, y as i64, m, d);
            out
        },
        None => String::from_str("--"),
    }
}

/// Today's date in China time, `YYYY-MM-DD`, at the clock reading
/// `now_micros` (microseconds since the epoch); a reading past the last
/// representable day is taken as that day.
pub fn today(now_micros: i64) -> (r: String)
    ensures
        r@ == date_label(local_day(clamped_reading(now_micros as int))),
{
    let clamped = if now_micros > i64::MAX - CHINA_OFFSET_MICROS {
        i64::MAX - CHINA_OFFSET_MICROS
    } else {
        now_micros
    };
    format_date(Some(Timestamp::from_micros_since_unix_epoch(clamped)))
}

/// `YYYY-MM-DD HH:MM` (China time) of an instant, `--` for none.
pub fn format_datetime(value: Option<Timestamp>) -> (r: String)
    requires
        value matches Some(t) ==> t.micros <= i64::MAX - CHINA_OFFSET_MICROS,
    ensures
        r@ == match value {
            Some(t) => date_label(local_day(t.micros as int)) + seq![' '] + clock_label(
                local_seconds(t.micros as int),
            ),
            None => "--"@,
        },
{
    let value = match value {
        Some(v) => v,
        None => return String::from_str("--"),
    };
    let (days, rest) = local_parts(value.to_micros_since_unix_epoch());
    let (y, m, d) = civil_from_days(days);
    let mut out = String::new();
    push_date(&mut out, y as i64, m, d);
    proof {
        reveal_strlit(" ");
    }
    out.append(" ");
    push_clock(&mut out, rest / 1_000_000);
    out
}

/// `HH:MM` of a shift time given in seconds after midnight; empty for none.
pub fn seconds_to_time(value: Option<u32>) -> (r: String)
    ensures
        r@ == match value {
            Some(v) => clock_label(v as int),
            None => Seq::<char>::empty(),
        },
{
    let mut out = String::new();
    if let Some(v) = value {
        push_clock(&mut out, v as i64);
    }
    out
}

/// What `parse_time` makes of a text: nothing for a blank text, else
/// seconds after midnight of `HH:MM`, or the message for a bad time.
pub open spec fn parse_time_spec(s: Seq<char>) -> Result<Option<int>, Seq<char>> {
    if is_blank(s) {
        Ok(None)
    } else {
        let p = split(s, ':');
        let h = parse_piece(p, 0, false, 0, u32::MAX as int);
        let mi = parse_piece(p, 1, false, 0, u32::MAX as int);
        if h is Some && h->0 < 24 && mi is Some && mi->0 < 60 {
            Ok(Some(h->0 * 3600 + mi->0 * 60))
        } else {
            Err("时间格式不正确"@)
        }
    }
}

/// Reads an optional `HH:MM` shift time as seconds after midnight.
pub fn parse_time(value: &str) -> (r: Result<Option<u32>, String>)
    ensures
        match (r, parse_time_spec(value@)) {
            (Ok(Some(v)), Ok(Some(w))) => v == w,
            (Ok(None), Ok(None)) => true,
            (Err(e), Err(w)) => e@ == w,
            _ => false,
        },
{
    if is_blank_str(value) {
        return Ok(None);
    }
    let parts = split_char(value, ':');
    let hour = match parse_u32(parts[0]) {
        Some(h) if h < 24 => h,
        _ => return Err(String::from_str("时间格式不正确")),
    };
    let minute_field = if parts.len() > 1 { parse_u32(parts[1]) } else { None };
    let minute = match minute_field {
        Some(mi) if mi < 60 => mi,
        _ => return Err(String::from_str("时间格式不正确")),
    };
    Ok(Some(hour * 3600 + minute * 60))
}

/// Label and badge of an attendance status: normal is plain, every kind of
/// irregularity is marked as danger, leave and unfinished days are outlined.
pub open spec fn attendance_status_spec(value: Option<i8>) -> (Seq<char>, BadgeVariant) {
    match value {
        Some(0) => ("正常"@, BadgeVariant::Secondary),
        Some(1) => ("迟到"@, BadgeVariant::Destructive),
        Some(2) => ("早退"@, BadgeVariant::Destructive),
        Some(3) => ("迟到且早退"@, BadgeVariant::Destructive),
        Some(4) => ("缺勤"@, BadgeVariant::Destructive),
        Some(5) => ("请假"@, BadgeVariant::Outline),
        _ => ("待完成"@, BadgeVariant::Outline),
    }
}

/// Label and badge of an attendance status.
pub fn attendance_status(value: Option<i8>) -> (r: (&'static str, BadgeVariant))
    ensures
        (r.0@, r.1) == attendance_status_spec(value),
{
    match value {
        Some(0) => ("正常", BadgeVariant::Secondary),
        Some(1) => ("迟到", BadgeVariant::Destructive),
        Some(2) => ("早退", BadgeVariant::Destructive),
        Some(3) => ("迟到且早退", BadgeVariant::Destructive),
        Some(4) => ("缺勤", BadgeVariant::Destructive),
        Some(5) => ("请假", BadgeVariant::Outline),
        _ => ("待完成", BadgeVariant::Outline),
    }
}

/// Where a punch came from. Rows written before the source was recorded
/// have none, and then the phone was the only way to punch, so anything but
/// `face` reads as the phone location.
pub fn punch_source_label(value: Option<&str>) -> (r: &'static str)
    ensures
        r@ == (if value matches Some(v) && v@ == "face"@ { "人脸识别"@ } else { "手机定位"@ }),
{
    match value {
        Some(v) => if crate::text::str_eq(v, "face") { "人脸识别" } else { "手机定位" },
        None => "手机定位",
    }
}

/// Label and badge of a leave application status.
pub open spec fn leave_status_spec(value: i8) -> (Seq<char>, BadgeVariant) {
    if value == 1 {
        ("已批准"@, BadgeVariant::Secondary)
    } else if value == 2 {
        ("已驳回"@, BadgeVariant::Destructive)
    } else {
        ("待审批"@, BadgeVariant::Outline)
    }
}

/// Label and badge of a leave application status.
pub fn leave_status(value: i8) -> (r: (&'static str, BadgeVariant))
    ensures
        (r.0@, r.1) == leave_status_spec(value),
{
    match value {
        1 => ("已批准", BadgeVariant::Secondary),
        2 => ("已驳回", BadgeVariant::Destructive),
        _ => ("待审批", BadgeVariant::Outline),
    }
}

/// A current employee with a login account.
pub open spec fn is_bound_employee(e: Employee) -> bool {
    !e.is_deleted && e.user_id is Some
}

/// A current employee without a login account.
pub open spec fn is_unbound_employee(e: Employee) -> bool {
    !e.is_deleted && e.user_id is None
}

pub open spec fn bound_employee() -> spec_fn(Employee) -> bool {
    |e: Employee| is_bound_employee(e)
}

pub open spec fn unbound_employee() -> spec_fn(Employee) -> bool {
    |e: Employee| is_unbound_employee(e)
}

/// Current (not deleted) employees with and without a login account.
/// Attendance and leave rows belong to login accounts, so an employee
/// without one can never be matched with their own records.
pub fn employee_binding_counts(employees: &[Employee]) -> (r: (usize, usize))
    ensures
        r.0 == count(employees@, bound_employee()),
        r.1 == count(employees@, unbound_employee()),
{
    let ghost pb = bound_employee();
    let ghost pu = unbound_employee();
    let mut bound: usize = 0;
    let mut unbound: usize = 0;
    let mut i: usize = 0;
    while i < employees.len()
        invariant
            0 <= i <= employees@.len(),
            pb == bound_employee(),
            pu == unbound_employee(),
            bound == count(employees@.take(i as int), pb),
            unbound == count(employees@.take(i as int), pu),
            bound + unbound <= i,
        decreases employees@.len() - i,
    {
        proof {
            lemma_count_step(employees@, pb, i as int);
            lemma_count_step(employees@, pu, i as int);
        }
        let employee = &employees[i];
        assert(pb(employees@[i as int]) == is_bound_employee(*employee));
        assert(pu(employees@[i as int]) == is_unbound_employee(*employee));
        if !employee.is_deleted {
            if employee.user_id.is_some() {
                bound = bound + 1;
            } else {
                unbound = unbound + 1;
            }
        }
        i = i + 1;
    }
    proof {
        lemma_take_all(employees@);
    }
    (bound, unbound)
}

/// An id that points into the set of live targets.
pub open spec fn is_linked(id: Option<u64>, active: Set<u64>) -> bool {
    id matches Some(v) && active.contains(v)
}

pub open spec fn linked_to(active: Set<u64>) -> spec_fn(Option<u64>) -> bool {
    |id: Option<u64>| is_linked(id, active)
}

pub open spec fn unlinked_to(active: Set<u64>) -> spec_fn(Option<u64>) -> bool {
    |id: Option<u64>| !is_linked(id, active)
}

/// How many ids point into `active_ids`, and how many do not (empty, or
/// pointing at a target that is gone).
pub fn linked_id_counts(ids: &[Option<u64>], active_ids: &BTreeSet<u64>) -> (r: (usize, usize))
    ensures
        r.0 == count(ids@, linked_to(active_ids@)),
        r.1 == count(ids@, unlinked_to(active_ids@)),
        r.0 + r.1 == ids@.len(),
{
    let ghost pl = linked_to(active_ids@);
    let ghost pn = unlinked_to(active_ids@);
    let mut linked: usize = 0;
    let mut unlinked: usize = 0;
    let mut i: usize = 0;
    while i < ids.len()
        invariant
            0 <= i <= ids@.len(),
            pl == linked_to(active_ids@),
            pn == unlinked_to(active_ids@),
            linked == count(ids@.take(i as int), pl),
            unlinked == count(ids@.take(i as int), pn),
            linked + unlinked == i,
        decreases ids@.len() - i,
    {
        proof {
            lemma_count_step(ids@, pl, i as int);
            lemma_count_step(ids@, pn, i as int);
        }
        let hit = match ids[i] {
            Some(id) => has_id(active_ids, id),
            None => false,
        };
        assert(pl(ids@[i as int]) == hit);
        assert(pn(ids@[i as int]) == !hit);
        if hit {
            linked = linked + 1;
        } else {
            unlinked = unlinked + 1;
        }
        i = i + 1;
    }
    proof {
        lemma_take_all(ids@);
    }
    (linked, unlinked)
}

/// `YYYY-MM-DD` reads back as its three fields.
proof fn lemma_date_text_fields(y: int, m: int, d: int)
    requires
        0 <= y <= i32::MAX,
        0 <= m <= u32::MAX,
        0 <= d <= u32::MAX,
    ensures
        trim(date_text(y, m, d)) == date_text(y, m, d),
        split(date_text(y, m, d), '-').len() == 3,
        date_fields(date_text(y, m, d)) == Some((y, m, d)),
{
    lemma_date_text_split(y, m, d);
    lemma_trim_unchanged(date_text(y, m, d));
    lemma_parse_padded(y, 4, true, i32::MIN as int, i32::MAX as int);
    lemma_parse_padded(m, 2, false, 0, u32::MAX as int);
    lemma_parse_padded(d, 2, false, 0, u32::MAX as int);
}

/// The date of a day number, for the dates the HR forms accept.
proof fn lemma_date_label_of(y: int, m: int, d: int)
    requires
        in_hr_range(y, m, d),
    ensures
        date_label(epoch_day(y, m, d)) == date_text(y, m, d),
{
    let e = epoch_day(y, m, d);
    lemma_civil_of(e);
    let c = civil_of(e);
    lemma_epoch_day_injective(c.0, c.1, c.2, y, m, d);
}

/// Dates round-trip through the HR forms: reading `YYYY-MM-DD` gives the
/// date's midnight in China time, and writing that instant gives back the
/// same text (`format_date(parse_date(s)) == s` for every accepted date).
pub proof fn lemma_date_round_trip(y: int, m: int, d: int)
    requires
        in_hr_range(y, m, d),
    ensures
        parse_date_spec(date_text(y, m, d)) == Ok::<int, Seq<char>>(
            epoch_day(y, m, d) * 86_400_000_000 - 28_800_000_000,
        ),
        date_label(local_day(epoch_day(y, m, d) * 86_400_000_000 - 28_800_000_000)) == date_text(
            y,
            m,
            d,
        ),
{
    lemma_date_text_fields(y, m, d);
    let e = epoch_day(y, m, d);
    assert((e * 86_400_000_000 - 28_800_000_000 + 28_800_000_000) / 86_400_000_000 == e) by (nonlinear_arith);
    lemma_date_label_of(y, m, d);
}

/// Shift times round-trip: `HH:MM` of a whole minute of the day reads back
/// as that many seconds, so `parse_time(seconds_to_time(v))` gives `v` and
/// `seconds_to_time(parse_time(s))` gives `s` for every such time.
pub proof fn lemma_shift_round_trip(h: int, mi: int)
    requires
        0 <= h < 24,
        0 <= mi < 60,
    ensures
        parse_time_spec(clock_label(h * 3600 + mi * 60)) == Ok::<Option<int>, Seq<char>>(
            Some(h * 3600 + mi * 60),
        ),
{
    lemma_clock_label_split(h, mi);
    let s = clock_label(h * 3600 + mi * 60);
    assert(!is_blank(s)) by {
        assert(is_digit(s[0]));
    }
    lemma_parse_padded(h, 2, false, 0, u32::MAX as int);
    lemma_parse_padded(mi, 2, false, 0, u32::MAX as int);
}

/// Deleted employee files take no part in the account figures: adding one
/// to the list changes neither the bound nor the unbound count.
pub proof fn lemma_deleted_file_not_counted(employees: Seq<Employee>, deleted: Employee)
    requires
        deleted.is_deleted,
    ensures
        count(employees.push(deleted), bound_employee()) == count(employees, bound_employee()),
        count(employees.push(deleted), unbound_employee()) == count(employees, unbound_employee()),
{
    crate::tally::lemma_count_push_skipped(employees, bound_employee(), deleted);
    crate::tally::lemma_count_push_skipped(employees, unbound_employee(), deleted);
}

/// The day numbers 0 to 2932896 and the dates the HR forms accept (1970-01-01
/// to 9999-12-31) correspond one to one: `civil_from_days` gives an accepted
/// date, its year fits in 32 bits, `days_from_civil` maps it back to the
/// same number, and no other accepted date has that number.
pub proof fn lemma_hr_day_round_trip(z: int)
    requires
        0 <= z <= 2932896,
    ensures
        in_hr_range(civil_of(z).0, civil_of(z).1, civil_of(z).2),
        (civil_of(z).0 as i32) as int == civil_of(z).0,
        epoch_day(civil_of(z).0, civil_of(z).1, civil_of(z).2) == z,
        forall|y: int, m: int, d: int|
            in_hr_range(y, m, d) && #[trigger] epoch_day(y, m, d) == z ==> y == civil_of(z).0 && m == civil_of(z).1
                && d == civil_of(z).2,
{
    lemma_year_of_day_range(z);
    lemma_civil_of(z);
    let c = civil_of(z);
    assert forall|y: int, m: int, d: int| in_hr_range(y, m, d) && #[trigger] epoch_day(y, m, d) == z implies y == c.0
        && m == c.1 && d == c.2 by {
        lemma_epoch_day_injective(y, m, d, c.0, c.1, c.2);
    }
}

} // verus!
