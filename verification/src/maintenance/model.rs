//! Times, places, statuses and quantities shared by the maintenance pages.
use vstd::prelude::*;
use crate::badge::BadgeVariant;
use crate::calendar::{
    civil_of, lemma_next_day, lemma_year_of_day_range, next_day, lemma_civil_year_bounds, epoch_day, is_leap, is_valid_date, lemma_civil_of, lemma_epoch_day_range,
    lemma_epoch_day_injective,
    lemma_era_split, lemma_formula_days, month_length,
};
use crate::daytime::{
    clamped_reading, clock_label, date_text, lemma_clock_label_split, lemma_date_text_split, local_day, local_parts,
    local_seconds, push_clock, push_date,
};
use crate::records::{Factory, Inspection, Park};
use crate::tally::{first_match, is_first, lemma_first_match_at, lemma_first_match_none};
use crate::text::{
    digit_char, first_at, lemma_parse_padded, lemma_trim_unchanged, decimal, replace_char, lemma_padded_chars, padded, parse_i32, parse_i64, parse_piece, parse_u32, push_decimal, push_padded, split,
    split_char, split_once, split_once_char, str_eq, trim, trim_str,
};
use crate::timestamp::Timestamp;

verus! {

/// Permission code that allows submitting an inspection.
pub const MAINTENANCE_INSPECT_CODE: &'static str = "maintenance:inspect";

pub const MICROS_PER_SECOND: i64 = 1_000_000;

pub const MICROS_PER_DAY: i64 = 86_400_000_000;

pub const CHINA_OFFSET_MICROS: i64 = 28_800_000_000;

/// Gregorian leap year.
pub fn is_leap_year(year: i32) -> (r: bool)
    ensures
        r == is_leap(year as int),
{
    year % 4 == 0 && (year % 100 != 0 || year % 400 == 0)
}

/// Days in month `month` of `year`; 0 when `month` is no month.
pub fn days_in_month(year: i32, month: u32) -> (r: u32)
    ensures
        r as int == month_length(year as int, month as int),
{
    match month {
        1 | 3 | 5 | 7 | 8 | 10 | 12 => 31,
        4 | 6 | 9 | 11 => 30,
        2 => if is_leap_year(year) { 29 } else { 28 },
        _ => 0,
    }
}

/// The dates the maintenance forms accept: valid dates of 1970 to 9999.
pub open spec fn in_service_range(y: int, m: int, d: int) -> bool {
    1970 <= y <= 9999 && is_valid_date(y, m, d)
}

/// Day number of a date counted from 1970-01-01, or `None` for a date the
/// forms do not accept.
pub fn days_from_civil(year: i32, month: u32, day: u32) -> (r: Option<i64>)
    ensures
        match r {
            Some(v) => in_service_range(year as int, month as int, day as int) && v == epoch_day(
                year as int,
                month as int,
                day as int,
            ),
            None => !in_service_range(year as int, month as int, day as int),
        },
{
    if !(1970 <= year && year <= 9999) || !(1 <= month && month <= 12) || day == 0 || day
        > days_in_month(year, month) {
        return None;
    }
    let adjusted = year - if month <= 2 { 1 } else { 0 };
    let era = adjusted / 400;
    let yoe = adjusted - era * 400;
    let shifted = month as i32 + if month > 2 { -3 } else { 9 };
    let doy = (153 * shifted + 2) / 5 + day as i32 - 1;
    let doe = yoe * 365 + yoe / 4 - yoe / 100 + doy;
    proof {
        lemma_era_split(adjusted as int, era as int, yoe as int);
        lemma_formula_days(year as int, month as int, day as int);
    }
    Some((era * 146_097 + doe - 719_468) as i64)
}

/// The low 32 bits of a year count one past `x` are one past those of `x`,
/// unless they wrap.
proof fn lemma_low_bits_succ(x: i64)
    requires
        x < i64::MAX,
        (x as i32) < i32::MAX,
    ensures
        (x as i32) + 1 == ((x + 1) as i32),
{
    assert((x as i32) < i32::MAX ==> (x as i32) + 1 == ((x + 1) as i32)) by (bit_vector)
        requires
            x < i64::MAX,
    ;
}

/// The date with day number `days`; the year is kept as its low 32 bits.
/// The year is counted from March, so January and February add one to it,
/// which must not overflow.
pub fn civil_from_days(days: i64) -> (r: (i32, u32, u32))
    requires
        days <= i64::MAX - 719_468,
        civil_of(days as int).1 > 2 || ((civil_of(days as int).0 - 1) as i32) < i32::MAX,
    ensures
        r.0 == civil_of(days as int).0 as i32,
        r.1 == civil_of(days as int).1,
        r.2 == civil_of(days as int).2,
{
    proof {
        lemma_civil_of(days as int);
    }
    let z = days + 719_468;
    let era = match z.checked_div_euclid(146_097) {
        Some(q) => q,
        None => 0,
    };
    let doe = z - era * 146_097;
    let yoe = (doe - doe / 1460 + doe / 36_524 - doe / 146_096) / 365;
    let base = yoe + era * 400;
    let mut year = base as i32;
    let doy = doe - (365 * yoe + yoe / 4 - yoe / 100);
    let mp = (5 * doy + 2) / 153;
    let day = (doy - (153 * mp + 2) / 5 + 1) as u32;
    let month = (mp + if mp < 10 { 3 } else { -9 }) as u32;
    if month <= 2 {
        proof {
            lemma_low_bits_succ(base);
        }
        year = year + 1;
    }
    (year, month, day)
}


/// `YYYY-MM-DD HH:MM` of an instant in China time.
pub open spec fn datetime_label(micros: int) -> Seq<char> {
    let c = civil_of(local_day(micros));
    date_text(c.0, c.1, c.2) + seq![' '] + clock_label(local_seconds(micros))
}

/// The date of every instant has a year that fits in 32 bits.
proof fn lemma_instant_year(micros: i64)
    requires
        micros <= i64::MAX - 28_800_000_000,
    ensures
        i32::MIN < civil_of(local_day(micros as int)).0 < i32::MAX,
{
    lemma_civil_year_bounds(local_day(micros as int));
}

/// `YYYY-MM-DD HH:MM` of an instant in China time.
pub fn format_datetime(value: Timestamp) -> (r: String)
    requires
        value.micros <= i64::MAX - CHINA_OFFSET_MICROS,
    ensures
        r@ == datetime_label(value.micros as int),
{
    proof {
        lemma_instant_year(value.micros);
    }
    let (days, rest) = local_parts(value.to_micros_since_unix_epoch());
    let (year, month, day) = civil_from_days(days);
    let mut out = String::new();
    push_date(&mut out, year as i64, month, day);
    proof {
        reveal_strlit(" ");
    }
    out.append(" ");
    push_clock(&mut out, rest / MICROS_PER_SECOND);
    out
}

/// `datetime_label` has its one space between date and time.
proof fn lemma_label_space(micros: int)
    ensures
        replace_char(datetime_label(micros), ' ', 'T') == ({
            let c = civil_of(local_day(micros));
            date_text(c.0, c.1, c.2) + seq!['T'] + clock_label(local_seconds(micros))
        }),
{
    let c = civil_of(local_day(micros));
    let s = local_seconds(micros);
    lemma_padded_chars(c.0, 4);
    lemma_padded_chars(c.1, 2);
    lemma_padded_chars(c.2, 2);
    lemma_padded_chars(s / 3600, 2);
    lemma_padded_chars(s % 3600 / 60, 2);
    let a = date_text(c.0, c.1, c.2);
    let b = clock_label(s);
    assert(forall|i: int| 0 <= i < a.len() ==> a[i] != ' ');
    assert(forall|i: int| 0 <= i < b.len() ==> b[i] != ' ');
    assert(replace_char(datetime_label(micros), ' ', 'T') =~= a + seq!['T'] + b);
}

/// The value of a `datetime-local` input: `YYYY-MM-DDTHH:MM` in China time,
/// the label with its space replaced by `T`.
pub fn datetime_input(value: Timestamp) -> (r: String)
    requires
        value.micros <= i64::MAX - CHINA_OFFSET_MICROS,
    ensures
        r@ == replace_char(datetime_label(value.micros as int), ' ', 'T'),
        r@ == ({
            let c = civil_of(local_day(value.micros as int));
            date_text(c.0, c.1, c.2) + seq!['T'] + clock_label(local_seconds(value.micros as int))
        }),
{
    proof {
        lemma_instant_year(value.micros);
        lemma_label_space(value.micros as int);
    }
    let (days, rest) = local_parts(value.to_micros_since_unix_epoch());
    let (year, month, day) = civil_from_days(days);
    let mut out = String::new();
    push_date(&mut out, year as i64, month, day);
    proof {
        reveal_strlit("T");
    }
    out.append("T");
    push_clock(&mut out, rest / MICROS_PER_SECOND);
    out
}

/// Year, month, day, hour and minute of a `YYYY-MM-DDTHH:MM` text, each
/// read as an integer; pieces after the third date piece and the second
/// time piece are ignored.
pub open spec fn inspection_time_fields(s: Seq<char>) -> Option<(int, int, int, int, int)> {
    match split_once(trim(s), 'T') {
        Some((date, time)) => {
            let dp = split(date, '-');
            let tp = split(time, ':');
            match (
                parse_piece(dp, 0, true, i32::MIN as int, i32::MAX as int),
                parse_piece(dp, 1, false, 0, u32::MAX as int),
                parse_piece(dp, 2, false, 0, u32::MAX as int),
                parse_piece(tp, 0, true, i64::MIN as int, i64::MAX as int),
                parse_piece(tp, 1, true, i64::MIN as int, i64::MAX as int),
            ) {
                (Some(y), Some(m), Some(d), Some(h), Some(mi)) => Some((y, m, d, h, mi)),
                _ => None,
            }
        },
        None => None,
    }
}

/// The instant of an accepted inspection time text.
pub open spec fn inspection_time(s: Seq<char>) -> Option<int> {
    match inspection_time_fields(s) {
        Some((y, m, d, h, mi)) => if h < 24 && mi < 60 && in_service_range(y, m, d) {
            Some(epoch_day(y, m, d) * 86_400_000_000 + (h * 3600 + mi * 60) * 1_000_000 - 28_800_000_000)
        } else {
            None
        },
        None => None,
    }
}

/// The arithmetic of an accepted inspection time stays within `i64`.
pub open spec fn inspection_time_fits(s: Seq<char>) -> bool {
    match inspection_time_fields(s) {
        Some((y, m, d, h, mi)) => (h < 24 && mi < 60 && in_service_range(y, m, d)) ==> {
            &&& i64::MIN <= h * 3600
            &&& i64::MIN <= mi * 60
            &&& i64::MIN <= h * 3600 + mi * 60
            &&& i64::MIN <= (h * 3600 + mi * 60) * 1_000_000
            &&& i64::MIN + 28_800_000_000 <= epoch_day(y, m, d) * 86_400_000_000 + (h * 3600 + mi * 60)
                * 1_000_000
        },
        None => true,
    }
}

/// Reads the inspection time `YYYY-MM-DDTHH:MM` (China time).
pub fn parse_datetime(value: &str) -> (r: Result<Timestamp, String>)
    requires
        inspection_time_fits(value@),
    ensures
        match r {
            Ok(t) => inspection_time(value@) == Some(t.micros as int),
            Err(e) => inspection_time(value@) is None && e@ == "检查时间格式不正确"@,
        },
{
    let trimmed = trim_str(value);
    let (date, time) = match split_once_char(trimmed, 'T') {
        Some(pair) => pair,
        None => return Err(String::from_str("检查时间格式不正确")),
    };
    let date_parts = split_char(date, '-');
    let time_parts = split_char(time, ':');
    let year = parse_i32(date_parts[0]);
    let month = if date_parts.len() > 1 { parse_u32(date_parts[1]) } else { None };
    let day = if date_parts.len() > 2 { parse_u32(date_parts[2]) } else { None };
    let hour = parse_i64(time_parts[0]);
    let minute = if time_parts.len() > 1 { parse_i64(time_parts[1]) } else { None };
    match (year, month, day, hour, minute) {
        (Some(year), Some(month), Some(day), Some(hour), Some(minute)) => {
            if hour >= 24 || minute >= 60 {
                return Err(String::from_str("检查时间格式不正确"));
            }
            match days_from_civil(year, month, day) {
                Some(days) => {
                    proof {
                        lemma_epoch_day_range(year as int, month as int, day as int);
                    }
                    Ok(Timestamp::from_micros_since_unix_epoch(
                        days * MICROS_PER_DAY + (hour * 3600 + minute * 60) * MICROS_PER_SECOND
                            - CHINA_OFFSET_MICROS,
                    ))
                },
                None => Err(String::from_str("检查时间格式不正确")),
            }
        },
        _ => Err(String::from_str("检查时间格式不正确")),
    }
}

/// A park row with the given id.
pub open spec fn park_with(id: u64) -> spec_fn(Park) -> bool {
    |p: Park| p.park_id == id
}

/// A factory row with the given id.
pub open spec fn factory_with(id: u64) -> spec_fn(Factory) -> bool {
    |f: Factory| f.factory_id == id
}

/// Index of the first park with id `park_id`.
pub fn find_park(parks: &[Park], park_id: u64) -> (r: Option<usize>)
    ensures
        match r {
            Some(i) => first_match(parks@, park_with(park_id)) == Some(i as int),
            None => first_match(parks@, park_with(park_id)) is None,
        },
{
    let ghost p = park_with(park_id);
    let mut i: usize = 0;
    while i < parks.len()
        invariant
            p == park_with(park_id),
            0 <= i <= parks@.len(),
            forall|k: int| 0 <= k < i ==> !p(#[trigger] parks@[k]),
        decreases parks@.len() - i,
    {
        if parks[i].park_id == park_id {
            proof {
                assert(is_first(parks@, p, i as int));
                lemma_first_match_at(parks@, p, i as int);
            }
            return Some(i);
        }
        i = i + 1;
    }
    proof {
        lemma_first_match_none(parks@, p);
    }
    None
}

/// Index of the first factory with id `factory_id`.
pub fn find_factory(factories: &[Factory], factory_id: u64) -> (r: Option<usize>)
    ensures
        match r {
            Some(i) => first_match(factories@, factory_with(factory_id)) == Some(i as int),
            None => first_match(factories@, factory_with(factory_id)) is None,
        },
{
    let ghost p = factory_with(factory_id);
    let mut i: usize = 0;
    while i < factories.len()
        invariant
            p == factory_with(factory_id),
            0 <= i <= factories@.len(),
            forall|k: int| 0 <= k < i ==> !p(#[trigger] factories@[k]),
        decreases factories@.len() - i,
    {
        if factories[i].factory_id == factory_id {
            proof {
                assert(is_first(factories@, p, i as int));
                lemma_first_match_at(factories@, p, i as int);
            }
            return Some(i);
        }
        i = i + 1;
    }
    proof {
        lemma_first_match_none(factories@, p);
    }
    None
}

/// The name of park `park_id`, or `园区 #<id>` when it is not loaded.
pub open spec fn park_name_spec(parks: Seq<Park>, park_id: u64) -> Seq<char> {
    match first_match(parks, park_with(park_id)) {
        Some(i) => parks[i].park_name@,
        None => "园区 #"@ + decimal(park_id as nat),
    }
}

/// Name of a park.
pub fn park_name(parks: &[Park], park_id: u64) -> (r: String)
    ensures
        r@ == park_name_spec(parks@, park_id),
{
    match find_park(parks, park_id) {
        Some(i) => parks[i].park_name.clone(),
        None => {
            let mut out = String::from_str("园区 #");
            push_decimal(&mut out, park_id);
            out
        },
    }
}

/// The name of factory `factory_id`, or `未指定厂房` when none is given or it
/// is not loaded.
pub open spec fn factory_name_spec(factories: Seq<Factory>, factory_id: Option<u64>) -> Seq<char> {
    match factory_id {
        Some(id) => match first_match(factories, factory_with(id)) {
            Some(i) => factories[i].factory_name@,
            None => "未指定厂房"@,
        },
        None => "未指定厂房"@,
    }
}

/// Name of a factory building.
pub fn factory_name(factories: &[Factory], factory_id: Option<u64>) -> (r: String)
    ensures
        r@ == factory_name_spec(factories@, factory_id),
{
    match factory_id {
        Some(id) => match find_factory(factories, id) {
            Some(i) => factories[i].factory_name.clone(),
            None => String::from_str("未指定厂房"),
        },
        None => String::from_str("未指定厂房"),
    }
}

/// Badge of a maintenance status: done or normal is plain, trouble and
/// cancellation are marked as danger, everything else is outlined.
pub open spec fn status_variant_spec(status: Seq<char>) -> BadgeVariant {
    if status == "正常"@ || status == "已完成"@ {
        BadgeVariant::Secondary
    } else if status == "异常"@ || status == "紧急"@ || status == "已取消"@ {
        BadgeVariant::Destructive
    } else {
        BadgeVariant::Outline
    }
}

/// Badge of a maintenance status.
pub fn status_variant(status: &str) -> (r: BadgeVariant)
    ensures
        r == status_variant_spec(status@),
{
    if str_eq(status, "正常") || str_eq(status, "已完成") {
        BadgeVariant::Secondary
    } else if str_eq(status, "异常") || str_eq(status, "紧急") || str_eq(status, "已取消") {
        BadgeVariant::Destructive
    } else {
        BadgeVariant::Outline
    }
}

/// `<whole>.<hundredths>` of a quantity kept in hundredths.
pub open spec fn hundredths_text(v: nat) -> Seq<char> {
    decimal(v / 100) + seq!['.'] + padded((v % 100) as int, 2)
}

/// Appends `<whole>.<hundredths>` of a quantity kept in hundredths.
pub fn push_hundredths(out: &mut String, v: u64)
    ensures
        final(out)@ == old(out)@ + hundredths_text(v as nat),
{
    push_decimal(out, v / 100);
    proof {
        reveal_strlit(".");
    }
    out.append(".");
    push_padded(out, (v % 100) as i64, 2);
    proof {
        assert(final(out)@ =~= old(out)@ + hundredths_text(v as nat));
    }
}

/// Capacity for display: `1100` hundredths of a kW reads `11.00 kW`; 0 means
/// not filled in.
pub fn format_capacity_kw(centi_kw: u64) -> (r: String)
    ensures
        r@ == (if centi_kw == 0 { "未填写"@ } else { hundredths_text(centi_kw as nat) + " kW"@ }),
{
    if centi_kw == 0 {
        return String::from_str("未填写");
    }
    let mut out = String::new();
    push_hundredths(&mut out, centi_kw);
    out.append(" kW");
    proof {
        assert(out@ =~= hundredths_text(centi_kw as nat) + " kW"@);
    }
    out
}

/// Capacity as the form field shows it: `1100` reads `11.00`, 0 is empty.
pub fn capacity_input(centi_kw: u64) -> (r: String)
    ensures
        r@ == (if centi_kw == 0 { Seq::<char>::empty() } else { hundredths_text(centi_kw as nat) }),
{
    let mut out = String::new();
    if centi_kw != 0 {
        push_hundredths(&mut out, centi_kw);
        proof {
            assert(out@ =~= hundredths_text(centi_kw as nat));
        }
    }
    out
}

/// Rated load for display: `200000` hundredths of a kg reads `2000.00 kg`;
/// 0 means not filled in.
pub fn format_load_kg(centi_kg: u64) -> (r: String)
    ensures
        r@ == (if centi_kg == 0 { "未填写"@ } else { hundredths_text(centi_kg as nat) + " kg"@ }),
{
    if centi_kg == 0 {
        return String::from_str("未填写");
    }
    let mut out = String::new();
    push_hundredths(&mut out, centi_kg);
    out.append(" kg");
    proof {
        assert(out@ =~= hundredths_text(centi_kg as nat) + " kg"@);
    }
    out
}

/// Rated load as the form field shows it: `200000` reads `2000.00`, 0 is empty.
pub fn load_kg_input(centi_kg: u64) -> (r: String)
    ensures
        r@ == (if centi_kg == 0 { Seq::<char>::empty() } else { hundredths_text(centi_kg as nat) }),
{
    let mut out = String::new();
    if centi_kg != 0 {
        push_hundredths(&mut out, centi_kg);
        proof {
            assert(out@ =~= hundredths_text(centi_kg as nat));
        }
    }
    out
}

/// Inspection `a` sorts no later than `b`: by check time, then by id.
pub open spec fn key_le(a: Inspection, b: Inspection) -> bool {
    a.check_time.micros < b.check_time.micros || (a.check_time.micros == b.check_time.micros
        && a.inspection_id <= b.inspection_id)
}

/// Row `j` is the latest inspection of the asset: no row of the asset sorts
/// after it, and of equal rows it is the last, as `max_by_key` picks.
pub open spec fn is_latest(rows: Seq<Inspection>, asset_id: u64, j: int) -> bool {
    &&& 0 <= j < rows.len()
    &&& rows[j].asset_id == asset_id
    &&& forall|k: int| 0 <= k < rows.len() && rows[k].asset_id == asset_id ==> key_le(#[trigger] rows[k], rows[j])
    &&& forall|k: int| j < k < rows.len() && rows[k].asset_id == asset_id ==> !key_le(rows[j], #[trigger] rows[k])
}

/// The latest inspection of an asset, if it has any.
pub fn latest_of(inspections: &[Inspection], asset_id: u64) -> (r: Option<Inspection>)
    ensures
        match r {
            Some(x) => exists|j: int| is_latest(inspections@, asset_id, j) && x == inspections@[j],
            None => forall|k: int| 0 <= k < inspections@.len() ==> (#[trigger] inspections@[k]).asset_id != asset_id,
        },
{
    let mut best: Option<usize> = None;
    let mut i: usize = 0;
    while i < inspections.len()
        invariant
            0 <= i <= inspections@.len(),
            match best {
                Some(j) => is_latest(inspections@.take(i as int), asset_id, j as int),
                None => forall|k: int| 0 <= k < i ==> (#[trigger] inspections@[k]).asset_id != asset_id,
            },
        decreases inspections@.len() - i,
    {
        let row = &inspections[i];
        if row.asset_id == asset_id {
            let replace = match best {
                None => true,
                Some(j) => {
                    let b = &inspections[j];
                    b.check_time.micros < row.check_time.micros || (b.check_time.micros
                        == row.check_time.micros && b.inspection_id <= row.inspection_id)
                },
            };
            if replace {
                best = Some(i);
            }
        }
        proof {
            let t = inspections@.take(i + 1);
            assert(forall|k: int| 0 <= k < i ==> t[k] == inspections@.take(i as int)[k]);
        }
        i = i + 1;
    }
    proof {
        assert(inspections@.take(i as int) =~= inspections@);
    }
    match best {
        Some(j) => Some(inspections[j].duplicate()),
        None => None,
    }
}

/// The latest inspection of a transformer.
pub fn latest_inspection(inspections: &[Inspection], asset_id: u64) -> (r: Option<Inspection>)
    ensures
        match r {
            Some(x) => exists|j: int| is_latest(inspections@, asset_id, j) && x == inspections@[j],
            None => forall|k: int| 0 <= k < inspections@.len() ==> (#[trigger] inspections@[k]).asset_id != asset_id,
        },
{
    latest_of(inspections, asset_id)
}

/// The latest inspection of an elevator.
pub fn latest_elevator_inspection(inspections: &[Inspection], asset_id: u64) -> (r: Option<Inspection>)
    ensures
        match r {
            Some(x) => exists|j: int| is_latest(inspections@, asset_id, j) && x == inspections@[j],
            None => forall|k: int| 0 <= k < inspections@.len() ==> (#[trigger] inspections@[k]).asset_id != asset_id,
        },
{
    latest_of(inspections, asset_id)
}

/// The latest inspection of a firefighting asset.
pub fn latest_firefighting_inspection(inspections: &[Inspection], asset_id: u64) -> (r: Option<Inspection>)
    ensures
        match r {
            Some(x) => exists|j: int| is_latest(inspections@, asset_id, j) && x == inspections@[j],
            None => forall|k: int| 0 <= k < inspections@.len() ==> (#[trigger] inspections@[k]).asset_id != asset_id,
        },
{
    latest_of(inspections, asset_id)
}

/// Today's date in China time, `YYYY-MM-DD`, at the clock reading
/// `now_micros` (microseconds since the epoch): the first ten characters of
/// the label of that instant, a reading past the last representable day
/// taken as that day.
pub fn today_date(now_micros: i64) -> (r: String)
    ensures
        r@ == datetime_label(clamped_reading(now_micros as int)).take(10),
{
    let clamped = if now_micros > i64::MAX - CHINA_OFFSET_MICROS { i64::MAX - CHINA_OFFSET_MICROS } else { now_micros };
    let label = format_datetime(Timestamp::from_micros_since_unix_epoch(clamped));
    proof {
        assert(label@.len() >= 10) by {
            crate::text::lemma_padded_len(civil_of(local_day(clamped as int)).0, 4);
        }
    }
    let head = label.as_str().substring_char(0, 10);
    owned_text(head)
}

fn owned_text(s: &str) -> (r: String)
    ensures
        r@ == s@,
{
    crate::text::owned(s)
}

/// Day number of a `YYYY-MM-DD` text (trimmed; further pieces ignored), or
/// `None` when it is no accepted date.
pub open spec fn civil_days_spec(s: Seq<char>) -> Option<int> {
    let p = split(trim(s), '-');
    match (
        parse_piece(p, 0, true, i32::MIN as int, i32::MAX as int),
        parse_piece(p, 1, false, 0, u32::MAX as int),
        parse_piece(p, 2, false, 0, u32::MAX as int),
    ) {
        (Some(y), Some(m), Some(d)) => if in_service_range(y, m, d) { Some(epoch_day(y, m, d)) } else { None },
        _ => None,
    }
}

/// Day number of a `YYYY-MM-DD` text.
pub fn civil_days_of(date: &str) -> (r: Option<i64>)
    ensures
        match r {
            Some(v) => civil_days_spec(date@) == Some(v as int),
            None => civil_days_spec(date@) is None,
        },
{
    let parts = split_char(trim_str(date), '-');
    let year = match parse_i32(parts[0]) {
        Some(v) => v,
        None => return None,
    };
    if parts.len() < 2 {
        return None;
    }
    let month = match parse_u32(parts[1]) {
        Some(v) => v,
        None => return None,
    };
    if parts.len() < 3 {
        return None;
    }
    let day = match parse_u32(parts[2]) {
        Some(v) => v,
        None => return None,
    };
    days_from_civil(year, month, day)
}

/// Days from `today` until `expiry_on` (negative once expired), or `None`
/// when either is no accepted date, which turns the reminder off.
pub fn expiry_days_left(expiry_on: &str, today: &str) -> (r: Option<i64>)
    ensures
        match (civil_days_spec(expiry_on@), civil_days_spec(today@)) {
            (Some(e), Some(n)) => r matches Some(v) && v as int == e - n,
            _ => r is None,
        },
{
    let expiry = match civil_days_of(expiry_on) {
        Some(v) => v,
        None => return None,
    };
    let now = match civil_days_of(today) {
        Some(v) => v,
        None => return None,
    };
    proof {
        lemma_civil_days_range(expiry_on@);
        lemma_civil_days_range(today@);
    }
    Some(expiry - now)
}

/// Accepted dates have day numbers of 1970 to 9999.
pub proof fn lemma_civil_days_range(s: Seq<char>)
    ensures
        civil_days_spec(s) matches Some(v) ==> 0 <= v <= 2932927,
{
    let p = split(trim(s), '-');
    if let (Some(y), Some(m), Some(d)) = (
        parse_piece(p, 0, true, i32::MIN as int, i32::MAX as int),
        parse_piece(p, 1, false, 0, u32::MAX as int),
        parse_piece(p, 2, false, 0, u32::MAX as int),
    ) {
        if in_service_range(y, m, d) {
            lemma_epoch_day_range(y, m, d);
        }
    }
}

/// `{date}T{HH:MM}`, the text of an inspection time field.
pub open spec fn inspection_text(y: int, m: int, d: int, h: int, mi: int) -> Seq<char> {
    date_text(y, m, d) + seq!['T'] + clock_label(h * 3600 + mi * 60)
}

/// Inspection times round-trip: a `YYYY-MM-DDTHH:MM` field of a service
/// date reads as that minute in China time, its arithmetic stays in range,
/// and the field value written back from that instant is the same text
/// (`datetime_input(parse_datetime(s)) == s`).
pub proof fn lemma_inspection_round_trip(y: int, m: int, d: int, h: int, mi: int)
    requires
        in_service_range(y, m, d),
        0 <= h < 24,
        0 <= mi < 60,
    ensures
        inspection_time_fits(inspection_text(y, m, d, h, mi)),
        inspection_time(inspection_text(y, m, d, h, mi)) == Some(
            epoch_day(y, m, d) * 86_400_000_000 + (h * 3600 + mi * 60) * 1_000_000 - 28_800_000_000,
        ),
        ({
            let v = epoch_day(y, m, d) * 86_400_000_000 + (h * 3600 + mi * 60) * 1_000_000 - 28_800_000_000;
            let c = civil_of(local_day(v));
            date_text(c.0, c.1, c.2) + seq!['T'] + clock_label(local_seconds(v))
        }) == inspection_text(y, m, d, h, mi),
{
    let date = date_text(y, m, d);
    let clock = clock_label(h * 3600 + mi * 60);
    let s = inspection_text(y, m, d, h, mi);
    lemma_date_text_split(y, m, d);
    lemma_clock_label_split(h, mi);
    let k = date.len() as int;
    assert(s[k] == 'T');
    assert forall|i: int| 0 <= i < k implies s[i] != 'T' by {
        assert(s[i] == date[i]);
    }
    assert(first_at(s, 'T', k));
    assert forall|i: int| first_at(s, 'T', i) implies i == k by {
        if i < k {
            assert(s[i] == date[i]);
        }
    }
    assert(s.take(k) =~= date);
    assert(s.skip(k + 1) =~= clock);
    assert(s[0] == date[0]);
    assert(s.last() == clock.last());
    lemma_trim_unchanged(s);
    lemma_parse_padded(y, 4, true, i32::MIN as int, i32::MAX as int);
    lemma_parse_padded(m, 2, false, 0, u32::MAX as int);
    lemma_parse_padded(d, 2, false, 0, u32::MAX as int);
    lemma_parse_padded(h, 2, true, i64::MIN as int, i64::MAX as int);
    lemma_parse_padded(mi, 2, true, i64::MIN as int, i64::MAX as int);
    assert(inspection_time_fields(s) == Some((y, m, d, h, mi)));
    let e = epoch_day(y, m, d);
    lemma_epoch_day_range(y, m, d);
    let secs = h * 3600 + mi * 60;
    let v = e * 86_400_000_000 + secs * 1_000_000 - 28_800_000_000;
    assert(local_day(v) == e && local_seconds(v) == secs) by (nonlinear_arith)
        requires
            0 <= e,
            0 <= h < 24,
            0 <= mi < 60,
            secs == h * 3600 + mi * 60,
            v == e * 86_400_000_000 + secs * 1_000_000 - 28_800_000_000,
    ;
    lemma_civil_of(e);
    let c = civil_of(e);
    lemma_epoch_day_injective(c.0, c.1, c.2, y, m, d);
}

/// A date written as `YYYY-MM-DD` reads back as its day number, so the
/// days left between two written dates are their calendar difference:
/// zero on the expiry day, one the day before.
pub proof fn lemma_civil_days_of_text(y: int, m: int, d: int)
    requires
        in_service_range(y, m, d),
    ensures
        civil_days_spec(date_text(y, m, d)) == Some(epoch_day(y, m, d)),
{
    lemma_date_text_split(y, m, d);
    lemma_trim_unchanged(date_text(y, m, d));
    lemma_parse_padded(y, 4, true, i32::MIN as int, i32::MAX as int);
    lemma_parse_padded(m, 2, false, 0, u32::MAX as int);
    lemma_parse_padded(d, 2, false, 0, u32::MAX as int);
}

/// Today's date at a clock reading reads back, as a written date, as the
/// China-time day of that reading, for every reading whose day lies in
/// 1970-01-01 to 9999-12-31.
pub proof fn lemma_today_reads_back(now: int)
    requires
        0 <= local_day(now) <= 2932896,
    ensures
        civil_days_spec(datetime_label(clamped_reading(now)).take(10)) == Some(local_day(now)),
{
    let z = local_day(now);
    assert(clamped_reading(now) == now);
    lemma_year_of_day_range(z);
    lemma_civil_of(z);
    let c = civil_of(z);
    crate::text::lemma_decimal_short(c.0 as nat);
    crate::text::lemma_decimal_short(c.1 as nat);
    crate::text::lemma_decimal_short(c.2 as nat);
    let t = date_text(c.0, c.1, c.2);
    assert(t.len() == 10);
    assert(datetime_label(now).take(10) =~= t);
    lemma_civil_days_of_text(c.0, c.1, c.2);
}

/// The day after an accepted date, when it is accepted too, has the next
/// day number: `days_from_civil` counts consecutive days.
pub proof fn lemma_next_day_number(y: int, m: int, d: int)
    requires
        in_service_range(y, m, d),
        in_service_range(next_day(y, m, d).0, next_day(y, m, d).1, next_day(y, m, d).2),
    ensures
        epoch_day(next_day(y, m, d).0, next_day(y, m, d).1, next_day(y, m, d).2) == epoch_day(y, m, d) + 1,
{
    lemma_next_day(y, m, d);
}

/// A quantity kept in hundredths reads as its whole part, a point, and
/// exactly two digits: the tens and the units of its hundredths. So
/// `1105` reads `11.05`, and the text gives back `v` as
/// `whole * 100 + tens * 10 + units`.
pub proof fn lemma_hundredths_two_digits(v: nat)
    ensures
        hundredths_text(v) == decimal(v / 100) + seq!['.', digit_char(((v % 100) / 10) as int), digit_char((v % 10) as int)],
        v == (v / 100) * 100 + ((v % 100) / 10) * 10 + v % 10,
{
    let h = v % 100;
    assert(h % 10 == v % 10);
    if h < 10 {
        assert(decimal(h) == seq![digit_char(h as int)]);
        assert(padded(h as int, 2) =~= seq!['0', digit_char(h as int)]);
        assert(h / 10 == 0);
    } else {
        assert(decimal(h / 10) == seq![digit_char((h / 10) as int)]);
        assert(decimal(h) =~= seq![digit_char((h / 10) as int), digit_char((h % 10) as int)]);
        assert(padded(h as int, 2) =~= decimal(h));
    }
    assert(hundredths_text(v) =~= decimal(v / 100) + seq!['.', digit_char(((v % 100) / 10) as int), digit_char((v % 10) as int)]);
}

} // verus!
