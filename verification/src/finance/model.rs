//! Money and date conversion of the finance ledger, and the link counts of
//! bills and expense claims against ledger entries.
use vstd::prelude::*;
use std::collections::BTreeSet;
use crate::calendar::{
    civil_of, lemma_march_year_from_zero, epoch_day, era_days, is_valid_date, lemma_civil_of, lemma_epoch_day_injective, lemma_era_split, lemma_formula_days,
    march_year_start, yoe_of,
};
use crate::daytime::{clamped_reading, date_text, lemma_date_text_split, local_day, local_parts, push_date};
use crate::records::{AmountBill, Finance, Reimbursement};
use crate::sets::{add_id, has_id, no_ids};
use crate::tally::{count, lemma_count_step, lemma_take_all};
use crate::text::{
    lemma_parse_padded, lemma_trim_unchanged, decimal, group3, padded, parse_i32, parse_piece, parse_u32, push_padded, split,
    split_char, trim, trim_str, push_grouped, decimal_string, unsigned_abs,
};
use crate::timestamp::Timestamp;

verus! {

pub const MICROS_PER_DAY: i64 = 86_400_000_000;

pub const CHINA_OFFSET_MICROS: i64 = 28_800_000_000;

/// The ledger's day-number algorithm. Its era for a negative March-based
/// year is taken one too low unless the year is one before a multiple of
/// 400, and then it counts one day less than the calendar.
pub open spec fn ledger_days(y: int, m: int, d: int) -> int {
    let yy = if m <= 2 { y - 1 } else { y };
    epoch_day(y, m, d) - (if yy < 0 && yy % 400 != 399 { 1int } else { 0 })
}

/// The ledger's era split of a March-based year `y`.
proof fn lemma_ledger_era(y: int, era: int)
    requires
        era == (if y >= 0 { y } else { y - 399 }) / 400,
    ensures
        0 <= y - era * 400 < 800,
        era * 146097 + march_year_start(y - era * 400) == era_days(y) - (if y < 0 && y % 400 != 399 { 1int } else { 0 }),
{
    let yoe = y - era * 400;
    if yoe < 400 {
        lemma_era_split(y, era, yoe);
    } else {
        lemma_era_split(y, era + 1, yoe - 400);
    }
}

/// Day number of a ledger date: any year, month 1 to 12, day 1 to 31 (a day
/// past the month's end counts on into the next month).
#[verifier::rlimit(40)]
pub fn days_from_civil(year: i32, month: u32, day: u32) -> (r: Option<i64>)
    ensures
        match r {
            Some(v) => 1 <= month <= 12 && 1 <= day <= 31 && v == ledger_days(year as int, month as int, day as int),
            None => !(1 <= month <= 12 && 1 <= day <= 31),
        },
{
    if !(1 <= month && month <= 12) || day == 0 || day > 31 {
        return None;
    }
    let year = year as i64 - if month <= 2 { 1 } else { 0 };
    let shifted = if year >= 0 { year } else { year - 399 };
    let era = match shifted.checked_div_euclid(400) {
        Some(q) => q,
        None => 0,
    };
    let year_of_era = year - era * 400;
    let month = month as i64;
    let day = day as i64;
    let month_prime = month + if month > 2 { -3 } else { 9 };
    let day_of_year = (153 * month_prime + 2) / 5 + day - 1;
    let day_of_era = year_of_era * 365 + year_of_era / 4 - year_of_era / 100 + day_of_year;
    proof {
        lemma_ledger_era(year as int, era as int);
        lemma_formula_days(if month <= 2 { year + 1 } else { year as int }, month as int, day as int);
    }
    Some(era * 146_097 + day_of_era - 719_468)
}

/// The inverse algorithm from an era and a day of era, over the integers.
pub open spec fn era_civil(era: int, doe: int) -> (int, int, int) {
    let yoe = yoe_of(doe);
    let y = yoe + era * 400;
    let doy = doe - march_year_start(yoe);
    let mp = (5 * doy + 2) / 153;
    let d = doy - (153 * mp + 2) / 5 + 1;
    let m = if mp < 10 { mp + 3 } else { mp - 9 };
    (if m <= 2 { y + 1 } else { y }, m, d)
}

/// The ledger's inverse algorithm. From 0000-03-01 on it is the calendar;
/// before it, its era is taken one too low (unless the day is the last of
/// an era) and the day of era runs past the era.
pub open spec fn ledger_civil(days: int) -> (int, int, int) {
    let z = days + 719468;
    let era = (if z >= 0 { z } else { z - 146096 }) / 146097;
    era_civil(era, z - era * 146097)
}

/// The ledger's inverse agrees with the calendar from 0000-03-01 on, and on
/// the last day of every era.
pub proof fn lemma_ledger_civil(days: int)
    requires
        days + 719468 >= 0 || (days + 719468) % 146097 == 146096,
    ensures
        ledger_civil(days) == civil_of(days),
{
    lemma_civil_of(days);
}

/// Year, month and day of a ledger day number; month and day kept as their
/// low 32 bits.
#[verifier::rlimit(40)]
pub fn civil_from_days(days: i64) -> (r: (i64, u32, u32))
    requires
        days <= i64::MAX - 719_468,
    ensures
        r.0 == ledger_civil(days as int).0,
        r.1 == ledger_civil(days as int).1 as u32,
        r.2 == ledger_civil(days as int).2 as u32,
{
    let z = days + 719_468;
    let shifted = if z >= 0 { z } else { z - 146_096 };
    let era = match shifted.checked_div_euclid(146_097) {
        Some(q) => q,
        None => 0,
    };
    let day_of_era = z - era * 146_097;
    assert(0 <= day_of_era <= 292_192);
    let year_of_era = (day_of_era - day_of_era / 1460 + day_of_era / 36_524 - day_of_era / 146_096) / 365;
    let mut year = year_of_era + era * 400;
    let day_of_year = day_of_era - (365 * year_of_era + year_of_era / 4 - year_of_era / 100);
    let month_prime = (5 * day_of_year + 2) / 153;
    let day = day_of_year - (153 * month_prime + 2) / 5 + 1;
    let month = month_prime + if month_prime < 10 { 3 } else { -9 };
    year += if month <= 2 { 1 } else { 0 };
    (year, month as u32, day as u32)
}


/// `-¥1,234.56`: sign, yuan grouped by thousands, two digits of fen.
pub open spec fn money_text(cents: int) -> Seq<char> {
    let value = if cents < 0 { -cents } else { cents };
    (if cents < 0 { "-"@ } else { Seq::<char>::empty() }) + "¥"@ + group3(decimal((value / 100) as nat)) + seq!['.'] + padded(value % 100, 2)
}

/// An amount in fen as the ledger shows it.
pub fn format_money(cents: i64) -> (r: String)
    ensures
        r@ == money_text(cents as int),
        r@.len() > 0,
        r@[0] == '-' <==> cents < 0,
{
    proof {
        lemma_money_sign(cents as int);
    }
    let value = unsigned_abs(cents);
    let mut out = String::new();
    if cents < 0 {
        out.append("-");
    }
    out.append("¥");
    let whole = decimal_string(value / 100);
    push_grouped(&mut out, whole.as_str());
    proof {
        reveal_strlit(".");
    }
    out.append(".");
    push_padded(&mut out, (value % 100) as i64, 2);
    proof {
        assert(out@ =~= money_text(cents as int));
    }
    out
}

/// An amount as the form field shows it: whole yuan truncated toward zero,
/// then two digits of fen. A loss of less than one yuan shows no sign.
pub open spec fn money_input_text(cents: int) -> Seq<char> {
    let value = if cents < 0 { -cents } else { cents };
    let whole = if cents < 0 { -(value / 100) } else { value / 100 };
    padded(whole, 0) + seq!['.'] + padded(value % 100, 2)
}

/// An amount in fen as the form field shows it.
pub fn money_input(cents: i64) -> (r: String)
    ensures
        r@ == money_input_text(cents as int),
{
    let value = unsigned_abs(cents);
    let whole: i64 = if cents < 0 { 0 - ((value / 100) as i64) } else { (value / 100) as i64 };
    let mut out = String::new();
    push_padded(&mut out, whole, 0);
    proof {
        reveal_strlit(".");
    }
    out.append(".");
    push_padded(&mut out, (value % 100) as i64, 2);
    proof {
        assert(out@ =~= money_input_text(cents as int));
    }
    out
}

/// `YYYY-MM-DD` (China time) of an instant, by the ledger's algorithm.
pub open spec fn ledger_date_label(micros: int) -> Seq<char> {
    let c = ledger_civil(local_day(micros));
    date_text(c.0, (c.1 as u32) as int, (c.2 as u32) as int)
}

/// The transaction date of an instant, `YYYY-MM-DD` in China time.
pub fn format_date(timestamp: Timestamp) -> (r: String)
    requires
        timestamp.micros <= i64::MAX - CHINA_OFFSET_MICROS,
    ensures
        r@ == ledger_date_label(timestamp.micros as int),
{
    let (days, _) = local_parts(timestamp.to_micros_since_unix_epoch());
    let (year, month, day) = civil_from_days(days);
    let mut out = String::new();
    push_date(&mut out, year, month, day);
    proof {
        assert(out@ =~= ledger_date_label(timestamp.micros as int));
    }
    out
}

/// Today's date in China time, `YYYY-MM-DD`, at the clock reading
/// `now_micros` (microseconds since the epoch); a reading past the last
/// representable day is taken as that day.
pub fn today(now_micros: i64) -> (r: String)
    ensures
        r@ == ledger_date_label(clamped_reading(now_micros as int)),
{
    let clamped = if now_micros > i64::MAX - CHINA_OFFSET_MICROS { i64::MAX - CHINA_OFFSET_MICROS } else { now_micros };
    format_date(Timestamp::from_micros_since_unix_epoch(clamped))
}

/// The year, month and day pieces of a transaction date text.
pub open spec fn ledger_date_fields(s: Seq<char>) -> Option<(int, int, int)> {
    let p = split(trim(s), '-');
    match (
        parse_piece(p, 0, true, i32::MIN as int, i32::MAX as int),
        parse_piece(p, 1, false, 0, u32::MAX as int),
        parse_piece(p, 2, false, 0, u32::MAX as int),
    ) {
        (Some(y), Some(m), Some(d)) => Some((y, m, d)),
        _ => None,
    }
}

/// What `parse_date` makes of a transaction date text.
pub open spec fn parse_ledger_date(s: Seq<char>) -> Result<int, Seq<char>> {
    if split(trim(s), '-').len() > 3 {
        Err("交易日期格式不正确"@)
    } else {
        match ledger_date_fields(s) {
            Some((y, m, d)) => if 1 <= m <= 12 && 1 <= d <= 31 {
                Ok(ledger_days(y, m, d) * 86_400_000_000 - 28_800_000_000)
            } else {
                Err("请选择正确的交易日期"@)
            },
            None => Err("请选择正确的交易日期"@),
        }
    }
}

/// The instant of an accepted transaction date stays within `i64` (years
/// up to some 290 thousand either way).
pub open spec fn ledger_date_fits(s: Seq<char>) -> bool {
    match parse_ledger_date(s) {
        Ok(v) => i64::MIN <= v && v + 28_800_000_000 <= i64::MAX,
        Err(_) => true,
    }
}

/// Whether the instant of a transaction date text stays within `i64`
/// (`ledger_date_fits`); a text that is no date passes.
pub fn ledger_date_in_range(value: &str) -> (r: bool)
    ensures
        r == ledger_date_fits(value@),
{
    let parts = split_char(trim_str(value), '-');
    if parts.len() > 3 {
        return true;
    }
    let year = parse_i32(parts[0]);
    let month = if parts.len() > 1 { parse_u32(parts[1]) } else { None };
    let day = if parts.len() > 2 { parse_u32(parts[2]) } else { None };
    match (year, month, day) {
        (Some(year), Some(month), Some(day)) => match days_from_civil(year, month, day) {
            Some(days) => {
                let micros = days as i128 * 86_400_000_000 - 28_800_000_000;
                i64::MIN as i128 <= micros && micros + 28_800_000_000 <= i64::MAX as i128
            },
            None => true,
        },
        _ => true,
    }
}

/// Reads a transaction date `YYYY-MM-DD` as midnight in China time.
pub fn parse_date(value: &str) -> (r: Result<Timestamp, String>)
    requires
        ledger_date_fits(value@),
    ensures
        match (r, parse_ledger_date(value@)) {
            (Ok(t), Ok(v)) => t.micros == v,
            (Err(e), Err(w)) => e@ == w,
            _ => false,
        },
{
    let parts = split_char(trim_str(value), '-');
    if parts.len() > 3 {
        return Err(String::from_str("交易日期格式不正确"));
    }
    let year = parse_i32(parts[0]);
    let month = if parts.len() > 1 { parse_u32(parts[1]) } else { None };
    let day = if parts.len() > 2 { parse_u32(parts[2]) } else { None };
    match (year, month, day) {
        (Some(year), Some(month), Some(day)) => match days_from_civil(year, month, day) {
            Some(days) => Ok(Timestamp::from_micros_since_unix_epoch(days * MICROS_PER_DAY - CHINA_OFFSET_MICROS)),
            None => Err(String::from_str("请选择正确的交易日期")),
        },
        _ => Err(String::from_str("请选择正确的交易日期")),
    }
}

/// Ledger entry `id` exists and is not deleted.
pub open spec fn is_live_finance(finances: Seq<Finance>, id: u64) -> bool {
    exists|i: int| 0 <= i < finances.len() && !finances[i].is_deleted && finances[i].finance_id == id
}

/// Ids of the ledger entries that are not deleted.
pub fn active_finance_ids(finances: &[Finance]) -> (r: BTreeSet<u64>)
    ensures
        forall|id: u64| #[trigger] r@.contains(id) <==> is_live_finance(finances@, id),
{
    let mut ids = no_ids();
    let mut i: usize = 0;
    while i < finances.len()
        invariant
            0 <= i <= finances@.len(),
            forall|id: u64| #[trigger] ids@.contains(id) <==> is_live_finance(finances@.take(i as int), id),
        decreases finances@.len() - i,
    {
        let ghost before = ids@;
        if !finances[i].is_deleted {
            add_id(&mut ids, finances[i].finance_id);
        }
        proof {
            let t = finances@.take(i + 1);
            let u = finances@.take(i as int);
            assert forall|id: u64| #[trigger] ids@.contains(id) <==> is_live_finance(t, id) by {
                if is_live_finance(t, id) {
                    let k = choose|k: int| 0 <= k < t.len() && !t[k].is_deleted && t[k].finance_id == id;
                    if k < i {
                        assert(u[k] == t[k]);
                    }
                }
                if is_live_finance(u, id) {
                    let k = choose|k: int| 0 <= k < u.len() && !u[k].is_deleted && u[k].finance_id == id;
                    assert(u[k] == t[k]);
                }
                if !finances@[i as int].is_deleted && finances@[i as int].finance_id == id {
                    assert(t[i as int] == finances@[i as int]);
                }
            }
        }
        i = i + 1;
    }
    proof {
        assert(finances@.take(i as int) =~= finances@);
    }
    ids
}

pub open spec fn bill_linked(finances: Seq<Finance>) -> spec_fn(AmountBill) -> bool {
    |b: AmountBill| is_live_finance(finances, b.finance_id)
}

pub open spec fn bill_orphaned(finances: Seq<Finance>) -> spec_fn(AmountBill) -> bool {
    |b: AmountBill| !is_live_finance(finances, b.finance_id)
}

/// Bills whose `finance_id` points at a ledger entry that is not deleted,
/// and bills whose entry is deleted or missing.
pub fn bill_finance_link_counts(bills: &[AmountBill], finances: &[Finance]) -> (r: (usize, usize))
    ensures
        r.0 == count(bills@, bill_linked(finances@)),
        r.1 == count(bills@, bill_orphaned(finances@)),
        r.0 + r.1 == bills@.len(),
{
    let active = active_finance_ids(finances);
    let ghost pl = bill_linked(finances@);
    let ghost po = bill_orphaned(finances@);
    let mut linked: usize = 0;
    let mut orphaned: usize = 0;
    let mut i: usize = 0;
    while i < bills.len()
        invariant
            pl == bill_linked(finances@),
            po == bill_orphaned(finances@),
            forall|id: u64| #[trigger] active@.contains(id) <==> is_live_finance(finances@, id),
            0 <= i <= bills@.len(),
            linked == count(bills@.take(i as int), pl),
            orphaned == count(bills@.take(i as int), po),
            linked + orphaned == i,
        decreases bills@.len() - i,
    {
        proof {
            lemma_count_step(bills@, pl, i as int);
            lemma_count_step(bills@, po, i as int);
        }
        let hit = has_id(&active, bills[i].finance_id);
        assert(pl(bills@[i as int]) == hit);
        assert(po(bills@[i as int]) == !hit);
        if hit {
            linked = linked + 1;
        } else {
            orphaned = orphaned + 1;
        }
        i = i + 1;
    }
    proof {
        lemma_take_all(bills@);
    }
    (linked, orphaned)
}

/// A bill with id `id` exists.
pub open spec fn is_known_bill(bills: Seq<AmountBill>, id: u64) -> bool {
    exists|i: int| 0 <= i < bills.len() && bills[i].bill_id == id
}

pub open spec fn utility_linked(bills: Seq<AmountBill>) -> spec_fn(u64) -> bool {
    |id: u64| is_known_bill(bills, id)
}

pub open spec fn utility_orphaned(bills: Seq<AmountBill>) -> spec_fn(u64) -> bool {
    |id: u64| !is_known_bill(bills, id)
}

/// Ids of the bills.
fn bill_ids(bills: &[AmountBill]) -> (r: BTreeSet<u64>)
    ensures
        forall|id: u64| #[trigger] r@.contains(id) <==> is_known_bill(bills@, id),
{
    let mut ids = no_ids();
    let mut i: usize = 0;
    while i < bills.len()
        invariant
            0 <= i <= bills@.len(),
            forall|id: u64| #[trigger] ids@.contains(id) <==> is_known_bill(bills@.take(i as int), id),
        decreases bills@.len() - i,
    {
        add_id(&mut ids, bills[i].bill_id);
        proof {
            let t = bills@.take(i + 1);
            let u = bills@.take(i as int);
            assert forall|id: u64| #[trigger] ids@.contains(id) <==> is_known_bill(t, id) by {
                if is_known_bill(t, id) {
                    let k = choose|k: int| 0 <= k < t.len() && t[k].bill_id == id;
                    if k < i {
                        assert(u[k] == t[k]);
                    }
                }
                if is_known_bill(u, id) {
                    let k = choose|k: int| 0 <= k < u.len() && u[k].bill_id == id;
                    assert(u[k] == t[k]);
                }
                if bills@[i as int].bill_id == id {
                    assert(t[i as int] == bills@[i as int]);
                }
            }
        }
        i = i + 1;
    }
    proof {
        assert(bills@.take(i as int) =~= bills@);
    }
    ids
}

/// Utility bill details whose `bill_id` points at an existing bill, and
/// those that point at none. Bills are never soft-deleted, so a detail
/// without its bill is left-over data.
pub fn utility_bill_link_counts(bill_ids_of_details: &[u64], bills: &[AmountBill]) -> (r: (usize, usize))
    ensures
        r.0 == count(bill_ids_of_details@, utility_linked(bills@)),
        r.1 == count(bill_ids_of_details@, utility_orphaned(bills@)),
        r.0 + r.1 == bill_ids_of_details@.len(),
{
    let known = bill_ids(bills);
    let ghost pl = utility_linked(bills@);
    let ghost po = utility_orphaned(bills@);
    let mut linked: usize = 0;
    let mut orphaned: usize = 0;
    let mut i: usize = 0;
    while i < bill_ids_of_details.len()
        invariant
            pl == utility_linked(bills@),
            po == utility_orphaned(bills@),
            forall|id: u64| #[trigger] known@.contains(id) <==> is_known_bill(bills@, id),
            0 <= i <= bill_ids_of_details@.len(),
            linked == count(bill_ids_of_details@.take(i as int), pl),
            orphaned == count(bill_ids_of_details@.take(i as int), po),
            linked + orphaned == i,
        decreases bill_ids_of_details@.len() - i,
    {
        proof {
            lemma_count_step(bill_ids_of_details@, pl, i as int);
            lemma_count_step(bill_ids_of_details@, po, i as int);
        }
        let hit = has_id(&known, bill_ids_of_details[i]);
        assert(pl(bill_ids_of_details@[i as int]) == hit);
        assert(po(bill_ids_of_details@[i as int]) == !hit);
        if hit {
            linked = linked + 1;
        } else {
            orphaned = orphaned + 1;
        }
        i = i + 1;
    }
    proof {
        lemma_take_all(bill_ids_of_details@);
    }
    (linked, orphaned)
}

/// A current claim whose payment entry exists and is not deleted.
pub open spec fn claim_linked(finances: Seq<Finance>) -> spec_fn(Reimbursement) -> bool {
    |c: Reimbursement| !c.is_deleted && (c.finance_id matches Some(id) && is_live_finance(finances, id))
}

/// A current claim without a live payment entry yet.
pub open spec fn claim_pending(finances: Seq<Finance>) -> spec_fn(Reimbursement) -> bool {
    |c: Reimbursement| !c.is_deleted && !(c.finance_id matches Some(id) && is_live_finance(finances, id))
}

/// Current (not deleted) expense claims that already point at a live
/// ledger entry, and those that do not yet. A claim gets its entry only
/// once approved, so the second number is work in progress, not a gap.
pub fn reimbursement_finance_link_counts(reimbursements: &[Reimbursement], finances: &[Finance]) -> (r: (usize, usize))
    ensures
        r.0 == count(reimbursements@, claim_linked(finances@)),
        r.1 == count(reimbursements@, claim_pending(finances@)),
{
    let active = active_finance_ids(finances);
    let ghost pl = claim_linked(finances@);
    let ghost pp = claim_pending(finances@);
    let mut linked: usize = 0;
    let mut pending: usize = 0;
    let mut i: usize = 0;
    while i < reimbursements.len()
        invariant
            pl == claim_linked(finances@),
            pp == claim_pending(finances@),
            forall|id: u64| #[trigger] active@.contains(id) <==> is_live_finance(finances@, id),
            0 <= i <= reimbursements@.len(),
            linked == count(reimbursements@.take(i as int), pl),
            pending == count(reimbursements@.take(i as int), pp),
            linked + pending <= i,
        decreases reimbursements@.len() - i,
    {
        proof {
            lemma_count_step(reimbursements@, pl, i as int);
            lemma_count_step(reimbursements@, pp, i as int);
        }
        let row = &reimbursements[i];
        if !row.is_deleted {
            let hit = match row.finance_id {
                Some(id) => has_id(&active, id),
                None => false,
            };
            assert(pl(reimbursements@[i as int]) == hit);
            assert(pp(reimbursements@[i as int]) == !hit);
            if hit {
                linked = linked + 1;
            } else {
                pending = pending + 1;
            }
        }
        i = i + 1;
    }
    proof {
        lemma_take_all(reimbursements@);
    }
    (linked, pending)
}

/// Deleted expense claims take no part in the link figures: adding one to
/// the list changes neither the linked nor the pending count.
pub proof fn lemma_deleted_claim_not_counted(claims: Seq<Reimbursement>, finances: Seq<Finance>, deleted: Reimbursement)
    requires
        deleted.is_deleted,
    ensures
        count(claims.push(deleted), claim_linked(finances)) == count(claims, claim_linked(finances)),
        count(claims.push(deleted), claim_pending(finances)) == count(claims, claim_pending(finances)),
{
    crate::tally::lemma_count_push_skipped(claims, claim_linked(finances), deleted);
    crate::tally::lemma_count_push_skipped(claims, claim_pending(finances), deleted);
}

/// Transaction dates round-trip through the ledger form for the dates of
/// years 1 to 9999: reading `YYYY-MM-DD` gives the date's midnight in China
/// time, and the date shown for that instant is the same text
/// (`format_date(parse_date(s)) == s`).
pub proof fn lemma_ledger_date_round_trip(y: int, m: int, d: int)
    requires
        1 <= y <= 9999,
        is_valid_date(y, m, d),
    ensures
        parse_ledger_date(date_text(y, m, d)) == Ok::<int, Seq<char>>(
            epoch_day(y, m, d) * 86_400_000_000 - 28_800_000_000,
        ),
        ledger_date_label(epoch_day(y, m, d) * 86_400_000_000 - 28_800_000_000) == date_text(y, m, d),
{
    let s = date_text(y, m, d);
    lemma_date_text_split(y, m, d);
    lemma_trim_unchanged(s);
    lemma_parse_padded(y, 4, true, i32::MIN as int, i32::MAX as int);
    lemma_parse_padded(m, 2, false, 0, u32::MAX as int);
    lemma_parse_padded(d, 2, false, 0, u32::MAX as int);
    assert(ledger_date_fields(s) == Some((y, m, d)));
    let e = epoch_day(y, m, d);
    lemma_formula_days(y, m, d);
    let yy = if m <= 2 { y - 1 } else { y };
    let mp = if m > 2 { m - 3 } else { m + 9 };
    assert(era_days(yy) + (153 * mp + 2) / 5 + d - 1 >= 0) by (nonlinear_arith)
        requires
            yy >= 0,
            0 <= mp <= 11,
            d >= 1,
    ;
    assert(e + 719468 >= 0);
    assert(ledger_days(y, m, d) == e);
    assert(local_day(e * 86_400_000_000 - 28_800_000_000) == e) by (nonlinear_arith);
    lemma_ledger_civil(e);
    lemma_civil_of(e);
    let c = civil_of(e);
    lemma_epoch_day_injective(c.0, c.1, c.2, y, m, d);
}

/// The ledger's two algorithms are inverse from 0000-03-01 on: the date
/// `civil_from_days` gives for a day number is a valid date, and the ledger's
/// day number of that date is the number again.
pub proof fn lemma_ledger_day_round_trip(days: int)
    requires
        days + 719468 >= 0,
    ensures
        is_valid_date(ledger_civil(days).0, ledger_civil(days).1, ledger_civil(days).2),
        ledger_days(ledger_civil(days).0, ledger_civil(days).1, ledger_civil(days).2) == days,
{
    lemma_ledger_civil(days);
    lemma_civil_of(days);
    lemma_march_year_from_zero(days);
}

/// An amount of money starts with a minus sign exactly when it is negative,
/// and a negative amount is its absolute value with `-` in front:
/// `format_money(-c) == "-" + format_money(c)` for every `c > 0`.
pub proof fn lemma_money_sign(cents: int)
    ensures
        money_text(cents).len() > 0,
        money_text(cents)[0] == '-' <==> cents < 0,
        cents > 0 ==> money_text(-cents) == "-"@ + money_text(cents),
{
    reveal_strlit("-");
    reveal_strlit("¥");
    if cents > 0 {
        assert(money_text(-cents) =~= "-"@ + money_text(cents));
    }
    if cents >= 0 {
        assert(money_text(cents)[0] == '¥');
    }
}

} // verus!
