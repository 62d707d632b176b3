//! The finance overview: how rent bills, utility bills, ledger entries and
//! expense claims hang together, and the ledger page's money figures.
use vstd::prelude::*;
use crate::finance::model::{
    ledger_date_fits, parse_date, parse_ledger_date, bill_finance_link_counts, bill_linked, bill_orphaned, claim_linked, claim_pending, format_money,
    money_text, reimbursement_finance_link_counts, utility_bill_link_counts, utility_linked,
    utility_orphaned,
};
use crate::records::{AmountBill, Finance, Reimbursement};
use crate::tally::{count, lemma_count_step, lemma_take_all};
use crate::text::{owned, str_eq};

verus! {

pub open spec fn live_entry() -> spec_fn(Finance) -> bool {
    |f: Finance| !f.is_deleted
}

pub open spec fn live_claim() -> spec_fn(Reimbursement) -> bool {
    |c: Reimbursement| !c.is_deleted
}

/// The figures of the finance overview.
#[derive(Clone, Debug)]
pub struct FinanceOverview {
    pub bill_count: usize,
    pub ele_bill_count: usize,
    pub water_bill_count: usize,
    pub ele_linked: usize,
    pub ele_orphaned: usize,
    pub water_linked: usize,
    pub water_orphaned: usize,
    pub bill_linked: usize,
    pub bill_orphaned: usize,
    pub finance_count: usize,
    pub reimbursement_count: usize,
    pub reimbursement_linked: usize,
    pub reimbursement_pending: usize,
    /// The largest of the stage counts, at least 1: the scale of the bars.
    pub max_count: usize,
}

/// The larger of two counts.
pub open spec fn larger(a: int, b: int) -> int {
    if a >= b { a } else { b }
}

/// The figures of the finance overview: rent bills and the electricity and
/// water details (given by the bill each names) with and without a known
/// bill; bills with and without a live ledger entry; live entries; live
/// claims with and without a live entry.
pub fn finance_overview(
    finances: &[Finance],
    amount_bills: &[AmountBill],
    ele_bill_ids: &[u64],
    water_bill_ids: &[u64],
    reimbursements: &[Reimbursement],
) -> (r: FinanceOverview)
    ensures
        r.bill_count == amount_bills@.len(),
        r.ele_bill_count == ele_bill_ids@.len(),
        r.water_bill_count == water_bill_ids@.len(),
        r.ele_linked == count(ele_bill_ids@, utility_linked(amount_bills@)),
        r.ele_orphaned == count(ele_bill_ids@, utility_orphaned(amount_bills@)),
        r.water_linked == count(water_bill_ids@, utility_linked(amount_bills@)),
        r.water_orphaned == count(water_bill_ids@, utility_orphaned(amount_bills@)),
        r.bill_linked == count(amount_bills@, bill_linked(finances@)),
        r.bill_orphaned == count(amount_bills@, bill_orphaned(finances@)),
        r.finance_count == count(finances@, live_entry()),
        r.reimbursement_count == count(reimbursements@, live_claim()),
        r.reimbursement_linked == count(reimbursements@, claim_linked(finances@)),
        r.reimbursement_pending == count(reimbursements@, claim_pending(finances@)),
        r.max_count as int == larger(
            larger(
                larger(
                    larger(r.bill_count as int, larger(r.ele_bill_count as int, r.water_bill_count as int)),
                    r.finance_count as int,
                ),
                r.reimbursement_count as int,
            ),
            1,
        ),
{
    let (ele_linked, ele_orphaned) = utility_bill_link_counts(ele_bill_ids, amount_bills);
    let (water_linked, water_orphaned) = utility_bill_link_counts(water_bill_ids, amount_bills);
    let (bill_linked_count, bill_orphaned_count) = bill_finance_link_counts(amount_bills, finances);
    let (reimbursement_linked, reimbursement_pending) = reimbursement_finance_link_counts(
        reimbursements,
        finances,
    );
    let ghost pf = live_entry();
    let mut finance_count: usize = 0;
    let mut i: usize = 0;
    while i < finances.len()
        invariant
            0 <= i <= finances@.len(),
            pf == live_entry(),
            finance_count == count(finances@.take(i as int), pf),
            finance_count <= i,
        decreases finances@.len() - i,
    {
        proof {
            lemma_count_step(finances@, pf, i as int);
        }
        if !finances[i].is_deleted {
            finance_count = finance_count + 1;
        }
        i = i + 1;
    }
    let ghost pc = live_claim();
    let mut reimbursement_count: usize = 0;
    let mut j: usize = 0;
    while j < reimbursements.len()
        invariant
            0 <= j <= reimbursements@.len(),
            pc == live_claim(),
            reimbursement_count == count(reimbursements@.take(j as int), pc),
            reimbursement_count <= j,
        decreases reimbursements@.len() - j,
    {
        proof {
            lemma_count_step(reimbursements@, pc, j as int);
        }
        if !reimbursements[j].is_deleted {
            reimbursement_count = reimbursement_count + 1;
        }
        j = j + 1;
    }
    proof {
        lemma_take_all(finances@);
        lemma_take_all(reimbursements@);
    }
    let utility = if ele_bill_ids.len() >= water_bill_ids.len() {
        ele_bill_ids.len()
    } else {
        water_bill_ids.len()
    };
    let m1 = if amount_bills.len() >= utility { amount_bills.len() } else { utility };
    let m2 = if m1 >= finance_count { m1 } else { finance_count };
    let m3 = if m2 >= reimbursement_count { m2 } else { reimbursement_count };
    let max_count = if m3 >= 1 { m3 } else { 1 };
    FinanceOverview {
        bill_count: amount_bills.len(),
        ele_bill_count: ele_bill_ids.len(),
        water_bill_count: water_bill_ids.len(),
        ele_linked,
        ele_orphaned,
        water_linked,
        water_orphaned,
        bill_linked: bill_linked_count,
        bill_orphaned: bill_orphaned_count,
        finance_count,
        reimbursement_count,
        reimbursement_linked,
        reimbursement_pending,
        max_count,
    }
}

/// The balance shown on the ledger page: income less expense, held at the
/// ends of `i64` where the difference would leave it.
pub fn balance_label(income_cents: i64, expense_cents: i64) -> (r: String)
    ensures
        r@ == money_text(
            if income_cents - expense_cents > i64::MAX {
                i64::MAX as int
            } else if income_cents - expense_cents < i64::MIN {
                i64::MIN as int
            } else {
                income_cents - expense_cents
            },
        ),
{
    let difference = income_cents as i128 - expense_cents as i128;
    let held = if difference > i64::MAX as i128 {
        i64::MAX
    } else if difference < i64::MIN as i128 {
        i64::MIN
    } else {
        difference as i64
    };
    format_money(held)
}

/// Rows per page of the ledger.
pub const LEDGER_PAGE_SIZE: u32 = 20;

/// What the ledger page asks the server for.
#[derive(Clone, Debug)]
pub struct FinancePageQuery {
    pub page: u32,
    pub page_size: u32,
    pub keyword: String,
    pub transaction_type: Option<String>,
    pub park_id: Option<u64>,
    pub start_time_micros: Option<i64>,
    pub end_time_micros: Option<i64>,
}

/// The last microsecond of the day an accepted end date starts.
pub open spec fn day_end(s: Seq<char>) -> Option<int> {
    match parse_ledger_date(s) {
        Ok(v) => Some(v + 86_400_000_000 - 1),
        Err(_) => None,
    }
}

/// The query for the ledger's filters: every type for `全部`, every park
/// for 0, the start date's first and the end date's last microsecond (no
/// bound for a date that does not read), the page number cut to 32 bits.
pub fn history_query(
    page: usize,
    keyword: &str,
    transaction_type: &str,
    park_filter: u64,
    start_date: &str,
    end_date: &str,
) -> (r: FinancePageQuery)
    requires
        ledger_date_fits(start_date@),
        ledger_date_fits(end_date@),
        day_end(end_date@) matches Some(v) ==> v <= i64::MAX,
    ensures
        r.page == page as u32,
        r.page_size == LEDGER_PAGE_SIZE,
        r.keyword@ == keyword@,
        match r.transaction_type {
            Some(t) => transaction_type@ != "全部"@ && t@ == transaction_type@,
            None => transaction_type@ == "全部"@,
        },
        r.park_id == (if park_filter != 0 { Some(park_filter) } else { None }),
        match r.start_time_micros {
            Some(v) => parse_ledger_date(start_date@) == Ok::<int, Seq<char>>(v as int),
            None => parse_ledger_date(start_date@) is Err,
        },
        match r.end_time_micros {
            Some(v) => day_end(end_date@) == Some(v as int),
            None => day_end(end_date@) is None,
        },
{
    let kind = if str_eq(transaction_type, "全部") {
        None
    } else {
        Some(owned(transaction_type))
    };
    let start = match parse_date(start_date) {
        Ok(t) => Some(t.to_micros_since_unix_epoch()),
        Err(_) => None,
    };
    let end = match parse_date(end_date) {
        Ok(t) => Some(t.to_micros_since_unix_epoch() + 86_400_000_000 - 1),
        Err(_) => None,
    };
    FinancePageQuery {
        page: page as u32,
        page_size: LEDGER_PAGE_SIZE,
        keyword: owned(keyword),
        transaction_type: kind,
        park_id: if park_filter != 0 { Some(park_filter) } else { None },
        start_time_micros: start,
        end_time_micros: end,
    }
}

/// The question asked before a ledger entry is archived: its name and
/// amount.
pub fn delete_description(bill_name: &str, amount_cents: i64) -> (r: String)
    ensures
        r@ == "将归档“"@ + bill_name@ + "”（"@ + money_text(amount_cents as int) + "），历史关联账单或报销不会被物理删除。"@,
{
    let mut out = String::from_str("将归档“");
    out.append(bill_name);
    out.append("”（");
    let amount = format_money(amount_cents);
    out.append(amount.as_str());
    out.append("），历史关联账单或报销不会被物理删除。");
    out
}

} // verus!
