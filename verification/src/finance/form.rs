//! The ledger entry form: the order of its checks, its messages, the record
//! it submits and the proof images it keeps.
use vstd::prelude::*;
use crate::finance::model::{ledger_date_fits, parse_date, parse_ledger_date};
use crate::finance::overview::FinanceProof;
use crate::text::{is_blank, is_blank_str, owned};
use crate::timestamp::Timestamp;

verus! {

broadcast use vstd::seq_lib::group_seq_properties;

pub const BILL_NAME_REQUIRED: &'static str = "请输入账目名称";

/// The fields of the ledger entry form, as typed. The amount field is read
/// by its own parser, whose outcome the check takes.
#[derive(Clone, Debug)]
pub struct FinanceForm {
    pub bill_name: String,
    pub category: String,
    pub transaction_type: String,
    pub date: String,
    pub park_id: u64,
    pub remark: String,
}

/// What the ledger entry form submits.
#[derive(Clone, Debug)]
pub struct FinanceInput {
    pub bill_name: String,
    pub bill_category: String,
    pub amount_cents: i64,
    pub transaction_type: String,
    pub transaction_time: Timestamp,
    pub remark: Option<String>,
    pub park_id: Option<u64>,
    pub status: u8,
}

/// Title of the dialog.
pub fn form_title(editing: bool) -> (r: &'static str)
    ensures
        r@ == (if editing { "修改收支"@ } else { "新增收支"@ }),
{
    if editing {
        "修改收支"
    } else {
        "新增收支"
    }
}

/// The first complaint about the form whose amount field read as `amount`:
/// the amount parser's message, then the date's, then a blank name.
pub open spec fn finance_form_error(f: FinanceForm, amount: Result<i64, Seq<char>>) -> Option<
    Seq<char>,
> {
    if amount is Err {
        Some(amount->Err_0)
    } else if parse_ledger_date(f.date@) is Err {
        Some(parse_ledger_date(f.date@)->Err_0)
    } else if is_blank(f.bill_name@) {
        Some(BILL_NAME_REQUIRED@)
    } else {
        None
    }
}

/// An amount outcome with its message taken by view.
pub open spec fn amount_view(r: Result<i64, String>) -> Result<i64, Seq<char>> {
    match r {
        Ok(v) => Ok(v),
        Err(e) => Err(e@),
    }
}

/// Checks the form, given what the amount parser made of its amount field,
/// and builds the entry it submits: name and remark as typed (a blank
/// remark left out), park 0 meaning none, status 1.
pub fn check_finance_form(f: &FinanceForm, amount: Result<i64, String>) -> (r: Result<
    FinanceInput,
    String,
>)
    requires
        amount is Ok ==> ledger_date_fits(f.date@),
    ensures
        match r {
            Err(e) => finance_form_error(*f, amount_view(amount)) == Some(e@),
            Ok(input) => {
                &&& finance_form_error(*f, amount_view(amount)) is None
                &&& input.bill_name@ == f.bill_name@
                &&& input.bill_category@ == f.category@
                &&& amount == Ok::<i64, String>(input.amount_cents)
                &&& input.transaction_type@ == f.transaction_type@
                &&& parse_ledger_date(f.date@) == Ok::<int, Seq<char>>(
                    input.transaction_time.micros as int,
                )
                &&& match input.remark {
                    Some(m) => !is_blank(f.remark@) && m@ == f.remark@,
                    None => is_blank(f.remark@),
                }
                &&& input.park_id == (if f.park_id != 0 { Some(f.park_id) } else { None })
                &&& input.status == 1
            },
        },
{
    let amount_cents = match amount {
        Ok(v) => v,
        Err(m) => return Err(m),
    };
    let transaction_time = match parse_date(f.date.as_str()) {
        Ok(t) => t,
        Err(m) => return Err(m),
    };
    if is_blank_str(f.bill_name.as_str()) {
        return Err(String::from_str(BILL_NAME_REQUIRED));
    }
    let remark = if is_blank_str(f.remark.as_str()) {
        None
    } else {
        Some(owned(f.remark.as_str()))
    };
    Ok(FinanceInput {
        bill_name: owned(f.bill_name.as_str()),
        bill_category: owned(f.category.as_str()),
        amount_cents,
        transaction_type: owned(f.transaction_type.as_str()),
        transaction_time,
        remark,
        park_id: if f.park_id != 0 { Some(f.park_id) } else { None },
        status: 1,
    })
}

/// Addresses of the stored proofs that stay, in list order.
pub open spec fn kept_proof_urls(s: Seq<FinanceProof>) -> Seq<Seq<char>>
    decreases s.len(),
{
    if s.len() == 0 {
        Seq::empty()
    } else {
        kept_proof_urls(s.drop_last()) + match s.last() {
            FinanceProof::Existing { url, removed, .. } => if !removed {
                seq![url@]
            } else {
                Seq::empty()
            },
            FinanceProof::Pending { .. } => Seq::empty(),
        }
    }
}

/// The addresses a save of the form starts its image list with: the stored
/// proofs not marked for removal. Uploaded files are added after them.
pub fn kept_urls(proofs: &[FinanceProof]) -> (r: Vec<String>)
    ensures
        r@.len() == kept_proof_urls(proofs@).len(),
        forall|i: int| 0 <= i < r@.len() ==> (#[trigger] r@[i])@ == kept_proof_urls(proofs@)[i],
{
    let mut out: Vec<String> = Vec::new();
    let mut i: usize = 0;
    while i < proofs.len()
        invariant
            0 <= i <= proofs@.len(),
            out@.len() == kept_proof_urls(proofs@.take(i as int)).len(),
            forall|k: int|
                0 <= k < out@.len() ==> (#[trigger] out@[k])@ == kept_proof_urls(
                    proofs@.take(i as int),
                )[k],
        decreases proofs@.len() - i,
    {
        let ghost before = proofs@.take(i as int);
        let ghost after = proofs@.take(i + 1);
        assert(after.drop_last() =~= before);
        assert(after.last() == proofs@[i as int]);
        match &proofs[i] {
            FinanceProof::Existing { url, removed, .. } => {
                if !*removed {
                    out.push(url.clone());
                }
            },
            FinanceProof::Pending { .. } => {},
        }
        i = i + 1;
    }
    assert(proofs@.take(proofs@.len() as int) =~= proofs@);
    out
}

/// Most proof images one ledger entry holds.
pub const MAX_FINANCE_PROOFS: usize = 8;

/// What picking image files does to a form holding `held` proofs, given the
/// outcome of the image check of each picked file in order: files are taken
/// while fewer than eight proofs are held and the check passes. The first
/// file past the limit stops the pick with the limit's message; the first
/// file the check refuses stops it with the check's message. Returns how
/// many files are taken and the message, if any.
pub fn take_picked_files(held: usize, checks: &[Result<(), String>]) -> (r: (usize, Option<String>))
    ensures
        r.0 <= checks@.len(),
        forall|i: int| 0 <= i < r.0 ==> held + i < 8 && (#[trigger] checks@[i]) is Ok,
        r.0 == checks@.len() ==> r.1 is None,
        r.0 < checks@.len() ==> (r.1 matches Some(m) && m@ == (if held + r.0 >= 8 {
            "每条财务流水最多上传 8 张凭证"@
        } else {
            match checks@[r.0 as int] {
                Err(e) => e@,
                Ok(_) => Seq::empty(),
            }
        })),
        r.0 < checks@.len() ==> (held + r.0 >= 8 || checks@[r.0 as int] is Err),
{
    let mut i: usize = 0;
    while i < checks.len()
        invariant
            0 <= i <= checks@.len(),
            forall|k: int| 0 <= k < i ==> held + k < 8 && (#[trigger] checks@[k]) is Ok,
        decreases checks@.len() - i,
    {
        if held >= MAX_FINANCE_PROOFS || i >= MAX_FINANCE_PROOFS - held {
            return (i, Some(String::from_str("每条财务流水最多上传 8 张凭证")));
        }
        match &checks[i] {
            Ok(()) => {},
            Err(e) => {
                return (i, Some(owned(e.as_str())));
            },
        }
        i = i + 1;
    }
    (i, None)
}

} // verus!
