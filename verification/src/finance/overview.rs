//! The ledger page: masked amounts and the proof images of an entry.
use vstd::prelude::*;
use crate::text::{decimal, decimal_string, padded, push_decimal, push_padded, unsigned_abs};

verus! {

/// `-¥ 1*****.23`: sign, the first digit of the yuan, a mask, the fen.
pub open spec fn masked_text(cents: int) -> Seq<char> {
    let value = if cents < 0 { -cents } else { cents };
    (if cents < 0 { "-"@ } else { Seq::<char>::empty() }) + "¥ "@ + seq![decimal((value / 100) as nat)[0]]
        + "*****."@ + padded(value % 100, 2)
}

/// An amount with all but its first digit of yuan hidden.
pub fn masked_money(amount_cents: i64) -> (r: String)
    ensures
        r@ == masked_text(amount_cents as int),
{
    let value = unsigned_abs(amount_cents);
    let major = decimal_string(value / 100);
    proof {
        crate::text::lemma_padded_len((value / 100) as int, 0);
    }
    let first = major.as_str().substring_char(0, 1);
    let mut out = String::new();
    if amount_cents < 0 {
        out.append("-");
    }
    out.append("¥ ");
    out.append(first);
    out.append("*****.");
    push_padded(&mut out, (value % 100) as i64, 2);
    proof {
        assert(first@ =~= seq![decimal((value / 100) as nat)[0]]);
        assert(out@ =~= masked_text(amount_cents as int));
    }
    out
}

/// A proof image of a ledger entry: one already stored (maybe marked for
/// removal) or one picked in the form and not uploaded yet. The picked
/// file itself stays with the page.
#[derive(Clone, Debug)]
pub enum FinanceProof {
    Existing { id: u64, url: String, removed: bool },
    Pending { name: String, preview_url: Option<String> },
}

impl FinanceProof {
    /// Where the image can be shown from, if anywhere.
    pub fn url(&self) -> (r: Option<&str>)
        ensures
            match (r, *self) {
                (Some(u), FinanceProof::Existing { url, .. }) => u@ == url@,
                (Some(u), FinanceProof::Pending { preview_url: Some(p), .. }) => u@ == p@,
                (None, FinanceProof::Pending { preview_url: None, .. }) => true,
                _ => false,
            },
    {
        match self {
            FinanceProof::Existing { url, .. } => Some(url.as_str()),
            FinanceProof::Pending { preview_url, .. } => match preview_url {
                Some(p) => Some(p.as_str()),
                None => None,
            },
        }
    }

    /// Caption: `财务凭证 #<id>` for a stored image, the file name otherwise.
    pub fn name(&self) -> (r: String)
        ensures
            r@ == match *self {
                FinanceProof::Existing { id, .. } => "财务凭证 #"@ + decimal(id as nat),
                FinanceProof::Pending { name, .. } => name@,
            },
    {
        match self {
            FinanceProof::Existing { id, .. } => {
                let mut out = String::from_str("财务凭证 #");
                push_decimal(&mut out, *id);
                out
            },
            FinanceProof::Pending { name, .. } => name.clone(),
        }
    }

    /// A stored image marked for removal.
    pub fn removed(&self) -> (r: bool)
        ensures
            r == (*self matches FinanceProof::Existing { removed: true, .. }),
    {
        match self {
            FinanceProof::Existing { removed, .. } => *removed,
            FinanceProof::Pending { .. } => false,
        }
    }
}

} // verus!
