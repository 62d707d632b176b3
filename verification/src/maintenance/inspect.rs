//! The scan-to-inspect pages: the code printed on an asset, and the facts
//! shown above the inspection form.
use vstd::prelude::*;
use crate::maintenance::model::{
    civil_days_spec, expiry_days_left, factory_name, factory_name_spec, format_capacity_kw,
    format_load_kg, hundredths_text, park_name, park_name_spec,
};
use crate::records::{ElevatorAsset, Factory, Inspection, Park, TransformerAsset};
use crate::tally::lemma_take_all;
use crate::text::{decimal, owned, push_decimal, push_zero_padded, zero_pad};

verus! {

/// `{prefix}-{id}` with the id zero padded to six digits, as printed on
/// the asset.
pub fn asset_code(prefix: &str, asset_id: u64) -> (r: String)
    ensures
        r@ == prefix@ + "-"@ + zero_pad(decimal(asset_id as nat), 6),
{
    let mut out = owned(prefix);
    out.append("-");
    push_zero_padded(&mut out, asset_id, 6);
    out
}

/// `{park} · {building}` of a transformer, the building reading
/// `园区公共区域` when it stands in the open park.
pub fn transformer_place(asset: &TransformerAsset, parks: &[Park], factories: &[Factory]) -> (r: String)
    ensures
        r@ == park_name_spec(parks@, asset.park_id) + " · "@ + (if asset.factory_id == 0 {
            "园区公共区域"@
        } else {
            factory_name_spec(factories@, Some(asset.factory_id))
        }),
{
    let mut out = park_name(parks, asset.park_id);
    out.append(" · ");
    if asset.factory_id == 0 {
        out.append("园区公共区域");
    } else {
        let factory = factory_name(factories, Some(asset.factory_id));
        out.append(factory.as_str());
    }
    out
}

/// `规格 {model} · 容量 {capacity}` of a transformer.
pub fn transformer_facts(asset: &TransformerAsset) -> (r: String)
    ensures
        r@ == "规格 "@ + asset.specifications@ + " · 容量 "@ + (if asset.capacity_centi_kw == 0 {
            "未填写"@
        } else {
            hundredths_text(asset.capacity_centi_kw as nat) + " kW"@
        }),
{
    let mut out = String::from_str("规格 ");
    out.append(asset.specifications.as_str());
    out.append(" · 容量 ");
    let capacity = format_capacity_kw(asset.capacity_centi_kw);
    out.append(capacity.as_str());
    out
}

/// `轿厢 {size or 未记录} · 承重 {load}` of an elevator.
pub fn elevator_facts(asset: &ElevatorAsset) -> (r: String)
    ensures
        r@ == "轿厢 "@ + match asset.size {
            Some(s) => s@,
            None => "未记录"@,
        } + " · 承重 "@ + (if asset.load_capacity_centi_kg == 0 {
            "未填写"@
        } else {
            hundredths_text(asset.load_capacity_centi_kg as nat) + " kg"@
        }),
{
    let mut out = String::from_str("轿厢 ");
    match &asset.size {
        Some(s) => out.append(s.as_str()),
        None => out.append("未记录"),
    }
    out.append(" · 承重 ");
    let load = format_load_kg(asset.load_capacity_centi_kg);
    out.append(load.as_str());
    out
}

/// The certificate line of a firefighting asset: a warning once the
/// expiry date has passed, else the date itself. A date that does not read
/// gives no warning.
pub fn expiry_notice(expiry: &str, today: &str) -> (r: (String, bool))
    ensures
        r.1 == (match (civil_days_spec(expiry@), civil_days_spec(today@)) {
            (Some(e), Some(n)) => e < n,
            _ => false,
        }),
        r.0@ == (if r.1 {
            "该设施已于 "@ + expiry@ + " 过期，请及时更换。"@
        } else {
            "有效期至 "@ + expiry@
        }),
{
    let expired = match expiry_days_left(expiry, today) {
        Some(days) => days < 0,
        None => false,
    };
    if expired {
        let mut out = String::from_str("该设施已于 ");
        out.append(expiry);
        out.append(" 过期，请及时更换。");
        (out, true)
    } else {
        let mut out = String::from_str("有效期至 ");
        out.append(expiry);
        (out, false)
    }
}

/// Places of the inspections of one asset, in stored order.
pub open spec fn history_spec(rows: Seq<Inspection>, asset_id: u64) -> Seq<int>
    decreases rows.len(),
{
    if rows.len() == 0 {
        Seq::empty()
    } else {
        history_spec(rows.drop_last(), asset_id) + if rows.last().asset_id == asset_id {
            seq![rows.len() - 1]
        } else {
            Seq::empty()
        }
    }
}

/// The inspections the history dialog lists for an asset.
pub fn history_places(rows: &[Inspection], asset_id: u64) -> (r: Vec<usize>)
    ensures
        r@.len() == history_spec(rows@, asset_id).len(),
        forall|i: int| 0 <= i < r@.len() ==> (#[trigger] r@[i]) as int == history_spec(rows@, asset_id)[i],
{
    let mut out: Vec<usize> = Vec::new();
    let mut i: usize = 0;
    while i < rows.len()
        invariant
            0 <= i <= rows@.len(),
            out@.len() == history_spec(rows@.take(i as int), asset_id).len(),
            forall|k: int|
                0 <= k < out@.len() ==> (#[trigger] out@[k]) as int == history_spec(rows@.take(i as int), asset_id)[k],
        decreases rows@.len() - i,
    {
        let ghost after = rows@.take(i + 1);
        assert(after.drop_last() =~= rows@.take(i as int));
        assert(after.last() == rows@[i as int]);
        if rows[i].asset_id == asset_id {
            out.push(i);
        }
        i = i + 1;
    }
    proof {
        lemma_take_all(rows@);
    }
    out
}

/// `共 {n} 次巡检，按时间倒序。记录只增不删。`
pub fn history_caption(n: usize) -> (r: String)
    ensures
        r@ == "共 "@ + decimal(n as nat) + " 次巡检，按时间倒序。记录只增不删。"@,
{
    let mut out = String::from_str("共 ");
    push_decimal(&mut out, n as u64);
    out.append(" 次巡检，按时间倒序。记录只增不删。");
    out
}

} // verus!
