//! The search box and filters of the transformer, elevator and firefighting
//! ledgers, and the tallies above them.
use vstd::prelude::*;
use crate::maintenance::firefighting::{AssetRow, location_label, location_label_spec, status_matches};
use crate::maintenance::model::{factory_name, factory_name_spec, park_name, park_name_spec};
use crate::maintenance::transformer::factory_label;
use crate::records::{
    Dormitory, DormitoryFloor, ElevatorAsset, Factory, FactoryFloor, FirefightingAsset, Inspection,
    Park, TransformerAsset,
};
use crate::tally::{count, lemma_count_step, lemma_take_all};
use crate::search::{matches_search, text_matches};
use crate::text::{name_texts, owned, str_eq};

verus! {

/// Status of the latest inspection, or `未巡检`.
pub open spec fn inspection_status(latest: Option<Inspection>) -> Seq<char> {
    match latest {
        Some(x) => x.status@,
        None => "未巡检"@,
    }
}

/// The status filter of the transformer and elevator ledgers: `全部`, or
/// the status of the latest inspection.
pub fn inspection_filter_passes(latest: &Option<Inspection>, filter: &str) -> (r: bool)
    ensures
        r == (filter@ == "全部"@ || inspection_status(*latest) == filter@),
{
    if str_eq(filter, "全部") {
        return true;
    }
    match latest {
        Some(x) => str_eq(x.status.as_str(), filter),
        None => str_eq("未巡检", filter),
    }
}

pub open spec fn found_fault() -> spec_fn(Option<Inspection>) -> bool {
    |l: Option<Inspection>| inspection_status(l) == "异常"@
}

pub open spec fn never_inspected() -> spec_fn(Option<Inspection>) -> bool {
    |l: Option<Inspection>| l is None
}

/// The tallies of the transformer and elevator ledgers from the latest
/// inspection of each asset: assets whose latest inspection found a fault,
/// and assets never inspected.
pub fn inspection_counts(latest: &[Option<Inspection>]) -> (r: (usize, usize))
    ensures
        r.0 == count(latest@, found_fault()),
        r.1 == count(latest@, never_inspected()),
{
    let ghost pf = found_fault();
    let ghost pn = never_inspected();
    let mut faults: usize = 0;
    let mut never: usize = 0;
    let mut i: usize = 0;
    while i < latest.len()
        invariant
            0 <= i <= latest@.len(),
            pf == found_fault(),
            pn == never_inspected(),
            faults == count(latest@.take(i as int), pf),
            never == count(latest@.take(i as int), pn),
            faults + never <= i,
        decreases latest@.len() - i,
    {
        proof {
            lemma_count_step(latest@, pf, i as int);
            lemma_count_step(latest@, pn, i as int);
            reveal_strlit("未巡检");
            reveal_strlit("异常");
            assert("未巡检"@ != "异常"@) by {
                assert("未巡检"@.len() != "异常"@.len());
            }
        }
        match &latest[i] {
            Some(x) => {
                if str_eq(x.status.as_str(), "异常") {
                    faults = faults + 1;
                }
            },
            None => {
                never = never + 1;
            },
        }
        i = i + 1;
    }
    proof {
        lemma_take_all(latest@);
    }
    (faults, never)
}

/// What the transformer search looks through: name, location, model, park
/// and building.
pub open spec fn transformer_search_parts(a: TransformerAsset, parks: Seq<Park>, factories: Seq<Factory>) -> Seq<
    Seq<char>,
> {
    seq![
        a.transformer_name@,
        a.location@,
        a.specifications@,
        park_name_spec(parks, a.park_id),
        if a.factory_id == 0 {
            "园区公共区域"@
        } else {
            factory_name_spec(factories, Some(a.factory_id))
        },
    ]
}

/// Whether the transformer ledger shows an asset for a status filter and a
/// search query (already trimmed and lower-cased).
pub fn transformer_shown(
    asset: &TransformerAsset,
    latest: &Option<Inspection>,
    filter: &str,
    query: &str,
    parks: &[Park],
    factories: &[Factory],
) -> (r: bool)
    ensures
        r == ((filter@ == "全部"@ || inspection_status(*latest) == filter@) && text_matches(
            query@,
            transformer_search_parts(*asset, parks@, factories@),
        )),
{
    if !inspection_filter_passes(latest, filter) {
        return false;
    }
    let mut parts: Vec<String> = Vec::new();
    parts.push(owned(asset.transformer_name.as_str()));
    parts.push(owned(asset.location.as_str()));
    parts.push(owned(asset.specifications.as_str()));
    parts.push(park_name(parks, asset.park_id));
    parts.push(factory_label(factories, asset.factory_id));
    proof {
        assert(name_texts(parts@) =~= transformer_search_parts(*asset, parks@, factories@));
    }
    matches_search(query, &parts)
}

/// What the elevator search looks through: name, location, size, park and
/// building.
pub open spec fn elevator_search_parts(a: ElevatorAsset, parks: Seq<Park>, factories: Seq<Factory>) -> Seq<
    Seq<char>,
> {
    seq![
        a.elevator_name@,
        a.location@,
        match a.size {
            Some(s) => s@,
            None => Seq::empty(),
        },
        park_name_spec(parks, a.park_id),
        factory_name_spec(factories, Some(a.factory_id)),
    ]
}

/// Whether the elevator ledger shows an asset for a status filter and a
/// search query (already trimmed and lower-cased).
pub fn elevator_shown(
    asset: &ElevatorAsset,
    latest: &Option<Inspection>,
    filter: &str,
    query: &str,
    parks: &[Park],
    factories: &[Factory],
) -> (r: bool)
    ensures
        r == ((filter@ == "全部"@ || inspection_status(*latest) == filter@) && text_matches(
            query@,
            elevator_search_parts(*asset, parks@, factories@),
        )),
{
    if !inspection_filter_passes(latest, filter) {
        return false;
    }
    let mut parts: Vec<String> = Vec::new();
    parts.push(owned(asset.elevator_name.as_str()));
    parts.push(owned(asset.location.as_str()));
    parts.push(
        match &asset.size {
            Some(s) => owned(s.as_str()),
            None => String::new(),
        },
    );
    parts.push(park_name(parks, asset.park_id));
    parts.push(factory_name(factories, Some(asset.factory_id)));
    proof {
        assert(name_texts(parts@) =~= elevator_search_parts(*asset, parks@, factories@));
    }
    matches_search(query, &parts)
}

/// What the firefighting search looks through: name, position, model and
/// the full location.
pub open spec fn firefighting_search_parts(a: FirefightingAsset, place: Seq<char>) -> Seq<Seq<char>> {
    seq![
        a.facility_name@,
        a.location@,
        match a.specifications {
            Some(s) => s@,
            None => Seq::empty(),
        },
        place,
    ]
}

/// Whether the firefighting ledger shows a row for a type filter, a status
/// filter and a search query (already trimmed and lower-cased).
pub fn firefighting_shown(
    asset: &FirefightingAsset,
    row: &AssetRow,
    type_filter: &str,
    status_filter: &str,
    query: &str,
    parks: &[Park],
    factories: &[Factory],
    factory_floors: &[FactoryFloor],
    dormitories: &[Dormitory],
    dormitory_floors: &[DormitoryFloor],
) -> (r: bool)
    ensures
        r == ({
            let status_ok = if status_filter@ == "全部"@ {
                true
            } else if status_filter@ == "已到期"@ {
                row.days_left matches Some(d) && d < 0
            } else if status_filter@ == "临期"@ {
                row.days_left matches Some(d) && 0 <= d <= 30
            } else {
                inspection_status(row.latest) == status_filter@
            };
            &&& (type_filter@ == "全部"@ || asset.facility_type@ == type_filter@)
            &&& status_ok
            &&& text_matches(
                query@,
                firefighting_search_parts(
                    *asset,
                    location_label_spec(*asset, parks@, factories@, factory_floors@, dormitories@, dormitory_floors@),
                ),
            )
        }),
{
    let type_ok = str_eq(type_filter, "全部") || str_eq(asset.facility_type.as_str(), type_filter);
    if !type_ok {
        return false;
    }
    if !status_matches(row, status_filter) {
        return false;
    }
    let mut parts: Vec<String> = Vec::new();
    parts.push(owned(asset.facility_name.as_str()));
    parts.push(owned(asset.location.as_str()));
    parts.push(
        match &asset.specifications {
            Some(s) => owned(s.as_str()),
            None => String::new(),
        },
    );
    parts.push(location_label(asset, parks, factories, factory_floors, dormitories, dormitory_floors));
    proof {
        assert(name_texts(parts@) =~= firefighting_search_parts(
            *asset,
            location_label_spec(*asset, parks@, factories@, factory_floors@, dormitories@, dormitory_floors@),
        ));
    }
    matches_search(query, &parts)
}

} // verus!
