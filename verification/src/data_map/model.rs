//! Link counts of the data map, normalised over the different kinds of
//! foreign key, and the area figures it prints.
use vstd::prelude::*;
use std::collections::BTreeSet;
use crate::hr::model::is_linked;
use crate::sets::has_id;
use crate::tally::{count, lemma_count_step, lemma_take_all};
use crate::text::{decimal, group3, push_grouped, decimal_string};

verus! {

/// A foreign key where 0 means "not assigned".
pub open spec fn sentinel(id: u64) -> Option<u64> {
    if id != 0 { Some(id) } else { None }
}

pub open spec fn sentinel_linked(active: Set<u64>) -> spec_fn(u64) -> bool {
    |id: u64| is_linked(sentinel(id), active)
}

pub open spec fn sentinel_unlinked(active: Set<u64>) -> spec_fn(u64) -> bool {
    |id: u64| !is_linked(sentinel(id), active)
}

/// Keys with 0 as "not assigned": how many point at a live parent, and how
/// many do not. Unassigned and dangling both count as not linked: either
/// way the row sits under no live parent.
pub fn sentinel_link_counts(ids: &[u64], active_ids: &BTreeSet<u64>) -> (r: (usize, usize))
    ensures
        r.0 == count(ids@, sentinel_linked(active_ids@)),
        r.1 == count(ids@, sentinel_unlinked(active_ids@)),
        r.0 + r.1 == ids@.len(),
{
    let ghost pl = sentinel_linked(active_ids@);
    let ghost pn = sentinel_unlinked(active_ids@);
    let mut linked: usize = 0;
    let mut unlinked: usize = 0;
    let mut i: usize = 0;
    while i < ids.len()
        invariant
            pl == sentinel_linked(active_ids@),
            pn == sentinel_unlinked(active_ids@),
            0 <= i <= ids@.len(),
            linked == count(ids@.take(i as int), pl),
            unlinked == count(ids@.take(i as int), pn),
            linked + unlinked == i,
        decreases ids@.len() - i,
    {
        proof {
            lemma_count_step(ids@, pl, i as int);
            lemma_count_step(ids@, pn, i as int);
        }
        let id = ids[i];
        let hit = id != 0 && has_id(active_ids, id);
        assert(pl(ids@[i as int]) == hit);
        assert(pn(ids@[i as int]) == !hit);
        if hit {
            linked = linked + 1;
        } else {
            unlinked = unlinked + 1;
        }
        i = i + 1;
    }
    proof {
        lemma_take_all(ids@);
    }
    (linked, unlinked)
}

pub open spec fn optional_linked(active: Set<u64>) -> spec_fn(Option<u64>) -> bool {
    |id: Option<u64>| id matches Some(v) && active.contains(v)
}

pub open spec fn optional_unassigned() -> spec_fn(Option<u64>) -> bool {
    |id: Option<u64>| id is None
}

pub open spec fn optional_dangling(active: Set<u64>) -> spec_fn(Option<u64>) -> bool {
    |id: Option<u64>| id matches Some(v) && !active.contains(v)
}

/// Optional keys in three buckets: linked to a live parent, unassigned
/// (`None`, a legal state) and dangling (pointing at a parent that is gone).
pub fn optional_link_counts(ids: &[Option<u64>], active_ids: &BTreeSet<u64>) -> (r: (usize, usize, usize))
    ensures
        r.0 == count(ids@, optional_linked(active_ids@)),
        r.1 == count(ids@, optional_unassigned()),
        r.2 == count(ids@, optional_dangling(active_ids@)),
        r.0 + r.1 + r.2 == ids@.len(),
{
    let ghost pl = optional_linked(active_ids@);
    let ghost pu = optional_unassigned();
    let ghost pd = optional_dangling(active_ids@);
    let mut linked: usize = 0;
    let mut unassigned: usize = 0;
    let mut dangling: usize = 0;
    let mut i: usize = 0;
    while i < ids.len()
        invariant
            pl == optional_linked(active_ids@),
            pu == optional_unassigned(),
            pd == optional_dangling(active_ids@),
            0 <= i <= ids@.len(),
            linked == count(ids@.take(i as int), pl),
            unassigned == count(ids@.take(i as int), pu),
            dangling == count(ids@.take(i as int), pd),
            linked + unassigned + dangling == i,
        decreases ids@.len() - i,
    {
        proof {
            lemma_count_step(ids@, pl, i as int);
            lemma_count_step(ids@, pu, i as int);
            lemma_count_step(ids@, pd, i as int);
        }
        match ids[i] {
            Some(id) => {
                if has_id(active_ids, id) {
                    linked = linked + 1;
                } else {
                    dangling = dangling + 1;
                }
            },
            None => {
                unassigned = unassigned + 1;
            },
        }
        i = i + 1;
    }
    proof {
        lemma_take_all(ids@);
    }
    (linked, unassigned, dangling)
}

pub open spec fn on_factory_floor() -> spec_fn((u64, u64)) -> bool {
    |l: (u64, u64)| l.0 != 0
}

pub open spec fn on_dormitory_floor() -> spec_fn((u64, u64)) -> bool {
    |l: (u64, u64)| l.0 == 0 && l.1 != 0
}

pub open spec fn in_public_area() -> spec_fn((u64, u64)) -> bool {
    |l: (u64, u64)| l.0 == 0 && l.1 == 0
}

/// Meters by where they hang, given as (factory floor, dormitory floor)
/// with 0 for none: on a factory floor, on a dormitory floor, or in the
/// park's public area. All three are legal; none is an orphan.
pub fn meter_location_counts(locations: &[(u64, u64)]) -> (r: (usize, usize, usize))
    ensures
        r.0 == count(locations@, on_factory_floor()),
        r.1 == count(locations@, on_dormitory_floor()),
        r.2 == count(locations@, in_public_area()),
        r.0 + r.1 + r.2 == locations@.len(),
{
    let ghost pf = on_factory_floor();
    let ghost pd = on_dormitory_floor();
    let ghost pp = in_public_area();
    let mut on_factory: usize = 0;
    let mut on_dormitory: usize = 0;
    let mut public: usize = 0;
    let mut i: usize = 0;
    while i < locations.len()
        invariant
            pf == on_factory_floor(),
            pd == on_dormitory_floor(),
            pp == in_public_area(),
            0 <= i <= locations@.len(),
            on_factory == count(locations@.take(i as int), pf),
            on_dormitory == count(locations@.take(i as int), pd),
            public == count(locations@.take(i as int), pp),
            on_factory + on_dormitory + public == i,
        decreases locations@.len() - i,
    {
        proof {
            lemma_count_step(locations@, pf, i as int);
            lemma_count_step(locations@, pd, i as int);
            lemma_count_step(locations@, pp, i as int);
        }
        let (factory_floor_id, dormitory_floor_id) = locations[i];
        if factory_floor_id != 0 {
            on_factory = on_factory + 1;
        } else if dormitory_floor_id != 0 {
            on_dormitory = on_dormitory + 1;
        } else {
            public = public + 1;
        }
        i = i + 1;
    }
    proof {
        lemma_take_all(locations@);
    }
    (on_factory, on_dormitory, public)
}

/// Whole square metres of an area kept in hundredths (truncated toward
/// zero), grouped by thousands.
pub open spec fn area_text(centi: int) -> Seq<char> {
    let whole = if centi < 0 { -((-centi) / 100) } else { centi / 100 };
    let digits = group3(decimal((if whole < 0 { -whole } else { whole }) as nat));
    if whole < 0 { seq!['-'] + digits } else { digits }
}

/// An area kept in hundredths of a square metre, as whole square metres
/// with thousands separators; the map's figures are too large for decimals
/// to matter.
pub fn format_area_square_metres(centi: i64) -> (r: String)
    ensures
        r@ == area_text(centi as int),
{
    let whole: i64 = if centi < 0 { 0 - ((0 - (centi as i128)) / 100) as i64 } else { centi / 100 };
    let magnitude: u64 = if whole < 0 { (0 - whole) as u64 } else { whole as u64 };
    let digits = decimal_string(magnitude);
    let mut out = String::new();
    if whole < 0 {
        proof {
            reveal_strlit("-");
        }
        out.append("-");
    }
    push_grouped(&mut out, digits.as_str());
    proof {
        assert(out@ =~= area_text(centi as int));
    }
    out
}

/// Zero means "not assigned" whatever the set of live parents holds: a
/// zero key is never counted as linked, so a list of zero keys has no
/// linked row and as many unlinked rows as keys.
pub proof fn lemma_zero_never_linked(ids: Seq<u64>, active: Set<u64>)
    requires
        forall|i: int| 0 <= i < ids.len() ==> ids[i] == 0,
    ensures
        count(ids, sentinel_linked(active)) == 0,
        count(ids, sentinel_unlinked(active)) == ids.len(),
    decreases ids.len(),
{
    if ids.len() > 0 {
        lemma_zero_never_linked(ids.drop_last(), active);
    }
}

} // verus!
