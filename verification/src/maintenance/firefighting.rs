//! The firefighting ledger: where an asset hangs, its latest inspection and
//! how far its certificate is from expiry.
use vstd::prelude::*;
use crate::maintenance::model::{factory_name, factory_name_spec, park_name, park_name_spec};
use crate::records::{Dormitory, DormitoryFloor, Factory, FactoryFloor, FirefightingAsset, Inspection, Park};
use crate::tally::{count, first_match, is_first, lemma_count_step, lemma_first_match_at, lemma_first_match_none, lemma_take_all};
use crate::text::{decimal, padded, push_decimal, push_padded, str_eq};

verus! {

/// Reminders start this many days before a certificate expires.
pub const EXPIRY_SOON_DAYS: i64 = 30;

/// A ledger row: its latest inspection, and the days left on its
/// certificate (`None` when no valid expiry date is recorded).
#[derive(Clone, Debug)]
pub struct AssetRow {
    pub latest: Option<Inspection>,
    pub days_left: Option<i64>,
}

impl AssetRow {
    /// Status of the latest inspection, or "未巡检".
    pub fn status_label(&self) -> (r: &str)
        ensures
            r@ == match self.latest {
                Some(x) => x.status@,
                None => "未巡检"@,
            },
    {
        match &self.latest {
            Some(row) => row.status.as_str(),
            None => "未巡检",
        }
    }

    /// The certificate has expired.
    pub fn expired(&self) -> (r: bool)
        ensures
            r == (self.days_left matches Some(d) && d < 0),
    {
        match self.days_left {
            Some(days) => days < 0,
            None => false,
        }
    }

    /// The certificate expires within the reminder window (today included).
    pub fn expiring_soon(&self) -> (r: bool)
        ensures
            r == (self.days_left matches Some(d) && 0 <= d <= 30),
    {
        match self.days_left {
            Some(days) => 0 <= days && days <= EXPIRY_SOON_DAYS,
            None => false,
        }
    }
}

/// Whether a row passes the status filter: everything, expired, expiring
/// soon, or the given inspection status.
pub fn status_matches(row: &AssetRow, filter: &str) -> (r: bool)
    ensures
        r == (if filter@ == "全部"@ {
            true
        } else if filter@ == "已到期"@ {
            row.days_left matches Some(d) && d < 0
        } else if filter@ == "临期"@ {
            row.days_left matches Some(d) && 0 <= d <= 30
        } else {
            match row.latest {
                Some(x) => x.status@ == filter@,
                None => "未巡检"@ == filter@,
            }
        }),
{
    if str_eq(filter, "全部") {
        true
    } else if str_eq(filter, "已到期") {
        row.expired()
    } else if str_eq(filter, "临期") {
        row.expiring_soon()
    } else {
        str_eq(row.status_label(), filter)
    }
}

pub open spec fn abnormal_row() -> spec_fn(AssetRow) -> bool {
    |r: AssetRow| r.latest matches Some(x) && x.status@ == "异常"@
}

pub open spec fn expired_row() -> spec_fn(AssetRow) -> bool {
    |r: AssetRow| r.days_left matches Some(d) && d < 0
}

/// The figures at the top of the ledger: rows whose latest inspection
/// found a fault, and rows whose certificate has expired.
pub fn firefighting_counts(rows: &[AssetRow]) -> (r: (usize, usize))
    ensures
        r.0 == count(rows@, abnormal_row()),
        r.1 == count(rows@, expired_row()),
{
    let ghost pa = abnormal_row();
    let ghost pe = expired_row();
    let mut abnormal: usize = 0;
    let mut expired: usize = 0;
    let mut i: usize = 0;
    while i < rows.len()
        invariant
            pa == abnormal_row(),
            pe == expired_row(),
            0 <= i <= rows@.len(),
            abnormal == count(rows@.take(i as int), pa),
            expired == count(rows@.take(i as int), pe),
            abnormal <= i,
            expired <= i,
        decreases rows@.len() - i,
    {
        proof {
            lemma_count_step(rows@, pa, i as int);
            lemma_count_step(rows@, pe, i as int);
        }
        let row = &rows[i];
        let hit = str_eq(row.status_label(), "异常");
        proof {
            if row.latest is None {
                reveal_strlit("未巡检");
                reveal_strlit("异常");
                assert("未巡检"@.len() != "异常"@.len());
            }
        }
        assert(pa(rows@[i as int]) == hit);
        if hit {
            abnormal = abnormal + 1;
        }
        if rows[i].expired() {
            expired = expired + 1;
        }
        i = i + 1;
    }
    proof {
        lemma_take_all(rows@);
    }
    (abnormal, expired)
}

pub open spec fn factory_floor_with(id: u64) -> spec_fn(FactoryFloor) -> bool {
    |f: FactoryFloor| f.floor_id == id
}

pub open spec fn dormitory_floor_with(id: u64) -> spec_fn(DormitoryFloor) -> bool {
    |f: DormitoryFloor| f.dormitory_floor_id == id
}

pub open spec fn dormitory_with(id: u64) -> spec_fn(Dormitory) -> bool {
    |d: Dormitory| d.dormitory_id == id
}

pub(crate) fn find_factory_floor(rows: &[FactoryFloor], id: u64) -> (r: Option<usize>)
    ensures
        match r {
            Some(i) => first_match(rows@, factory_floor_with(id)) == Some(i as int),
            None => first_match(rows@, factory_floor_with(id)) is None,
        },
{
    let ghost p = factory_floor_with(id);
    let mut i: usize = 0;
    while i < rows.len()
        invariant
            p == factory_floor_with(id),
            0 <= i <= rows@.len(),
            forall|k: int| 0 <= k < i ==> !p(#[trigger] rows@[k]),
        decreases rows@.len() - i,
    {
        if rows[i].floor_id == id {
            proof {
                assert(is_first(rows@, p, i as int));
                lemma_first_match_at(rows@, p, i as int);
            }
            return Some(i);
        }
        i = i + 1;
    }
    proof {
        lemma_first_match_none(rows@, p);
    }
    None
}

pub(crate) fn find_dormitory_floor(rows: &[DormitoryFloor], id: u64) -> (r: Option<usize>)
    ensures
        match r {
            Some(i) => first_match(rows@, dormitory_floor_with(id)) == Some(i as int),
            None => first_match(rows@, dormitory_floor_with(id)) is None,
        },
{
    let ghost p = dormitory_floor_with(id);
    let mut i: usize = 0;
    while i < rows.len()
        invariant
            p == dormitory_floor_with(id),
            0 <= i <= rows@.len(),
            forall|k: int| 0 <= k < i ==> !p(#[trigger] rows@[k]),
        decreases rows@.len() - i,
    {
        if rows[i].dormitory_floor_id == id {
            proof {
                assert(is_first(rows@, p, i as int));
                lemma_first_match_at(rows@, p, i as int);
            }
            return Some(i);
        }
        i = i + 1;
    }
    proof {
        lemma_first_match_none(rows@, p);
    }
    None
}

fn find_dormitory(rows: &[Dormitory], id: u64) -> (r: Option<usize>)
    ensures
        match r {
            Some(i) => first_match(rows@, dormitory_with(id)) == Some(i as int),
            None => first_match(rows@, dormitory_with(id)) is None,
        },
{
    let ghost p = dormitory_with(id);
    let mut i: usize = 0;
    while i < rows.len()
        invariant
            p == dormitory_with(id),
            0 <= i <= rows@.len(),
            forall|k: int| 0 <= k < i ==> !p(#[trigger] rows@[k]),
        decreases rows@.len() - i,
    {
        if rows[i].dormitory_id == id {
            proof {
                assert(is_first(rows@, p, i as int));
                lemma_first_match_at(rows@, p, i as int);
            }
            return Some(i);
        }
        i = i + 1;
    }
    proof {
        lemma_first_match_none(rows@, p);
    }
    None
}

/// `园区 · 厂房 · 楼层` or `园区 · 宿舍 · N 层` of a firefighting asset; a
/// floor or building that is not loaded reads as unknown.
pub open spec fn location_label_spec(
    asset: FirefightingAsset,
    parks: Seq<Park>,
    factories: Seq<Factory>,
    factory_floors: Seq<FactoryFloor>,
    dormitories: Seq<Dormitory>,
    dormitory_floors: Seq<DormitoryFloor>,
) -> Seq<char> {
    let park = park_name_spec(parks, asset.park_id);
    if asset.factory_floor_id != 0 {
        let (factory, floor_name) = match first_match(factory_floors, factory_floor_with(asset.factory_floor_id)) {
            Some(i) => (factory_name_spec(factories, Some(factory_floors[i].factory_id)), factory_floors[i].floor_name@),
            None => ("未知厂房"@, "楼层 #"@ + decimal(asset.factory_floor_id as nat)),
        };
        park + " · "@ + factory + " · "@ + floor_name
    } else {
        let (dormitory, floor_no) = match first_match(dormitory_floors, dormitory_floor_with(asset.dormitory_floor_id)) {
            Some(i) => (
                match first_match(dormitories, dormitory_with(dormitory_floors[i].dormitory_id)) {
                    Some(j) => dormitories[j].dormitory_name@,
                    None => "未知宿舍"@,
                },
                padded(dormitory_floors[i].floor_no as int, 0) + " 层"@,
            ),
            None => ("未知宿舍"@, "楼层 #"@ + decimal(asset.dormitory_floor_id as nat)),
        };
        park + " · "@ + dormitory + " · "@ + floor_no
    }
}

/// Where a firefighting asset hangs.
pub fn location_label(
    asset: &FirefightingAsset,
    parks: &[Park],
    factories: &[Factory],
    factory_floors: &[FactoryFloor],
    dormitories: &[Dormitory],
    dormitory_floors: &[DormitoryFloor],
) -> (r: String)
    ensures
        r@ == location_label_spec(*asset, parks@, factories@, factory_floors@, dormitories@, dormitory_floors@),
{
    let mut out = park_name(parks, asset.park_id);
    out.append(" · ");
    if asset.factory_floor_id != 0 {
        match find_factory_floor(factory_floors, asset.factory_floor_id) {
            Some(i) => {
                let factory = factory_name(factories, Some(factory_floors[i].factory_id));
                out.append(factory.as_str());
                out.append(" · ");
                out.append(factory_floors[i].floor_name.as_str());
            },
            None => {
                out.append("未知厂房");
                out.append(" · ");
                out.append("楼层 #");
                push_decimal(&mut out, asset.factory_floor_id);
            },
        }
    } else {
        match find_dormitory_floor(dormitory_floors, asset.dormitory_floor_id) {
            Some(i) => {
                match find_dormitory(dormitories, dormitory_floors[i].dormitory_id) {
                    Some(j) => out.append(dormitories[j].dormitory_name.as_str()),
                    None => out.append("未知宿舍"),
                }
                out.append(" · ");
                push_padded(&mut out, dormitory_floors[i].floor_no as i64, 0);
                out.append(" 层");
            },
            None => {
                out.append("未知宿舍");
                out.append(" · ");
                out.append("楼层 #");
                push_decimal(&mut out, asset.dormitory_floor_id);
            },
        }
    }
    proof {
        assert(out@ =~= location_label_spec(*asset, parks@, factories@, factory_floors@, dormitories@, dormitory_floors@));
    }
    out
}

} // verus!
