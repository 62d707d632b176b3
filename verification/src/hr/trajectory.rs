//! The trajectory page: phone position reports and attendance punches in one
//! list, newest first, filtered by name.
use vstd::prelude::*;
use crate::badge::BadgeVariant;
use crate::records::{Attendance, LocationReport};
use crate::text::{contains, contains_str, lowercase, owned, str_eq, to_lowercase};
use crate::timestamp::Timestamp;

verus! {

broadcast use vstd::seq_lib::group_seq_properties;

pub const SOURCE_REPORT: &'static str = "定位上报";

pub const SOURCE_PUNCH: &'static str = "考勤打卡";

/// One point of a trajectory.
#[derive(Clone, Debug)]
pub struct TrackPoint {
    pub user_name: String,
    pub time: Timestamp,
    pub latitude_e_15: i64,
    pub longitude_e_15: i64,
    pub source: &'static str,
}

/// The reports, then the punches, as points.
pub fn track_points(reports: &[LocationReport], attendances: &[Attendance]) -> (r: Vec<TrackPoint>)
    ensures
        r@.len() == reports@.len() + attendances@.len(),
        forall|i: int|
            0 <= i < reports@.len() ==> {
                let p = #[trigger] r@[i];
                &&& p.user_name@ == reports@[i].user_name@
                &&& p.time == reports@[i].punch_time
                &&& p.latitude_e_15 == reports@[i].latitude_e_15
                &&& p.longitude_e_15 == reports@[i].longitude_e_15
                &&& p.source == SOURCE_REPORT
            },
        forall|j: int|
            0 <= j < attendances@.len() ==> {
                let p = #[trigger] r@[reports@.len() + j];
                &&& p.user_name@ == attendances@[j].username@
                &&& p.time == attendances@[j].punch_in
                &&& p.latitude_e_15 == attendances@[j].latitude_e_15
                &&& p.longitude_e_15 == attendances@[j].longitude_e_15
                &&& p.source == SOURCE_PUNCH
            },
{
    let mut out: Vec<TrackPoint> = Vec::new();
    let mut i: usize = 0;
    while i < reports.len()
        invariant
            0 <= i <= reports@.len(),
            out@.len() == i,
            forall|k: int|
                0 <= k < i ==> {
                    let p = #[trigger] out@[k];
                    &&& p.user_name@ == reports@[k].user_name@
                    &&& p.time == reports@[k].punch_time
                    &&& p.latitude_e_15 == reports@[k].latitude_e_15
                    &&& p.longitude_e_15 == reports@[k].longitude_e_15
                    &&& p.source == SOURCE_REPORT
                },
        decreases reports@.len() - i,
    {
        let row = &reports[i];
        out.push(
            TrackPoint {
                user_name: owned(row.user_name.as_str()),
                time: row.punch_time,
                latitude_e_15: row.latitude_e_15,
                longitude_e_15: row.longitude_e_15,
                source: SOURCE_REPORT,
            },
        );
        i = i + 1;
    }
    let mut j: usize = 0;
    while j < attendances.len()
        invariant
            0 <= j <= attendances@.len(),
            out@.len() == reports@.len() + j,
            forall|k: int|
                0 <= k < reports@.len() ==> {
                    let p = #[trigger] out@[k];
                    &&& p.user_name@ == reports@[k].user_name@
                    &&& p.time == reports@[k].punch_time
                    &&& p.latitude_e_15 == reports@[k].latitude_e_15
                    &&& p.longitude_e_15 == reports@[k].longitude_e_15
                    &&& p.source == SOURCE_REPORT
                },
            forall|k: int|
                0 <= k < j ==> {
                    let p = #[trigger] out@[reports@.len() + k];
                    &&& p.user_name@ == attendances@[k].username@
                    &&& p.time == attendances@[k].punch_in
                    &&& p.latitude_e_15 == attendances@[k].latitude_e_15
                    &&& p.longitude_e_15 == attendances@[k].longitude_e_15
                    &&& p.source == SOURCE_PUNCH
                },
        decreases attendances@.len() - j,
    {
        let row = &attendances[j];
        out.push(
            TrackPoint {
                user_name: owned(row.username.as_str()),
                time: row.punch_in,
                latitude_e_15: row.latitude_e_15,
                longitude_e_15: row.longitude_e_15,
                source: SOURCE_PUNCH,
            },
        );
        proof {
            assert(out@[reports@.len() + j] == out@.last());
        }
        j = j + 1;
    }
    out
}

/// Point `a` comes before point `b` (both places in `points`): it is newer,
/// or as new and earlier in the list, which is what a stable sort by
/// descending time gives.
pub open spec fn comes_before(points: Seq<TrackPoint>, a: int, b: int) -> bool {
    ||| points[a].time.micros > points[b].time.micros
    ||| (points[a].time.micros == points[b].time.micros && a < b)
}

/// `order` lists places of `points`, each at most once, in `comes_before`
/// order.
pub open spec fn ordered_places(points: Seq<TrackPoint>, order: Seq<usize>) -> bool {
    &&& forall|k: int| 0 <= k < order.len() ==> (#[trigger] order[k]) < points.len()
    &&& forall|a: int, b: int|
        0 <= a < b < order.len() ==> comes_before(points, #[trigger] order[a] as int, #[trigger] order[b] as int)
}

/// `order` lists every place of `points` once, in `comes_before` order.
pub open spec fn full_order(points: Seq<TrackPoint>, order: Seq<usize>) -> bool {
    &&& order.len() == points.len()
    &&& ordered_places(points, order)
    &&& forall|k: int| 0 <= k < points.len() ==> #[trigger] occurs(order, k)
}

/// Place `k` is somewhere in `order`.
pub open spec fn occurs(order: Seq<usize>, k: int) -> bool {
    exists|j: int| 0 <= j < order.len() && order[j] == k
}

/// The places of the points newest first; points equally new keep their
/// order in the list. Every place occurs exactly once.
pub fn newest_first(points: &[TrackPoint]) -> (r: Vec<usize>)
    ensures
        full_order(points@, r@),
{
    let mut out: Vec<usize> = Vec::new();
    let mut i: usize = 0;
    while i < points.len()
        invariant
            0 <= i <= points@.len(),
            out@.len() == i,
            forall|k: int| 0 <= k < out@.len() ==> (#[trigger] out@[k]) < i,
            forall|a: int, b: int|
                0 <= a < b < out@.len() ==> comes_before(points@, #[trigger] out@[a] as int, #[trigger] out@[b] as int),
            forall|k: int| 0 <= k < i ==> #[trigger] occurs(out@, k),
        decreases points@.len() - i,
    {
        let t = points[i].time.to_micros_since_unix_epoch();
        let mut p: usize = 0;
        while p < out.len() && points[out[p]].time.to_micros_since_unix_epoch() >= t
            invariant
                0 <= p <= out@.len(),
                out@.len() == i,
                i < points@.len(),
                t == points@[i as int].time.micros,
                forall|k: int| 0 <= k < out@.len() ==> (#[trigger] out@[k]) < i,
                forall|k: int| 0 <= k < p ==> points@[(#[trigger] out@[k]) as int].time.micros >= t,
            decreases out@.len() - p,
        {
            p = p + 1;
        }
        let ghost old_out = out@;
        proof {
            if p < old_out.len() {
                assert(points@[old_out[p as int] as int].time.micros < t);
                assert forall|k: int| p <= k < old_out.len() implies points@[(#[trigger] old_out[k]) as int].time.micros < t by {
                    if k > p {
                        assert(comes_before(points@, old_out[p as int] as int, old_out[k] as int));
                    }
                }
            }
        }
        out.insert(p, i);
        proof {
            assert(out@ == old_out.insert(p as int, i));
            assert forall|a: int, b: int| 0 <= a < b < out@.len() implies comes_before(
                points@,
                #[trigger] out@[a] as int,
                #[trigger] out@[b] as int,
            ) by {
                if b < p {
                    assert(out@[a] == old_out[a] && out@[b] == old_out[b]);
                } else if b == p {
                    assert(out@[a] == old_out[a]);
                } else if a < p {
                    assert(out@[a] == old_out[a] && out@[b] == old_out[b - 1]);
                    if a + 1 <= b - 1 {
                        assert(comes_before(points@, old_out[a] as int, old_out[b - 1] as int));
                    }
                } else if a == p {
                    assert(out@[b] == old_out[b - 1]);
                } else {
                    assert(out@[a] == old_out[a - 1] && out@[b] == old_out[b - 1]);
                }
            }
            assert forall|k: int| 0 <= k < i + 1 implies #[trigger] occurs(out@, k) by {
                if k == i {
                    assert(out@[p as int] == k);
                } else {
                    assert(occurs(old_out, k));
                    let j = choose|j: int| 0 <= j < old_out.len() && old_out[j] == k;
                    if j < p {
                        assert(out@[j] == k);
                    } else {
                        assert(out@[j + 1] == k);
                    }
                }
            }
        }
        i = i + 1;
    }
    out
}

/// In a full order no place occurs twice.
pub proof fn lemma_full_order_distinct(points: Seq<TrackPoint>, order: Seq<usize>, a: int, b: int)
    requires
        full_order(points, order),
        0 <= a < b < order.len(),
    ensures
        order[a] != order[b],
{
    assert(comes_before(points, order[a] as int, order[b] as int));
}

proof fn lemma_orders_agree_up_to(points: Seq<TrackPoint>, o1: Seq<usize>, o2: Seq<usize>, a: int)
    requires
        full_order(points, o1),
        full_order(points, o2),
        0 <= a < o1.len(),
    ensures
        forall|k: int| 0 <= k <= a ==> o1[k] == o2[k],
    decreases a,
{
    if a > 0 {
        lemma_orders_agree_up_to(points, o1, o2, a - 1);
    }
    let x = o1[a];
    let y = o2[a];
    if x != y {
        assert(occurs(o1, y as int));
        assert(occurs(o2, x as int));
        let p = choose|j: int| 0 <= j < o1.len() && o1[j] == y;
        let q = choose|j: int| 0 <= j < o2.len() && o2[j] == x;
        if p < a {
            assert(o2[p] == y);
            lemma_full_order_distinct(points, o2, p, a);
        }
        if q < a {
            assert(o1[q] == x);
            lemma_full_order_distinct(points, o1, q, a);
        }
        assert(p > a && q > a);
        assert(comes_before(points, o1[a] as int, o1[p] as int));
        assert(comes_before(points, o2[a] as int, o2[q] as int));
        assert(false);
    }
}

/// The newest-first order is fixed by the points alone: any two lists of
/// all places in `comes_before` order are the same list, so the order
/// `newest_first` gives is the stable sort by descending time.
pub proof fn lemma_full_order_unique(points: Seq<TrackPoint>, o1: Seq<usize>, o2: Seq<usize>)
    requires
        full_order(points, o1),
        full_order(points, o2),
    ensures
        o1 == o2,
{
    if o1.len() > 0 {
        lemma_orders_agree_up_to(points, o1, o2, o1.len() - 1);
    }
    assert(o1 =~= o2);
}

/// A point is shown for a lower-cased query when the query is empty or
/// occurs in the lower-cased name.
pub open spec fn point_shows(p: TrackPoint, query: Seq<char>) -> bool {
    query.len() == 0 || contains(lowercase(p.user_name@), query)
}

/// The entries of `order` whose points are shown, in order.
pub open spec fn shown_in_order(points: Seq<TrackPoint>, order: Seq<usize>, query: Seq<char>) -> Seq<usize>
    decreases order.len(),
{
    if order.len() == 0 {
        Seq::empty()
    } else {
        shown_in_order(points, order.drop_last(), query) + if point_shows(points[order.last() as int], query) {
            seq![order.last()]
        } else {
            Seq::empty()
        }
    }
}

/// The trajectory as the page lists it: newest first, only the points of
/// names matching the keyword (lower-cased, not trimmed).
pub fn trajectory_places(points: &[TrackPoint], keyword: &str) -> (r: Vec<usize>)
    ensures
        exists|order: Seq<usize>|
            full_order(points@, order) && r@ == shown_in_order(points@, order, lowercase(keyword@)),
{
    let order = newest_first(points);
    let query = to_lowercase(keyword);
    let mut out: Vec<usize> = Vec::new();
    let mut i: usize = 0;
    while i < order.len()
        invariant
            0 <= i <= order@.len(),
            full_order(points@, order@),
            query@ == lowercase(keyword@),
            out@ == shown_in_order(points@, order@.take(i as int), query@),
        decreases order@.len() - i,
    {
        let ghost after = order@.take(i + 1);
        assert(after.drop_last() =~= order@.take(i as int));
        assert(after.last() == order@[i as int]);
        let at = order[i];
        let shown = if query.as_str().unicode_len() == 0 {
            true
        } else {
            let name = to_lowercase(points[at].user_name.as_str());
            contains_str(name.as_str(), query.as_str())
        };
        if shown {
            out.push(at);
        }
        i = i + 1;
    }
    proof {
        assert(order@.take(order@.len() as int) =~= order@);
    }
    out
}

/// Badge of a point: punches stand out from position reports.
pub fn source_variant(source: &str) -> (r: BadgeVariant)
    ensures
        r == (if source@ == SOURCE_PUNCH@ { BadgeVariant::Secondary } else { BadgeVariant::Outline }),
{
    if str_eq(source, SOURCE_PUNCH) {
        BadgeVariant::Secondary
    } else {
        BadgeVariant::Outline
    }
}

} // verus!
