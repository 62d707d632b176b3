use std::collections::BTreeSet;

use yizu_pages::data_map::model::{
    format_area_square_metres, meter_location_counts, optional_link_counts, sentinel_link_counts,
};

#[test]
fn area_is_grouped_and_truncated() {
    assert_eq!(format_area_square_metres(51_910_500), "519,105");
    assert_eq!(format_area_square_metres(9_999), "99");
    assert_eq!(format_area_square_metres(0), "0");
}

#[test]
fn zero_sentinel_and_dangling_targets_are_unlinked() {
    let active = BTreeSet::from([7_u64]);
    assert_eq!(sentinel_link_counts(&[7, 0, 999], &active), (1, 2));
}

#[test]
fn meters_fall_into_three_location_buckets() {
    assert_eq!(
        meter_location_counts(&[(3, 0), (0, 5), (0, 0), (0, 0)]),
        (1, 1, 2)
    );
}

#[test]
fn optional_keys_split_unassigned_and_dangling() {
    let active = BTreeSet::from([7_u64]);
    assert_eq!(
        optional_link_counts(&[Some(7), None, Some(999)], &active),
        (1, 1, 1)
    );
}

#[test]
fn zero_is_unlinked_even_when_listed_as_live() {
    let active = BTreeSet::from([0_u64, 7]);
    assert_eq!(sentinel_link_counts(&[0, 0, 7], &active), (1, 2));
}
