use std::collections::BTreeSet;

use yizu_pages::badge::BadgeVariant;
use yizu_pages::hr::model::{
    attendance_status, civil_from_days, days_from_civil, employee_binding_counts, format_date,
    format_datetime, leap, leave_status, linked_id_counts, mdays, parse_date, parse_datetime,
    parse_time, punch_source_label, seconds_to_time, today,
};
use yizu_pages::records::Employee;
use yizu_pages::timestamp::Timestamp;

fn employee(user_id: Option<u64>) -> Employee {
    Employee {
        employee_id: 1,
        name: "员工".to_string(),
        phone: String::new(),
        department: None,
        user_id,
        check_in_seconds: None,
        check_out_seconds: None,
        is_deleted: false,
        is_resigned: false,
    }
}

#[test]
fn hr_date_and_shift_time_round_trip() {
    assert_eq!(
        format_date(Some(parse_date("2026-07-13").unwrap())),
        "2026-07-13"
    );
    assert_eq!(parse_time("09:30"), Ok(Some(34200)));
}

#[test]
fn binding_counts_split_bound_and_unbound() {
    assert_eq!(
        employee_binding_counts(&[employee(Some(1)), employee(None), employee(Some(2))]),
        (2, 1)
    );
}

#[test]
fn deleted_employees_skip_binding_counts() {
    let mut deleted = employee(Some(1));
    deleted.is_deleted = true;
    assert_eq!(employee_binding_counts(&[deleted]), (0, 0));
}

#[test]
fn user_id_links_split_linked_and_unmatched() {
    let bound = BTreeSet::from([1_u64, 2]);
    let ids = vec![Some(1), Some(2), Some(99), None];
    assert_eq!(linked_id_counts(&ids, &bound), (2, 2));
}

#[test]
fn punch_source_labels_default_to_phone_location() {
    assert_eq!(punch_source_label(Some("face")), "人脸识别");
    assert_eq!(punch_source_label(Some("gps")), "手机定位");
    assert_eq!(punch_source_label(None), "手机定位");
    assert_eq!(punch_source_label(Some("unknown")), "手机定位");
}

#[test]
fn hr_date_round_trip_over_a_leap_day() {
    let t = parse_date("2024-02-29").unwrap();
    assert_eq!(format_date(Some(t)), "2024-02-29");
    // Midnight in China time is 16:00 UTC of the day before.
    assert_eq!(t.to_micros_since_unix_epoch(), 1_709_136_000_000_000);
}

#[test]
fn hr_date_parse_is_trimmed_and_checked() {
    assert_eq!(parse_date(" 1970-01-01 ").unwrap().to_micros_since_unix_epoch(), -28_800_000_000);
    assert_eq!(parse_date("2026-02-30"), Err("请选择正确日期".to_string()));
    assert_eq!(parse_date("1969-12-31"), Err("请选择正确日期".to_string()));
    assert_eq!(parse_date("2026-01-01-01"), Err("日期格式不正确".to_string()));
    assert_eq!(parse_date("abc"), Err("请选择正确日期".to_string()));
}

#[test]
fn hr_datetime_parse_and_format() {
    let t = parse_datetime("2026-07-13T09:30").unwrap();
    assert_eq!(format_datetime(Some(t)), "2026-07-13 09:30");
    assert_eq!(parse_datetime("2026-07-13"), Err("请选择完整时间".to_string()));
    assert_eq!(parse_datetime("2026-07-13T24:00"), Err("时间格式不正确".to_string()));
    assert_eq!(format_datetime(None), "--");
    assert_eq!(format_date(None), "--");
}

#[test]
fn shift_times_read_and_write() {
    assert_eq!(parse_time("   "), Ok(None));
    assert_eq!(parse_time("23:59"), Ok(Some(86_340)));
    assert_eq!(parse_time("24:00"), Err("时间格式不正确".to_string()));
    assert_eq!(parse_time("9"), Err("时间格式不正确".to_string()));
    assert_eq!(seconds_to_time(Some(34_200)), "09:30");
    assert_eq!(seconds_to_time(None), "");
}

#[test]
fn calendar_helpers_match_the_gregorian_rules() {
    assert!(leap(2000));
    assert!(!leap(1900));
    assert!(leap(2024));
    assert_eq!(mdays(2024, 2), 29);
    assert_eq!(mdays(2023, 2), 28);
    assert_eq!(mdays(2023, 13), 0);
    assert_eq!(days_from_civil(1970, 1, 1), Some(0));
    assert_eq!(days_from_civil(2026, 7, 13), Some(20_647));
    assert_eq!(days_from_civil(2026, 2, 30), None);
    assert_eq!(civil_from_days(20_647), (2026, 7, 13));
    assert_eq!(civil_from_days(0), (1970, 1, 1));
    assert_eq!(civil_from_days(-1), (1969, 12, 31));
}

#[test]
fn statuses_have_labels_and_badges() {
    assert_eq!(attendance_status(Some(0)), ("正常", BadgeVariant::Secondary));
    assert_eq!(attendance_status(Some(3)), ("迟到且早退", BadgeVariant::Destructive));
    assert_eq!(attendance_status(None), ("待完成", BadgeVariant::Outline));
    assert_eq!(leave_status(1), ("已批准", BadgeVariant::Secondary));
    assert_eq!(leave_status(2), ("已驳回", BadgeVariant::Destructive));
    assert_eq!(leave_status(0), ("待审批", BadgeVariant::Outline));
}

#[test]
fn today_is_the_china_date_of_the_reading() {
    assert_eq!(today(0), "1970-01-01");
    assert_eq!(today(1_784_079_000_000_000), "2026-07-15");
    assert_eq!(today(1_784_044_800_000_000), "2026-07-15");
    assert_eq!(today(1_784_044_799_999_999), "2026-07-14");
    assert_eq!(today(-28_800_000_001), "1969-12-31");
    assert_eq!(today(i64::MAX), today(i64::MAX - 28_800_000_000));
    assert!(Timestamp::from_micros_since_unix_epoch(0).to_micros_since_unix_epoch() == 0);
}

#[test]
fn hr_day_numbers_round_trip() {
    for z in [0i64, 1, 59, 19_782, 20_647, 2_932_896] {
        let (y, m, d) = civil_from_days(z);
        assert_eq!(days_from_civil(y, m, d), Some(z));
    }
    assert_eq!(civil_from_days(19_782), (2024, 2, 29));
    assert_eq!(civil_from_days(2_932_896), (9999, 12, 31));
    assert_eq!(days_from_civil(10000, 1, 1), None);
}
