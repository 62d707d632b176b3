use yizu_pages::badge::BadgeVariant;
use yizu_pages::maintenance::model::{
    capacity_input, civil_days_of, civil_from_days, datetime_input, days_from_civil, days_in_month,
    expiry_days_left, factory_name, format_capacity_kw, format_datetime, format_load_kg,
    is_leap_year, latest_inspection, load_kg_input, park_name, parse_datetime, status_variant,
    today_date,
};
use yizu_pages::records::{Factory, Inspection, Park};
use yizu_pages::timestamp::Timestamp;

fn inspection(inspection_id: u64, asset_id: u64, micros: i64, status: &str) -> Inspection {
    Inspection {
        inspection_id,
        asset_id,
        check_time: Timestamp::from_micros_since_unix_epoch(micros),
        status: status.to_string(),
    }
}

#[test]
fn inspection_time_round_trips_in_china_time() {
    let value = parse_datetime("2026-07-15T09:30").expect("时间应可解析");
    assert_eq!(datetime_input(value), "2026-07-15T09:30");
}

#[test]
fn invalid_inspection_times_are_rejected() {
    assert!(parse_datetime("2026-02-30T09:30").is_err());
    assert!(parse_datetime("2026-07-15 09:30").is_err());
}

#[test]
fn capacity_shows_and_fills_the_form() {
    // Reading the capacity field is done by the page's decimal parser.
    assert_eq!(format_capacity_kw(1100), "11.00 kW");
    assert_eq!(format_capacity_kw(0), "未填写");
    assert_eq!(capacity_input(1100), "11.00");
    assert_eq!(capacity_input(0), "");
}

#[test]
fn expiry_days_left_follow_the_calendar() {
    assert_eq!(expiry_days_left("2026-08-05", "2026-08-04"), Some(1));
    assert_eq!(expiry_days_left("2026-08-04", "2026-08-04"), Some(0));
    assert_eq!(expiry_days_left("2026-08-01", "2026-08-04"), Some(-3));
    assert_eq!(expiry_days_left("2026-09-03", "2026-08-04"), Some(30));
    assert_eq!(expiry_days_left("2026-13-01", "2026-08-04"), None);
    assert_eq!(expiry_days_left("", "2026-08-04"), None);
}

#[test]
fn load_shows_and_fills_the_form() {
    // Reading the load field is done by the page's decimal parser.
    assert_eq!(format_load_kg(200_000), "2000.00 kg");
    assert_eq!(format_load_kg(0), "未填写");
    assert_eq!(load_kg_input(200_000), "2000.00");
}

#[test]
fn inspection_time_is_minute_exact() {
    let t = parse_datetime("1970-01-01T08:00").unwrap();
    assert_eq!(t.to_micros_since_unix_epoch(), 0);
    assert_eq!(format_datetime(t), "1970-01-01 08:00");
    assert_eq!(
        parse_datetime(" 2026-07-15T09:30 ").unwrap().to_micros_since_unix_epoch(),
        parse_datetime("2026-07-15T09:30").unwrap().to_micros_since_unix_epoch()
    );
    assert_eq!(parse_datetime("2026-07-15T24:00"), Err("检查时间格式不正确".to_string()));
}

#[test]
fn maintenance_calendar_helpers() {
    assert!(is_leap_year(2000));
    assert!(!is_leap_year(2100));
    assert_eq!(days_in_month(2023, 2), 28);
    assert_eq!(days_in_month(2023, 4), 30);
    assert_eq!(days_from_civil(2026, 8, 4), Some(20_669));
    assert_eq!(civil_from_days(20_669), (2026, 8, 4));
    assert_eq!(civil_days_of("2026-08-04"), Some(20_669));
    assert_eq!(civil_days_of("1969-12-31"), None);
}

#[test]
fn latest_inspection_takes_newest_then_highest_id() {
    let rows = vec![
        inspection(1, 7, 100, "正常"),
        inspection(2, 7, 300, "异常"),
        inspection(3, 8, 900, "正常"),
        inspection(4, 7, 300, "正常"),
    ];
    let latest = latest_inspection(&rows, 7).unwrap();
    assert_eq!(latest.inspection_id, 4);
    assert!(latest_inspection(&rows, 9).is_none());
}

#[test]
fn names_fall_back_when_rows_are_missing() {
    let parks = vec![Park { park_id: 1, park_name: "一号园".to_string() }];
    let factories = vec![Factory { factory_id: 3, park_id: 1, factory_name: "三号厂房".to_string() }];
    assert_eq!(park_name(&parks, 1), "一号园");
    assert_eq!(park_name(&parks, 2), "园区 #2");
    assert_eq!(factory_name(&factories, Some(3)), "三号厂房");
    assert_eq!(factory_name(&factories, Some(4)), "未指定厂房");
    assert_eq!(factory_name(&factories, None), "未指定厂房");
}

#[test]
fn status_badges() {
    assert_eq!(status_variant("正常"), BadgeVariant::Secondary);
    assert_eq!(status_variant("异常"), BadgeVariant::Destructive);
}

#[test]
fn today_date_is_the_china_date_of_the_reading() {
    assert_eq!(today_date(0), "1970-01-01");
    assert_eq!(today_date(1_784_079_000_000_000), "2026-07-15");
    assert_eq!(today_date(1_784_044_799_999_999), "2026-07-14");
    let text = today_date(1_784_079_000_000_000);
    assert_eq!(civil_days_of(&text), Some(20649));
    assert_eq!(today_date(i64::MAX), today_date(i64::MAX - 28_800_000_000));
}

#[test]
fn consecutive_days_have_consecutive_numbers() {
    let pairs = [
        ((2026, 8, 31), (2026, 9, 1)),
        ((2026, 12, 31), (2027, 1, 1)),
        ((2024, 2, 28), (2024, 2, 29)),
        ((2024, 2, 29), (2024, 3, 1)),
        ((2023, 2, 28), (2023, 3, 1)),
    ];
    for ((y1, m1, d1), (y2, m2, d2)) in pairs {
        let a = days_from_civil(y1, m1, d1).unwrap();
        assert_eq!(days_from_civil(y2, m2, d2), Some(a + 1));
    }
    assert_eq!(days_from_civil(2026, 8, 4), Some(20669));
    assert_eq!(days_from_civil(2026, 9, 3), Some(20699));
    assert_eq!(days_from_civil(1970, 1, 1), Some(0));
    assert_eq!(days_from_civil(2023, 2, 29), None);
}

#[test]
fn written_dates_read_as_day_numbers() {
    assert_eq!(civil_days_of(" 2026-08-04 "), Some(20669));
    assert_eq!(civil_days_of("2026-13-01"), None);
    assert_eq!(civil_days_of("2026-08"), None);
    assert_eq!(civil_days_of(""), None);
    assert_eq!(civil_days_of(&today_date(0)), Some(0));
}
