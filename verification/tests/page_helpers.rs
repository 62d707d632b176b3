use yizu_pages::badge::BadgeVariant;
use yizu_pages::hr::attendance::{
    punch_outcome, today_status, checkout_state, is_device_abnormal, is_punched, is_today_record, locate_today_record,
    punch_button_text,
};
use yizu_pages::hr::navigation::{hr_nav_items, HrRouteAccess};
use yizu_pages::maintenance::inspect::{
    asset_code, elevator_facts, expiry_notice, history_caption, history_places, transformer_facts,
    transformer_place,
};
use yizu_pages::records::{Attendance, ElevatorAsset, Factory, Inspection, Park, TransformerAsset};
use yizu_pages::timestamp::Timestamp;
use yizu_pages::workspace::{component_label, find_menu, route_path, MenuEntry};

fn punch(id: u64, micros: i64, out: bool) -> Attendance {
    Attendance {
        attendance_id: id,
        user_id: Some(1),
        username: "zhang".to_string(),
        punch_in: Timestamp::from_micros_since_unix_epoch(micros),
        punch_out: if out { Some(Timestamp::from_micros_since_unix_epoch(micros + 1)) } else { None },
        status: Some(0),
        latitude_e_15: 0,
        longitude_e_15: 0,
    }
}

#[test]
fn todays_record_is_the_latest_punch_of_the_day() {
    // 1970-01-01 08:00 and 09:00 in China time, and the next day.
    let records = vec![punch(1, 0, true), punch(2, 3_600_000_000, false), punch(3, 86_400_000_000, false)];
    assert!(is_today_record(&records[0], "1970-01-01"));
    assert!(!is_today_record(&records[2], "1970-01-01"));
    let today = locate_today_record(&records, "1970-01-01");
    assert_eq!(today.as_ref().map(|r| r.attendance_id), Some(2));
    assert!(is_punched(&today));
    assert_eq!(punch_button_text(&today), "下班打卡");
    assert_eq!(checkout_state(&today), "待下班");
    assert!(locate_today_record(&records, "1999-01-01").is_none());
    assert_eq!(punch_button_text(&None), "上班打卡");
    assert_eq!(checkout_state(&Some(punch(4, 0, true))), "已完成");
    assert!(is_device_abnormal("打卡失败：检测到考勤设备异常，请确认"));
    assert!(!is_device_abnormal("网络错误"));
}

#[test]
fn hr_navigation_depends_on_role_and_menu() {
    let all = HrRouteAccess { information: true, punch: true, location: true, stats: true, trajectory: true, leave: true };
    let manager = hr_nav_items(true, all, "leave");
    let keys: Vec<_> = manager.iter().map(|i| i.key).collect();
    assert_eq!(keys, vec!["employee", "punch", "location", "records", "trajectory", "leave"]);
    assert_eq!(manager[5].label, "请假审批");
    assert!(manager[5].current && !manager[0].current);
    let staff = hr_nav_items(false, all, "punch");
    let labels: Vec<_> = staff.iter().map(|i| i.label).collect();
    assert_eq!(labels, vec!["考勤打卡", "我的考勤", "我的轨迹", "我的请假"]);
    let none = HrRouteAccess { information: false, punch: false, location: false, stats: false, trajectory: false, leave: false };
    assert!(hr_nav_items(true, none, "").is_empty());
}

#[test]
fn dynamic_pages_find_their_menu_entry() {
    let menus = vec![
        MenuEntry { name: "报表".to_string(), path: "/report/day".to_string(), active_path: None, component: None },
        MenuEntry { name: "明细".to_string(), path: "/report/list".to_string(), active_path: Some("/report/item".to_string()), component: Some("ReportItem".to_string()) },
    ];
    let path = route_path(&vec!["report".to_string(), "item".to_string()]);
    assert_eq!(path, "/report/item");
    assert_eq!(find_menu(&menus, &path), Some(1));
    assert_eq!(find_menu(&menus, "/report/day"), Some(0));
    assert_eq!(find_menu(&menus, "/other"), None);
    assert_eq!(component_label(&menus[0]), "动态业务组件");
    assert_eq!(component_label(&menus[1]), "ReportItem");
    assert_eq!(route_path(&vec![]), "/");
}

#[test]
fn inspection_pages_show_asset_facts() {
    assert_eq!(asset_code("POWER", 42), "POWER-000042");
    assert_eq!(asset_code("FIRE", 1_234_567), "FIRE-1234567");
    let parks = vec![Park { park_id: 1, park_name: "芙蓉园".to_string() }];
    let factories = vec![Factory { factory_id: 3, park_id: 1, factory_name: "三号厂房".to_string() }];
    let t = TransformerAsset {
        asset_id: 42,
        park_id: 1,
        factory_id: 0,
        transformer_name: "1#".to_string(),
        location: "配电房".to_string(),
        specifications: "S11".to_string(),
        capacity_centi_kw: 63_000,
    };
    assert_eq!(transformer_place(&t, &parks, &factories), "芙蓉园 · 园区公共区域");
    assert_eq!(transformer_facts(&t), "规格 S11 · 容量 630.00 kW");
    let e = ElevatorAsset {
        asset_id: 2,
        park_id: 1,
        factory_id: 3,
        elevator_name: "货梯".to_string(),
        location: "东侧".to_string(),
        size: None,
        load_capacity_centi_kg: 0,
    };
    assert_eq!(elevator_facts(&e), "轿厢 未记录 · 承重 未填写");
    assert_eq!(
        expiry_notice("2026-08-01", "2026-08-04"),
        ("该设施已于 2026-08-01 过期，请及时更换。".to_string(), true)
    );
    assert_eq!(expiry_notice("2026-08-04", "2026-08-04"), ("有效期至 2026-08-04".to_string(), false));
    assert_eq!(expiry_notice("下月", "2026-08-04"), ("有效期至 下月".to_string(), false));
    let rows = vec![
        Inspection { inspection_id: 1, asset_id: 2, check_time: Timestamp::from_micros_since_unix_epoch(0), status: "正常".to_string() },
        Inspection { inspection_id: 2, asset_id: 3, check_time: Timestamp::from_micros_since_unix_epoch(0), status: "正常".to_string() },
        Inspection { inspection_id: 3, asset_id: 2, check_time: Timestamp::from_micros_since_unix_epoch(0), status: "异常".to_string() },
    ];
    assert_eq!(history_places(&rows, 2), vec![0, 2]);
    assert_eq!(history_caption(2), "共 2 次巡检，按时间倒序。记录只增不删。");
}

#[test]
fn punch_answers_drive_the_page() {
    assert_eq!(today_status(&None), ("尚未打卡", BadgeVariant::Outline));
    assert_eq!(today_status(&Some(punch(1, 0, false))), ("正常", BadgeVariant::Secondary));
    let ok = punch_outcome(Ok(()));
    assert_eq!((ok.notice.as_str(), ok.ask_device_confirmation, ok.clear_confirmation), ("打卡成功，记录已同步", false, true));
    let refused = punch_outcome(Err("检测到考勤设备异常，请确认后重试".to_string()));
    assert!(refused.ask_device_confirmation && !refused.clear_confirmation);
    let other = punch_outcome(Err("不在打卡范围内".to_string()));
    assert_eq!((other.notice.as_str(), other.ask_device_confirmation), ("不在打卡范围内", false));
}
