use yizu_pages::badge::BadgeVariant;
use yizu_pages::hr::attendance_log::{filter_log, log_counts};
use yizu_pages::hr::employee_form::{check_employee_form, form_title, EmployeeForm};
use yizu_pages::hr::leave::{
    applicant_label, check_leave_form, filter_leaves, initial_leave_park, initial_leave_time,
    leave_actions, leave_counts, leave_period, park_label, status_passes, LeaveForm,
};
use yizu_pages::hr::location::{check_location_form, initial_radius, location_state, radius_label, LocationForm};
use yizu_pages::hr::model::{parse_date, parse_datetime};
use yizu_pages::hr::overview::hr_overview;
use yizu_pages::hr::roster::{
    account_label, filter_roster, role_summary, roster_counts, schedule_label,
};
use yizu_pages::hr::trajectory::{newest_first, track_points, trajectory_places, source_variant};
use yizu_pages::records::{
    Attendance, Employee, EmployeeUserOption, LeaveApplication, LocationReport, Park,
};
use yizu_pages::timestamp::Timestamp;

fn employee_form() -> EmployeeForm {
    EmployeeForm {
        name: " 张三 ".to_string(),
        gender: "男".to_string(),
        phone: " 13800138000 ".to_string(),
        user_id: "7".to_string(),
        age: String::new(),
        id_number: "  ".to_string(),
        department: " 行政 ".to_string(),
        education: String::new(),
        hire_date: "2026-07-13".to_string(),
        resigned: false,
        leave_date: String::new(),
        address: String::new(),
        check_in: "09:00".to_string(),
        check_out: String::new(),
        remark: String::new(),
    }
}

#[test]
fn employee_form_checks_in_order() {
    assert_eq!(form_title(false), "新增员工档案");
    let mut f = employee_form();
    f.name = " 张 ".to_string();
    assert_eq!(check_employee_form(&f).unwrap_err(), "姓名至少需要 2 个字符");
    f = employee_form();
    f.phone = "1380013800a".to_string();
    assert_eq!(check_employee_form(&f).unwrap_err(), "请输入 11 位手机号码");
    f = employee_form();
    f.age = "151".to_string();
    assert_eq!(check_employee_form(&f).unwrap_err(), "年龄必须在 0 到 150 之间");
    f.age = " 30".to_string();
    assert_eq!(check_employee_form(&f).unwrap_err(), "年龄必须在 0 到 150 之间");
    f = employee_form();
    f.hire_date = "2026-02-30".to_string();
    assert_eq!(check_employee_form(&f).unwrap_err(), "请选择正确日期");
    f = employee_form();
    f.resigned = true;
    assert_eq!(check_employee_form(&f).unwrap_err(), "离职员工必须填写离职日期");
    f.leave_date = "2026-08-01".to_string();
    f.check_out = "25:00".to_string();
    assert_eq!(check_employee_form(&f).unwrap_err(), "时间格式不正确");
}

#[test]
fn employee_form_builds_the_record() {
    let mut f = employee_form();
    f.age = "30".to_string();
    let input = check_employee_form(&f).unwrap();
    assert_eq!(input.name, "张三");
    assert_eq!(input.phone, "13800138000");
    assert_eq!(input.user_id, Some(7));
    assert_eq!(input.age, Some(30));
    assert_eq!(input.id_number, None);
    assert_eq!(input.department, Some("行政".to_string()));
    assert_eq!(input.hire_date, Some(parse_date("2026-07-13").unwrap()));
    assert_eq!(input.leave_date, None);
    assert_eq!(input.check_in_seconds, Some(32_400));
    assert_eq!(input.check_out_seconds, None);
    f.user_id = "未绑定".to_string();
    assert_eq!(check_employee_form(&f).unwrap().user_id, None);
}

fn leave(status: i8, user_id: Option<u64>) -> LeaveApplication {
    LeaveApplication {
        id: 1,
        user_id,
        status,
        leave_type: "事假".to_string(),
        applicant_name: None,
        username: Some("zhang".to_string()),
        park_name: None,
        start_date: parse_datetime("2026-07-13T09:00").unwrap(),
        end_date: parse_datetime("2026-07-13T18:00").unwrap(),
        reason: "家事".to_string(),
    }
}

#[test]
fn leave_ledger_filters_and_tallies() {
    let rows = vec![leave(0, Some(1)), leave(1, Some(2)), leave(2, None), leave(0, None)];
    assert!(status_passes("all", 2));
    assert!(status_passes("-1", -1));
    assert!(!status_passes("1", 0));
    assert_eq!(filter_leaves(&rows, "0"), vec![0, 3]);
    assert_eq!(filter_leaves(&rows, "all"), vec![0, 1, 2, 3]);
    assert_eq!(leave_counts(&rows), (2, 1, 1));
    assert_eq!(applicant_label(&rows[0]), "zhang");
    assert_eq!(park_label(&rows[0]), "未分配园区");
    assert_eq!(leave_period(&rows[0]), "2026-07-13 09:00 — 2026-07-13 18:00");
}

#[test]
fn leave_rows_offer_by_role_and_owner() {
    let pending = leave(0, Some(1));
    let a = leave_actions(true, None, &pending);
    assert_eq!((a.open_label, a.can_edit, a.can_delete), ("审批", false, true));
    let a = leave_actions(false, Some(1), &pending);
    assert_eq!((a.open_label, a.can_edit, a.can_delete), ("查看", true, true));
    let approved = leave(1, Some(1));
    let a = leave_actions(false, Some(1), &approved);
    assert_eq!((a.open_label, a.can_edit, a.can_delete), ("查看", false, false));
}

#[test]
fn leave_form_checks_and_defaults() {
    assert_eq!(initial_leave_time(None, "2026-07-13", "09:00"), "2026-07-13T09:00");
    let t = parse_datetime("2026-07-14T18:00").unwrap();
    assert_eq!(initial_leave_time(Some(t), "2026-07-13", "09:00"), "2026-07-14T18:00");
    let parks = vec![Park { park_id: 4, park_name: "芙蓉园".to_string() }];
    assert_eq!(initial_leave_park(None, &parks), "4");
    assert_eq!(initial_leave_park(Some(9), &parks), "9");
    assert_eq!(initial_leave_park(None, &[]), "");
    let mut f = LeaveForm {
        leave_type: "病假".to_string(),
        start: "2026-07-13T09:00".to_string(),
        end: "2026-07-13".to_string(),
        park_id: "4".to_string(),
        reason: " 发烧 ".to_string(),
    };
    assert_eq!(check_leave_form(&f).unwrap_err(), "请选择完整时间");
    f.end = "2026-07-13T18:00".to_string();
    f.park_id = String::new();
    assert_eq!(check_leave_form(&f).unwrap_err(), "请选择园区");
    f.park_id = "4".to_string();
    let input = check_leave_form(&f).unwrap();
    assert_eq!(input.reason, "发烧");
    assert_eq!(input.park_id, 4);
    assert_eq!(input.end_date, parse_datetime("2026-07-13T18:00").unwrap());
}

#[test]
fn location_form_checks_and_labels() {
    assert_eq!(initial_radius(None), "300");
    assert_eq!(initial_radius(Some(-5)), "-5");
    assert_eq!(radius_label(250), "250 米");
    assert_eq!(location_state(false), ("停用", BadgeVariant::Outline));
    let mut f = LocationForm {
        name: " 总部 ".to_string(),
        address: String::new(),
        radius: " 200 ".to_string(),
        enabled: true,
        remark: String::new(),
    };
    assert_eq!(
        check_location_form(&f, Err("经度必须是数字".to_string()), Ok(1)).unwrap_err(),
        "经度必须是数字"
    );
    let input = check_location_form(&f, Ok(113), Ok(23)).unwrap();
    assert_eq!((input.location_name.as_str(), input.radius_metres), ("总部", 200));
    f.radius = "2.5".to_string();
    assert_eq!(check_location_form(&f, Ok(113), Ok(23)).unwrap_err(), "允许半径必须是整数米");
    f.name = " ".to_string();
    assert_eq!(check_location_form(&f, Ok(113), Ok(23)).unwrap_err(), "请填写打卡点名称");
}

fn person(name: &str, phone: &str, department: Option<&str>, resigned: bool, user_id: Option<u64>) -> Employee {
    Employee {
        employee_id: 1,
        name: name.to_string(),
        phone: phone.to_string(),
        department: department.map(str::to_string),
        user_id,
        check_in_seconds: None,
        check_out_seconds: None,
        is_deleted: false,
        is_resigned: resigned,
    }
}

#[test]
fn roster_filters_and_rows() {
    let rows = vec![
        person("Alice", "13800000001", Some("Finance"), false, Some(1)),
        person("张三", "13900000002", None, true, None),
        person("Bob", "13700000003", Some("行政"), false, None),
    ];
    assert_eq!(roster_counts(&rows), (2, 1, 1));
    assert_eq!(filter_roster(&rows, " ALICE ", "all"), vec![0]);
    assert_eq!(filter_roster(&rows, "finance", "all"), vec![0]);
    assert_eq!(filter_roster(&rows, "139", "all"), vec![1]);
    assert_eq!(filter_roster(&rows, "", "active"), vec![0, 2]);
    assert_eq!(filter_roster(&rows, "", "resigned"), vec![1]);
    let options = vec![EmployeeUserOption {
        user_id: 1,
        real_name: "爱丽丝".to_string(),
        username: "alice".to_string(),
        role_ids: vec![1, 2],
        role_names: vec!["人事".to_string(), "财务".to_string()],
    }];
    assert_eq!(account_label(&options, &rows[0]), "爱丽丝 · alice");
    assert_eq!(account_label(&options, &rows[1]), "未绑定");
    assert_eq!(role_summary(&options, &rows[0]), "人事、财务");
    assert_eq!(role_summary(&options, &rows[2]), "—");
    assert_eq!(schedule_label(&rows[0]), "未设置");
    let mut shifted = person("C", "1", None, false, None);
    shifted.check_in_seconds = Some(32_400);
    assert_eq!(schedule_label(&shifted), "09:00 — ");
}

fn attendance(username: &str, status: Option<i8>, punch_in: i64, out: bool, user_id: Option<u64>) -> Attendance {
    Attendance {
        attendance_id: 1,
        user_id,
        username: username.to_string(),
        punch_in: Timestamp::from_micros_since_unix_epoch(punch_in),
        punch_out: if out { Some(Timestamp::from_micros_since_unix_epoch(punch_in + 1)) } else { None },
        status,
        latitude_e_15: 0,
        longitude_e_15: 0,
    }
}

#[test]
fn attendance_records_tally_and_filter() {
    let rows = vec![
        attendance("Zhang", Some(0), 10, true, Some(1)),
        attendance("li", Some(4), 20, false, Some(2)),
        attendance("zhangsan", None, 30, false, None),
    ];
    assert_eq!(log_counts(&rows), (1, 1, 1));
    assert_eq!(filter_log(&rows, "ZHANG", "all"), vec![0, 2]);
    assert_eq!(filter_log(&rows, "", "4"), vec![1]);
    assert_eq!(filter_log(&rows, " zhang", "all"), Vec::<usize>::new());
}

#[test]
fn trajectory_is_newest_first_and_stable() {
    let reports = vec![
        LocationReport { user_name: "A".to_string(), punch_time: Timestamp::from_micros_since_unix_epoch(5), latitude_e_15: 0, longitude_e_15: 0 },
        LocationReport { user_name: "B".to_string(), punch_time: Timestamp::from_micros_since_unix_epoch(9), latitude_e_15: 0, longitude_e_15: 0 },
    ];
    let punches = vec![attendance("a", Some(0), 5, false, None), attendance("C", Some(0), 7, false, None)];
    let points = track_points(&reports, &punches);
    assert_eq!(points.len(), 4);
    assert_eq!(points[2].source, "考勤打卡");
    assert_eq!(newest_first(&points), vec![1, 3, 0, 2]);
    assert_eq!(trajectory_places(&points, "b"), vec![1]);
    assert_eq!(trajectory_places(&points, "a"), vec![0, 2]);
    assert_eq!(source_variant("考勤打卡"), BadgeVariant::Secondary);
    assert_eq!(source_variant("定位上报"), BadgeVariant::Outline);
}

#[test]
fn hr_overview_links_records_to_live_accounts() {
    let mut gone = person("D", "1", None, false, Some(3));
    gone.is_deleted = true;
    let employees = vec![person("A", "1", None, false, Some(1)), person("B", "1", None, false, None), gone];
    let attendances = vec![attendance("a", Some(0), 1, false, Some(1)), attendance("d", Some(0), 1, false, Some(3))];
    let leaves = vec![leave(0, Some(1)), leave(1, None), leave(0, Some(9))];
    let o = hr_overview(&employees, &attendances, &leaves);
    assert_eq!((o.bound, o.unbound), (1, 1));
    assert_eq!((o.attendance_linked, o.attendance_unlinked), (1, 1));
    assert_eq!((o.leave_linked, o.leave_unlinked), (1, 2));
    assert_eq!(o.pending_leave, 2);
    assert_eq!(o.max_count, 3);
}

#[test]
fn delete_questions_name_the_record() {
    assert_eq!(
        yizu_pages::hr::leave::delete_description("事假"),
        "将删除“事假”申请，此操作不可撤销。"
    );
    assert_eq!(
        yizu_pages::hr::roster::delete_description("张三"),
        "员工“张三”将被逻辑删除并记录离职时间，历史考勤不会丢失。"
    );
    assert_eq!(
        yizu_pages::hr::location::delete_description("总部"),
        "删除「总部」后，这个位置不再能打卡。已有的考勤记录不受影响。"
    );
}
