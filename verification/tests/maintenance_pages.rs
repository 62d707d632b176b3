use yizu_pages::maintenance::firefighting::{firefighting_counts, location_label, status_matches, AssetRow};
use yizu_pages::maintenance::forms::{
    check_clock_part, check_date_part, check_elevator_form, check_firefighting_form,
    check_inspection_form, check_transformer_form, initial_location, join_check_time,
    ElevatorAssetForm, FirefightingAssetForm, InspectionForm, TransformerAssetForm,
};
use yizu_pages::maintenance::ledger::{
    elevator_shown, firefighting_shown, inspection_counts, inspection_filter_passes,
    transformer_shown,
};
use yizu_pages::maintenance::model::parse_datetime;
use yizu_pages::maintenance::overview::{
    order_counts, repair_order_input, repair_order_shown, view_rows, workflow_actions, OrderDraft,
    WorkflowAction,
};
use yizu_pages::maintenance::transformer::{can_submit_inspection, inspect_url, qr_print_label, qr_svg};
use yizu_pages::records::{
    Dormitory, DormitoryFloor, ElevatorAsset, Factory, FactoryFloor, FirefightingAsset, Inspection,
    Park, RepairOrder, TransformerAsset,
};
use yizu_pages::search::search_query;
use yizu_pages::timestamp::Timestamp;

fn parks() -> Vec<Park> {
    vec![Park { park_id: 1, park_name: "芙蓉园".to_string() }]
}

fn factories() -> Vec<Factory> {
    vec![Factory { factory_id: 3, park_id: 1, factory_name: "三号厂房".to_string() }]
}

fn inspection(status: &str) -> Option<Inspection> {
    Some(Inspection {
        inspection_id: 1,
        asset_id: 1,
        check_time: Timestamp::from_micros_since_unix_epoch(0),
        status: status.to_string(),
    })
}

fn extinguisher(factory_floor_id: u64, dormitory_floor_id: u64) -> FirefightingAsset {
    FirefightingAsset {
        asset_id: 5,
        park_id: 1,
        factory_floor_id,
        dormitory_floor_id,
        facility_type: "灭火器".to_string(),
        facility_name: "MFZ-01".to_string(),
        location: "楼梯口".to_string(),
        specifications: Some("4kg 干粉".to_string()),
        expiry_on: Some("2027-01-01".to_string()),
    }
}

#[test]
fn inspection_form_requires_note_for_abnormal_and_a_valid_time() {
    let mut f = InspectionForm {
        status: "异常".to_string(),
        abnormal_note: "  ".to_string(),
        check_time: "2026-07-15T09:30".to_string(),
        remark: String::new(),
    };
    assert_eq!(check_inspection_form(9, &f).unwrap_err(), "状态为异常时必须填写异常描述");
    f.abnormal_note = " 压力表在红区 ".to_string();
    f.check_time = "2026-07-15".to_string();
    assert_eq!(check_inspection_form(9, &f).unwrap_err(), "检查时间格式不正确");
    f.check_time = "2026-07-15T09:30".to_string();
    let input = check_inspection_form(9, &f).unwrap();
    assert_eq!(input.asset_id, 9);
    assert_eq!(input.abnormal_note, Some("压力表在红区".to_string()));
    assert_eq!(input.check_time, Some(parse_datetime("2026-07-15T09:30").unwrap()));
    assert_eq!(input.remark, None);
}

#[test]
fn check_time_field_splits_and_joins() {
    assert_eq!(check_date_part("2026-07-15T09:30"), "2026-07-15");
    assert_eq!(check_clock_part("2026-07-15T09:30"), "09:30");
    assert_eq!(check_clock_part("2026-07-15"), "");
    assert_eq!(join_check_time("2026-07-16", "10:00"), "2026-07-16T10:00");
}

#[test]
fn firefighting_form_routes_the_floor_by_building_kind() {
    let mut f = FirefightingAssetForm {
        building_kind: "dormitory".to_string(),
        floor_id: "0".to_string(),
        facility_type: "灭火器".to_string(),
        name: " MFZ-01 ".to_string(),
        location: "楼梯口".to_string(),
        specifications: String::new(),
        expiry_on: " ".to_string(),
        remark: String::new(),
    };
    assert_eq!(check_firefighting_form(&f).unwrap_err(), "请选择所在楼层");
    f.floor_id = "12".to_string();
    assert_eq!(check_firefighting_form(&f).unwrap_err(), "灭火器必须填写有效期至");
    f.expiry_on = "2027-01-01".to_string();
    let input = check_firefighting_form(&f).unwrap();
    assert_eq!((input.factory_floor_id, input.dormitory_floor_id), (0, 12));
    assert_eq!(input.facility_name, "MFZ-01");
    f.building_kind = "factory".to_string();
    f.facility_type = "消防栓".to_string();
    f.expiry_on = String::new();
    let input = check_firefighting_form(&f).unwrap();
    assert_eq!((input.factory_floor_id, input.dormitory_floor_id), (12, 0));
    assert_eq!(input.expiry_on, None);
}

#[test]
fn firefighting_edit_form_starts_from_the_floor() {
    let factory_floors = vec![FactoryFloor { floor_id: 4, factory_id: 3, floor_name: "二层".to_string() }];
    let dormitory_floors = vec![DormitoryFloor { dormitory_floor_id: 8, dormitory_id: 2, floor_no: 5 }];
    assert_eq!(
        initial_location(&None, &factory_floors, &dormitory_floors),
        ("factory".to_string(), String::new(), String::new())
    );
    assert_eq!(
        initial_location(&Some(extinguisher(4, 0)), &factory_floors, &dormitory_floors),
        ("factory".to_string(), "3".to_string(), "4".to_string())
    );
    assert_eq!(
        initial_location(&Some(extinguisher(0, 8)), &factory_floors, &dormitory_floors),
        ("dormitory".to_string(), "2".to_string(), "8".to_string())
    );
    assert_eq!(
        initial_location(&Some(extinguisher(0, 9)), &factory_floors, &dormitory_floors),
        ("dormitory".to_string(), String::new(), "9".to_string())
    );
}

#[test]
fn transformer_and_elevator_forms_take_the_parsed_quantity() {
    let mut t = TransformerAssetForm {
        park_id: "1".to_string(),
        factory_id: "x".to_string(),
        name: "1# 变压器".to_string(),
        location: "配电房".to_string(),
        specifications: "  ".to_string(),
        commissioned_on: String::new(),
        remark: String::new(),
    };
    assert_eq!(check_transformer_form(&t, Ok(1100)).unwrap_err(), "请输入规格型号");
    t.specifications = "S11-630".to_string();
    assert_eq!(
        check_transformer_form(&t, Err("容量格式不正确".to_string())).unwrap_err(),
        "容量格式不正确"
    );
    let input = check_transformer_form(&t, Ok(63_000)).unwrap();
    assert_eq!((input.capacity_centi_kw, input.factory_id, input.park_id), (63_000, 0, 1));
    let e = ElevatorAssetForm {
        factory_id: "0".to_string(),
        name: "货梯".to_string(),
        location: "东侧".to_string(),
        size: String::new(),
        production_date: String::new(),
        remark: String::new(),
    };
    assert_eq!(check_elevator_form(&e, Ok(1)).unwrap_err(), "请选择所在厂房");
    let e = ElevatorAssetForm { factory_id: "3".to_string(), ..e };
    let input = check_elevator_form(&e, Ok(200_000)).unwrap();
    assert_eq!((input.factory_id, input.load_capacity_centi_kg), (3, 200_000));
}

#[test]
fn ledgers_filter_by_status_and_search() {
    assert_eq!(search_query("  Transformer "), "transformer");
    let asset = TransformerAsset {
        asset_id: 1,
        park_id: 1,
        factory_id: 0,
        transformer_name: "1# 变压器".to_string(),
        location: "配电房".to_string(),
        specifications: "S11-630".to_string(),
        capacity_centi_kw: 63_000,
    };
    assert!(transformer_shown(&asset, &None, "全部", "s11", &parks(), &factories()));
    assert!(transformer_shown(&asset, &None, "未巡检", "公共区域", &parks(), &factories()));
    assert!(!transformer_shown(&asset, &inspection("正常"), "异常", "", &parks(), &factories()));
    let elevator = ElevatorAsset {
        asset_id: 2,
        park_id: 1,
        factory_id: 3,
        elevator_name: "货梯".to_string(),
        location: "东侧".to_string(),
        size: None,
        load_capacity_centi_kg: 0,
    };
    assert!(elevator_shown(&elevator, &inspection("异常"), "异常", "三号", &parks(), &factories()));
    assert!(!elevator_shown(&elevator, &inspection("异常"), "全部", "西侧", &parks(), &factories()));
    assert!(inspection_filter_passes(&None, "未巡检"));
    assert_eq!(
        inspection_counts(&[inspection("异常"), None, inspection("正常"), None]),
        (1, 2)
    );
}

#[test]
fn firefighting_ledger_filters_by_type_expiry_and_place() {
    let factory_floors = vec![FactoryFloor { floor_id: 4, factory_id: 3, floor_name: "二层".to_string() }];
    let dormitories: Vec<Dormitory> = vec![];
    let dormitory_floors: Vec<DormitoryFloor> = vec![];
    let asset = extinguisher(4, 0);
    assert_eq!(
        location_label(&asset, &parks(), &factories(), &factory_floors, &dormitories, &dormitory_floors),
        "芙蓉园 · 三号厂房 · 二层"
    );
    let row = AssetRow { latest: None, days_left: Some(-2) };
    assert!(status_matches(&row, "已到期"));
    assert!(!status_matches(&row, "临期"));
    assert!(firefighting_shown(
        &asset, &row, "灭火器", "已到期", "二层", &parks(), &factories(), &factory_floors, &dormitories,
        &dormitory_floors
    ));
    assert!(!firefighting_shown(
        &asset, &row, "消防栓", "全部", "", &parks(), &factories(), &factory_floors, &dormitories,
        &dormitory_floors
    ));
    let soon = AssetRow { latest: inspection("异常"), days_left: Some(30) };
    assert!(soon.expiring_soon());
    assert_eq!(firefighting_counts(&[row, soon]), (1, 1));
}

fn order(status: &str, assignee: Option<&str>) -> RepairOrder {
    RepairOrder {
        repair_order_id: 1,
        order_no: "WO-1".to_string(),
        park_id: 1,
        factory_id: Some(3),
        source: "物业".to_string(),
        repair_type: "设备维修".to_string(),
        priority: "普通".to_string(),
        status: status.to_string(),
        tenant_name: None,
        tenant_phone: None,
        assignee: assignee.map(str::to_string),
        assignee_phone: None,
        description: "漏水".to_string(),
        created_at: Timestamp::from_micros_since_unix_epoch(0),
    }
}

#[test]
fn repair_orders_show_and_move() {
    let rows = view_rows(&[order("待接单", None), order("已完成", Some("张工"))], &parks(), &factories());
    assert_eq!(rows[0].title, "设备维修 · 物业报修");
    assert_eq!(rows[0].location, "芙蓉园 · 三号厂房");
    assert_eq!(rows[0].operator, "待分派");
    assert_eq!(rows[1].operator, "张工");
    assert_eq!(rows[0].checked_at, "1970-01-01 08:00");
    assert_eq!(workflow_actions("待接单"), vec![WorkflowAction::Accept, WorkflowAction::Cancel]);
    assert_eq!(workflow_actions("待验收"), vec![WorkflowAction::Verify, WorkflowAction::Return]);
    assert!(workflow_actions("已完成").is_empty());
    assert!(workflow_actions("已取消").is_empty());
    assert_eq!(order_counts(&rows), (1, 1));
    let mut draft = OrderDraft::fresh(&parks(), &factories());
    assert_eq!(draft.park_id, "1");
    assert_eq!(draft.factory_id, "3");
    draft.park_id = String::new();
    assert_eq!(repair_order_input(&draft).unwrap_err(), "请选择所属园区");
}

#[test]
fn qr_labels_carry_the_inspection_link() {
    let url = inspect_url("transformer", 42);
    assert_eq!(url, "https://yz.furong.org/maintenance/inspect/transformer/42");
    let svg = qr_svg(&url).expect("link fits a QR code");
    assert!(svg.starts_with("<?xml"));
    assert_ne!(svg, url);
    let label = qr_print_label("1# 变压器", "T-01", "配电房", &url);
    assert_eq!(label.meta, "T-01 · 配电房");
    assert_eq!(label.svg, Some(svg));
    assert!(can_submit_inspection(false, &["maintenance:inspect".to_string()]));
    assert!(can_submit_inspection(true, &[]));
    assert!(!can_submit_inspection(false, &["other".to_string()]));
}

#[test]
fn inspection_time_of_a_parsed_field_is_its_minute() {
    let t = parse_datetime("2026-07-15T09:30").unwrap();
    assert_eq!(t.to_micros_since_unix_epoch(), 1_784_079_000_000_000);
}

#[test]
fn repair_order_rows_filter_by_status_and_search() {
    let rows = view_rows(&[order("待接单", None), order("已完成", Some("张工"))], &parks(), &factories());
    assert!(repair_order_shown(&rows[0], "全部", ""));
    assert!(repair_order_shown(&rows[0], "待接单", ""));
    assert!(!repair_order_shown(&rows[0], "已完成", ""));
    assert!(repair_order_shown(&rows[1], "已完成", &search_query("  wo-1 ")));
    assert!(repair_order_shown(&rows[0], "全部", &search_query("三号厂房")));
    assert!(repair_order_shown(&rows[0], "全部", &search_query("漏水")));
    assert!(repair_order_shown(&rows[0], "全部", &search_query("1 设备")));
    assert!(!repair_order_shown(&rows[0], "全部", &search_query("电梯")));
    assert!(!repair_order_shown(&rows[0], "已完成", &search_query("wo-1")));
}
