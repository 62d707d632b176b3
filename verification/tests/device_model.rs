use yizu_pages::badge::BadgeVariant;
use yizu_pages::device::gateway::{
    check_gateway_form, connection_age, gateway_counts, registration_texts, version_label,
    EdgeGateway, GatewayForm,
};
use yizu_pages::device::ledger::{
    check_device_form, device_shown, ledger_counts, page_subtitle, page_title, types_for,
    DeviceAssetForm,
};
use yizu_pages::device::model::{
    class_label, device_type_label, elapsed_label, factory_label, health_label,
    health_needs_attention, health_variant, is_platform_bound, park_label, summarize_devices,
    DeviceTypeRow, ACTUATOR_TYPES, CLASS_ACTUATOR, CLASS_SENSOR, HEALTH_CRITICAL, HEALTH_NORMAL,
    HEALTH_WARNING, SENSOR_TYPES,
};
use yizu_pages::records::{DeviceAsset, Factory, Park, UtilityMeter};
use yizu_pages::timestamp::Timestamp;

fn device(device_type: &str, device_class: &str, external: Option<&str>) -> DeviceAsset {
    DeviceAsset {
        asset_id: 1,
        park_id: 1,
        factory_id: 0,
        device_class: device_class.to_string(),
        device_type: device_type.to_string(),
        device_name: "北门".to_string(),
        device_code: "CAM-01".to_string(),
        location: "北门岗亭".to_string(),
        external_device_id: external.map(str::to_string),
    }
}

fn meter(is_electric: bool, external: Option<&str>) -> UtilityMeter {
    UtilityMeter {
        meter_id: 1,
        is_electric,
        factory_floor_id: 0,
        dormitory_floor_id: 0,
        external_device_id: external.map(str::to_string),
    }
}

#[test]
fn cameras_go_to_sensors_and_barriers_to_actuators() {
    let summary = summarize_devices(
        &[
            device("camera", CLASS_SENSOR, None),
            device("barrier", CLASS_ACTUATOR, None),
        ],
        &[],
    );
    assert_eq!(summary.sensor_total(), 1);
    assert_eq!(summary.actuator_total(), 1);
}

#[test]
fn meters_count_as_sensors_without_device_rows() {
    let summary = summarize_devices(&[], &[meter(true, None), meter(false, None)]);
    assert_eq!(summary.sensor_total(), 2, "电表水表都该算进传感器");
    assert_eq!(summary.actuator_total(), 0);
}

#[test]
fn bound_share_counts_only_filled_platform_ids() {
    let summary = summarize_devices(
        &[
            device("camera", CLASS_SENSOR, Some("A1")),
            device("camera", CLASS_SENSOR, None),
            device("barrier", CLASS_ACTUATOR, Some("   ")),
            device("barrier", CLASS_ACTUATOR, Some("B1")),
        ],
        &[],
    );
    assert_eq!(summary.total(), 4);
    assert_eq!(summary.bound_total(), 2);
    assert_eq!(summary.bound_percent(), 50);
}

#[test]
fn no_devices_means_zero_percent_not_a_crash() {
    let summary = summarize_devices(&[], &[]);
    assert_eq!(summary.total(), 0);
    assert_eq!(summary.bound_percent(), 0);
}

#[test]
fn unbound_is_total_minus_bound() {
    let row = DeviceTypeRow {
        label: "摄像头",
        total: 5,
        bound: 2,
        route: None,
    };
    assert_eq!(row.unbound(), 3);
}

#[test]
fn classes_and_types_have_names() {
    assert_eq!(class_label(CLASS_SENSOR), "传感器");
    assert_eq!(class_label(CLASS_ACTUATOR), "执行终端");
    assert_eq!(device_type_label("camera"), "摄像头");
    assert_eq!(device_type_label("turnstile"), "人行闸机");
    assert_eq!(device_type_label("drone"), "未知类型");
    assert_eq!(class_label("说不清"), "未分类");
}

#[test]
fn public_area_devices_read_as_park_public_area() {
    assert_eq!(factory_label(&[], 0), "园区公共区域");
    assert_eq!(factory_label(&[], 7), "厂房 #7");
}

#[test]
fn health_levels_have_names_and_unreported_is_not_red() {
    assert_eq!(health_label(HEALTH_NORMAL), "正常");
    assert_eq!(health_label(HEALTH_CRITICAL), "已影响工作");
    assert_eq!(health_label("unknown"), "尚未上报");
    assert!(matches!(health_variant("unknown"), BadgeVariant::Outline));
    assert!(matches!(health_variant(HEALTH_CRITICAL), BadgeVariant::Destructive));
}

#[test]
fn only_warning_and_critical_need_attention() {
    assert!(!health_needs_attention(HEALTH_NORMAL));
    assert!(!health_needs_attention("unknown"));
    assert!(health_needs_attention(HEALTH_WARNING));
    assert!(health_needs_attention(HEALTH_CRITICAL));
}

#[test]
fn elapsed_label_switches_units() {
    let now = 1_000_000_000_i64;
    assert_eq!(elapsed_label(now, now), "刚刚");
    assert_eq!(elapsed_label(now - 90 * 1_000_000, now), "1 分钟");
    assert_eq!(elapsed_label(now - 7_200 * 1_000_000, now), "2 小时");
    assert_eq!(elapsed_label(now - 3 * 86_400 * 1_000_000, now), "3 天");
    assert_eq!(elapsed_label(now + 5_000_000, now), "刚刚");
}

#[test]
fn camera_page_lists_sensors_and_access_page_actuators() {
    assert_eq!(types_for(CLASS_SENSOR), &SENSOR_TYPES);
    assert_eq!(types_for(CLASS_ACTUATOR), &ACTUATOR_TYPES);
    for sensor in SENSOR_TYPES {
        assert!(!ACTUATOR_TYPES.contains(&sensor), "{sensor} 出现在两边");
    }
}

#[test]
fn the_two_ledger_pages_have_different_titles() {
    assert_eq!(page_title(CLASS_SENSOR), "摄像头管理");
    assert_eq!(page_title(CLASS_ACTUATOR), "门禁设备管理");
    assert_ne!(page_subtitle(CLASS_SENSOR), page_subtitle(CLASS_ACTUATOR));
}

#[test]
fn platform_ids_must_not_be_blank() {
    assert!(is_platform_bound(Some("A1")));
    assert!(!is_platform_bound(Some("  ")));
    assert!(!is_platform_bound(None));
}

#[test]
fn ledger_counts_only_the_page_class() {
    let devices = vec![
        device("camera", CLASS_SENSOR, Some("A1")),
        device("camera", CLASS_SENSOR, None),
        device("barrier", CLASS_ACTUATOR, Some("B1")),
    ];
    assert_eq!(ledger_counts(&devices, CLASS_SENSOR), (2, 1, 1));
    assert_eq!(ledger_counts(&devices, CLASS_ACTUATOR), (1, 1, 0));
}

#[test]
fn ledger_search_looks_through_names_and_places() {
    let parks = vec![Park { park_id: 1, park_name: "芙蓉园".to_string() }];
    let factories: Vec<Factory> = vec![];
    let cam = device("camera", CLASS_SENSOR, Some("A1"));
    assert!(device_shown(&cam, "全部", "", &parks, &factories));
    assert!(device_shown(&cam, "摄像头", "cam-01", &parks, &factories));
    assert!(device_shown(&cam, "全部", "芙蓉", &parks, &factories));
    assert!(device_shown(&cam, "全部", "公共区域", &parks, &factories));
    assert!(!device_shown(&cam, "道闸", "", &parks, &factories));
    assert!(!device_shown(&cam, "全部", "南门", &parks, &factories));
    assert_eq!(park_label(&parks, 9), "园区 #9");
}

#[test]
fn device_form_checks_in_order() {
    let mut form = DeviceAssetForm {
        device_type: "camera".to_string(),
        name: " 北门 ".to_string(),
        code: "CAM-01".to_string(),
        location: "岗亭".to_string(),
        vendor: "  ".to_string(),
        model: "X1".to_string(),
        external_device_id: String::new(),
        commissioned_on: String::new(),
        remark: String::new(),
        park_id: "0".to_string(),
        factory_id: "abc".to_string(),
    };
    assert_eq!(check_device_form(&form).unwrap_err(), "请选择所属园区");
    form.park_id = "2".to_string();
    let input = check_device_form(&form).unwrap();
    assert_eq!(input.device_name, "北门");
    assert_eq!(input.vendor, None);
    assert_eq!(input.model, Some("X1".to_string()));
    assert_eq!(input.factory_id, 0);
    assert_eq!(input.park_id, 2);
    form.code = " ".to_string();
    assert_eq!(check_device_form(&form).unwrap_err(), "请输入设备编号");
}

fn gateway(online: bool, health: &str, code: Option<&str>) -> EdgeGateway {
    EdgeGateway {
        gateway_id: 1,
        park_id: 1,
        gateway_name: "一号机".to_string(),
        agent_version: None,
        is_online: online,
        status_changed_at: Timestamp::from_micros_since_unix_epoch(0),
        health_level: health.to_string(),
        registration_code: code.map(str::to_string),
    }
}

#[test]
fn gateways_tally_and_rows() {
    let rows = vec![
        gateway(true, HEALTH_NORMAL, None),
        gateway(false, HEALTH_WARNING, Some("ABCD")),
        gateway(true, HEALTH_CRITICAL, None),
    ];
    assert_eq!(gateway_counts(&rows), (2, 2));
    assert_eq!(version_label(&rows[0]), "尚未装机");
    let mut installed = gateway(true, HEALTH_NORMAL, None);
    installed.agent_version = Some("1.2.0".to_string());
    assert_eq!(version_label(&installed), "程序版本 1.2.0");
    assert_eq!(connection_age(&rows[0], 3 * 3_600 * 1_000_000), "已 3 小时");
    assert_eq!(registration_texts(&rows[1]), ("ABCD".to_string(), "待装机，请使用此码激活"));
    assert_eq!(registration_texts(&rows[0]).0, "已激活");
}

#[test]
fn gateway_form_needs_park_and_name() {
    let mut form = GatewayForm { park_id: String::new(), name: "  ".to_string(), remark: " 备用 ".to_string() };
    assert_eq!(check_gateway_form(&form).unwrap_err(), "请选择所属园区");
    form.park_id = "3".to_string();
    assert_eq!(check_gateway_form(&form).unwrap_err(), "请输入设备名称");
    form.name = " 一号机 ".to_string();
    let input = check_gateway_form(&form).unwrap();
    assert_eq!((input.park_id, input.gateway_name.as_str()), (3, "一号机"));
    assert_eq!(input.remark, Some("备用".to_string()));
}
