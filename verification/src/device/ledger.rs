//! The camera and access-control ledgers: one page shape, two device classes.
use vstd::prelude::*;
use crate::device::model::{
    ACTUATOR_TYPES, CLASS_SENSOR, SENSOR_TYPES, device_type_label, device_type_label_spec,
    factory_label, factory_label_spec, is_bound_id, park_label,
};
use crate::maintenance::model::park_name_spec;
use crate::records::{Factory, Park};
use crate::search::{matches_search, text_matches};
use crate::records::DeviceAsset;
use crate::tally::{count, lemma_count_step, lemma_take_all};
use crate::text::{
    name_texts,
    is_blank, is_blank_str, optional_agrees, optional_text, owned, parse_in_range, parse_u64, str_eq,
    trim, trim_str,
};

verus! {

/// The device types a ledger page registers: the camera page the sensor
/// types, every other class the actuator types.
pub fn types_for(device_class: &str) -> (r: &'static [&'static str])
    ensures
        device_class@ == "sensor"@ ==> r@.len() == 1 && r@[0]@ == "camera"@,
        device_class@ != "sensor"@ ==> r@.len() == 3 && r@[0]@ == "access_controller"@ && r@[1]@
            == "barrier"@ && r@[2]@ == "turnstile"@,
{
    if str_eq(device_class, CLASS_SENSOR) {
        &SENSOR_TYPES
    } else {
        &ACTUATOR_TYPES
    }
}

/// Title of a ledger page.
pub fn page_title(device_class: &str) -> (r: &'static str)
    ensures
        r@ == (if device_class@ == "sensor"@ { "摄像头管理"@ } else { "门禁设备管理"@ }),
{
    if str_eq(device_class, CLASS_SENSOR) {
        "摄像头管理"
    } else {
        "门禁设备管理"
    }
}

/// Subtitle of a ledger page: what a failure of this class affects.
pub fn page_subtitle(device_class: &str) -> (r: &'static str)
    ensures
        r@ == (if device_class@ == "sensor"@ {
            "摄像头属于传感器：故障时影响的是画面采集，不影响人员通行。台账记录安装位置及其对应的平台通道，视频流不进入本系统。"@
        } else {
            "门禁、道闸与闸机属于执行终端：故障时将直接影响人员与车辆通行。本页管理设备本体；通行记录见门禁管理。"@
        }),
{
    if str_eq(device_class, CLASS_SENSOR) {
        "摄像头属于传感器：故障时影响的是画面采集，不影响人员通行。台账记录安装位置及其对应的平台通道，视频流不进入本系统。"
    } else {
        "门禁、道闸与闸机属于执行终端：故障时将直接影响人员与车辆通行。本页管理设备本体；通行记录见门禁管理。"
    }
}

pub open spec fn in_class(c: Seq<char>) -> spec_fn(DeviceAsset) -> bool {
    |d: DeviceAsset| d.device_class@ == c
}

pub open spec fn bound_in_class(c: Seq<char>) -> spec_fn(DeviceAsset) -> bool {
    |d: DeviceAsset| d.device_class@ == c && is_bound_id(d.external_device_id)
}

/// The three figures at the top of a ledger page: devices of the class,
/// how many have a platform device id, and how many do not.
pub fn ledger_counts(devices: &[DeviceAsset], device_class: &str) -> (r: (usize, usize, usize))
    ensures
        r.0 == count(devices@, in_class(device_class@)),
        r.1 == count(devices@, bound_in_class(device_class@)),
        r.2 == r.0 - r.1,
{
    let ghost pc = in_class(device_class@);
    let ghost pb = bound_in_class(device_class@);
    let mut total: usize = 0;
    let mut bound: usize = 0;
    let mut i: usize = 0;
    while i < devices.len()
        invariant
            pc == in_class(device_class@),
            pb == bound_in_class(device_class@),
            0 <= i <= devices@.len(),
            total == count(devices@.take(i as int), pc),
            bound == count(devices@.take(i as int), pb),
            bound <= total <= i,
        decreases devices@.len() - i,
    {
        proof {
            lemma_count_step(devices@, pc, i as int);
            lemma_count_step(devices@, pb, i as int);
        }
        let row = &devices[i];
        if str_eq(row.device_class.as_str(), device_class) {
            total = total + 1;
            let filled = match &row.external_device_id {
                Some(v) => !is_blank_str(v.as_str()),
                None => false,
            };
            if filled {
                bound = bound + 1;
            }
        }
        i = i + 1;
    }
    proof {
        lemma_take_all(devices@);
    }
    (total, bound, total - bound)
}

/// What the ledger search looks through: name, code, location, platform
/// id, park and building.
pub open spec fn device_search_parts(a: DeviceAsset, parks: Seq<Park>, factories: Seq<Factory>) -> Seq<
    Seq<char>,
> {
    seq![
        a.device_name@,
        a.device_code@,
        a.location@,
        match a.external_device_id {
            Some(x) => x@,
            None => Seq::empty(),
        },
        park_name_spec(parks, a.park_id),
        factory_label_spec(factories, a.factory_id),
    ]
}

/// Whether the ledger shows a device for a type filter (a type's name, or
/// `全部`) and a search query (already trimmed and lower-cased).
pub fn device_shown(
    asset: &DeviceAsset,
    type_filter: &str,
    query: &str,
    parks: &[Park],
    factories: &[Factory],
) -> (r: bool)
    ensures
        r == ((type_filter@ == "全部"@ || device_type_label_spec(asset.device_type@) == type_filter@)
            && text_matches(query@, device_search_parts(*asset, parks@, factories@))),
{
    let type_ok = str_eq(type_filter, "全部") || str_eq(device_type_label(asset.device_type.as_str()), type_filter);
    if !type_ok {
        return false;
    }
    let mut parts: Vec<String> = Vec::new();
    parts.push(owned(asset.device_name.as_str()));
    parts.push(owned(asset.device_code.as_str()));
    parts.push(owned(asset.location.as_str()));
    parts.push(
        match &asset.external_device_id {
            Some(x) => owned(x.as_str()),
            None => String::new(),
        },
    );
    parts.push(park_label(parks, asset.park_id));
    parts.push(factory_label(factories, asset.factory_id));
    proof {
        assert(name_texts(parts@) =~= device_search_parts(*asset, parks@, factories@));
    }
    matches_search(query, &parts)
}

/// What the device form submits.
#[derive(Clone, Debug)]
pub struct DeviceAssetInput {
    pub device_type: String,
    pub device_name: String,
    pub device_code: String,
    pub location: String,
    pub vendor: Option<String>,
    pub model: Option<String>,
    pub external_device_id: Option<String>,
    pub commissioned_on: Option<String>,
    pub remark: Option<String>,
    pub factory_id: u64,
    pub park_id: u64,
}

/// The texts of the device form, as typed.
#[derive(Clone, Debug)]
pub struct DeviceAssetForm {
    pub device_type: String,
    pub name: String,
    pub code: String,
    pub location: String,
    pub vendor: String,
    pub model: String,
    pub external_device_id: String,
    pub commissioned_on: String,
    pub remark: String,
    pub park_id: String,
    pub factory_id: String,
}

/// The first complaint about a device form, in the order the form checks:
/// park chosen (a nonzero id), then name, code and location filled in.
pub open spec fn device_form_error(f: DeviceAssetForm) -> Option<Seq<char>> {
    let park = parse_in_range(f.park_id@, false, 0, u64::MAX as int);
    if !(park matches Some(p) && p != 0) {
        Some("请选择所属园区"@)
    } else if is_blank(f.name@) {
        Some("请输入设备名称"@)
    } else if is_blank(f.code@) {
        Some("请输入设备编号"@)
    } else if is_blank(f.location@) {
        Some("请输入位置描述"@)
    } else {
        None
    }
}

/// Checks the device form and builds the submission: texts trimmed, blank
/// optional fields left out, an unreadable building meaning the public area.
pub fn check_device_form(f: &DeviceAssetForm) -> (r: Result<DeviceAssetInput, &'static str>)
    ensures
        match r {
            Err(e) => device_form_error(*f) == Some(e@),
            Ok(input) => {
                &&& device_form_error(*f) is None
                &&& input.device_type@ == f.device_type@
                &&& input.device_name@ == trim(f.name@)
                &&& input.device_code@ == trim(f.code@)
                &&& input.location@ == trim(f.location@)
                &&& optional_agrees(input.vendor, f.vendor@)
                &&& optional_agrees(input.model, f.model@)
                &&& optional_agrees(input.external_device_id, f.external_device_id@)
                &&& optional_agrees(input.commissioned_on, f.commissioned_on@)
                &&& optional_agrees(input.remark, f.remark@)
                &&& Some(input.park_id as int) == parse_in_range(f.park_id@, false, 0, u64::MAX as int)
                &&& input.factory_id as int == match parse_in_range(f.factory_id@, false, 0, u64::MAX as int) {
                    Some(v) => v,
                    None => 0,
                }
            },
        },
{
    let park_id = match parse_u64(f.park_id.as_str()) {
        Some(v) if v != 0 => v,
        _ => return Err("请选择所属园区"),
    };
    let factory_id = match parse_u64(f.factory_id.as_str()) {
        Some(v) => v,
        None => 0,
    };
    if is_blank_str(f.name.as_str()) {
        return Err("请输入设备名称");
    }
    if is_blank_str(f.code.as_str()) {
        return Err("请输入设备编号");
    }
    if is_blank_str(f.location.as_str()) {
        return Err("请输入位置描述");
    }
    Ok(DeviceAssetInput {
        device_type: f.device_type.clone(),
        device_name: owned(trim_str(f.name.as_str())),
        device_code: owned(trim_str(f.code.as_str())),
        location: owned(trim_str(f.location.as_str())),
        vendor: optional_text(f.vendor.as_str()),
        model: optional_text(f.model.as_str()),
        external_device_id: optional_text(f.external_device_id.as_str()),
        commissioned_on: optional_text(f.commissioned_on.as_str()),
        remark: optional_text(f.remark.as_str()),
        factory_id,
        park_id,
    })
}

} // verus!
