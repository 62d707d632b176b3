//! The asset and inspection forms of the transformer, elevator and
//! firefighting ledgers: the order of their checks, their messages and the
//! records they submit.
use vstd::prelude::*;
use crate::maintenance::firefighting::{
    dormitory_floor_with, factory_floor_with, find_dormitory_floor, find_factory_floor,
};
use crate::maintenance::model::{inspection_time, inspection_time_fits, parse_datetime};
use crate::records::{DormitoryFloor, FactoryFloor, FirefightingAsset};
use crate::tally::first_match;
use crate::text::{
    decimal, decimal_string, is_blank, is_blank_str, optional_agrees, optional_text, owned,
    parse_in_range, parse_u64, split, split_char, str_eq, trim, trim_str,
};
use crate::timestamp::Timestamp;

verus! {

pub const ABNORMAL_NOTE_REQUIRED: &'static str = "状态为异常时必须填写异常描述";

pub const FLOOR_REQUIRED: &'static str = "请选择所在楼层";

pub const FACILITY_NAME_REQUIRED: &'static str = "请输入设施编号或名称";

pub const FLOOR_POSITION_REQUIRED: &'static str = "请输入楼层内位置";

pub const EXTINGUISHER_EXPIRY_REQUIRED: &'static str = "灭火器必须填写有效期至";

pub const PARK_REQUIRED: &'static str = "请选择所属园区";

pub const FACTORY_REQUIRED: &'static str = "请选择所在厂房";

pub const DEVICE_NAME_REQUIRED: &'static str = "请输入设备名称";

pub const LOCATION_REQUIRED: &'static str = "请输入位置描述";

pub const SPECIFICATIONS_REQUIRED: &'static str = "请输入规格型号";

// ---------------------------------------------------------------------------
// Inspections
// ---------------------------------------------------------------------------

/// The texts of an inspection form, as typed.
#[derive(Clone, Debug)]
pub struct InspectionForm {
    pub status: String,
    pub abnormal_note: String,
    pub check_time: String,
    pub remark: String,
}

/// What an inspection form submits.
#[derive(Clone, Debug)]
pub struct InspectionInput {
    pub asset_id: u64,
    pub status: String,
    pub abnormal_note: Option<String>,
    pub check_time: Option<Timestamp>,
    pub remark: Option<String>,
}

/// The first complaint about an inspection form: an abnormal status without
/// a description, then an unreadable inspection time.
pub open spec fn inspection_form_error(f: InspectionForm) -> Option<Seq<char>> {
    if f.status@ == "异常"@ && is_blank(f.abnormal_note@) {
        Some(ABNORMAL_NOTE_REQUIRED@)
    } else if inspection_time(f.check_time@) is None {
        Some("检查时间格式不正确"@)
    } else {
        None
    }
}

/// Checks an inspection form and builds the record it submits for the
/// asset `asset_id`.
pub fn check_inspection_form(asset_id: u64, f: &InspectionForm) -> (r: Result<InspectionInput, String>)
    requires
        !(f.status@ == "异常"@ && is_blank(f.abnormal_note@)) ==> inspection_time_fits(f.check_time@),
    ensures
        match r {
            Err(e) => inspection_form_error(*f) == Some(e@),
            Ok(input) => {
                &&& inspection_form_error(*f) is None
                &&& input.asset_id == asset_id
                &&& input.status@ == f.status@
                &&& optional_agrees(input.abnormal_note, f.abnormal_note@)
                &&& input.check_time matches Some(t) && inspection_time(f.check_time@) == Some(
                    t.micros as int,
                )
                &&& optional_agrees(input.remark, f.remark@)
            },
        },
{
    let abnormal = str_eq(f.status.as_str(), "异常");
    if abnormal && is_blank_str(f.abnormal_note.as_str()) {
        return Err(String::from_str(ABNORMAL_NOTE_REQUIRED));
    }
    let check_time = match parse_datetime(f.check_time.as_str()) {
        Ok(t) => t,
        Err(m) => return Err(m),
    };
    Ok(InspectionInput {
        asset_id,
        status: owned(f.status.as_str()),
        abnormal_note: optional_text(f.abnormal_note.as_str()),
        check_time: Some(check_time),
        remark: optional_text(f.remark.as_str()),
    })
}

/// The date half of a `date T clock` field: the text before the first `T`.
pub fn check_date_part(check_time: &str) -> (r: String)
    ensures
        r@ == split(check_time@, 'T')[0],
{
    let parts = split_char(check_time, 'T');
    owned(parts[0])
}

/// The clock half of a `date T clock` field: the text between the first and
/// second `T`, empty when there is none.
pub fn check_clock_part(check_time: &str) -> (r: String)
    ensures
        r@ == (if split(check_time@, 'T').len() > 1 {
            split(check_time@, 'T')[1]
        } else {
            Seq::<char>::empty()
        }),
{
    let parts = split_char(check_time, 'T');
    if parts.len() > 1 {
        owned(parts[1])
    } else {
        String::new()
    }
}

/// `{date}T{clock}`.
pub fn join_check_time(date: &str, clock: &str) -> (r: String)
    ensures
        r@ == date@ + seq!['T'] + clock@,
{
    let mut out = owned(date);
    proof {
        reveal_strlit("T");
    }
    out.append("T");
    out.append(clock);
    out
}

// ---------------------------------------------------------------------------
// Firefighting assets
// ---------------------------------------------------------------------------

/// The texts of the firefighting asset form, as typed.
#[derive(Clone, Debug)]
pub struct FirefightingAssetForm {
    pub building_kind: String,
    pub floor_id: String,
    pub facility_type: String,
    pub name: String,
    pub location: String,
    pub specifications: String,
    pub expiry_on: String,
    pub remark: String,
}

/// What the firefighting asset form submits: the floor goes to the factory
/// side or the dormitory side, the other side is 0.
#[derive(Clone, Debug)]
pub struct FirefightingAssetInput {
    pub facility_type: String,
    pub facility_name: String,
    pub location: String,
    pub specifications: Option<String>,
    pub expiry_on: Option<String>,
    pub remark: Option<String>,
    pub factory_floor_id: u64,
    pub dormitory_floor_id: u64,
}

/// The first complaint about a firefighting asset form: no floor chosen,
/// then no name, no position, and an extinguisher without an expiry date.
pub open spec fn firefighting_form_error(f: FirefightingAssetForm) -> Option<Seq<char>> {
    if !(parse_in_range(f.floor_id@, false, 0, u64::MAX as int) matches Some(v) && v != 0) {
        Some(FLOOR_REQUIRED@)
    } else if is_blank(f.name@) {
        Some(FACILITY_NAME_REQUIRED@)
    } else if is_blank(f.location@) {
        Some(FLOOR_POSITION_REQUIRED@)
    } else if f.facility_type@ == "灭火器"@ && is_blank(f.expiry_on@) {
        Some(EXTINGUISHER_EXPIRY_REQUIRED@)
    } else {
        None
    }
}

/// Checks the firefighting asset form and builds the record it submits.
pub fn check_firefighting_form(f: &FirefightingAssetForm) -> (r: Result<
    FirefightingAssetInput,
    &'static str,
>)
    ensures
        match r {
            Err(e) => firefighting_form_error(*f) == Some(e@),
            Ok(input) => {
                let floor = parse_in_range(f.floor_id@, false, 0, u64::MAX as int)->Some_0;
                &&& firefighting_form_error(*f) is None
                &&& input.facility_type@ == f.facility_type@
                &&& input.facility_name@ == trim(f.name@)
                &&& input.location@ == trim(f.location@)
                &&& optional_agrees(input.specifications, f.specifications@)
                &&& optional_agrees(input.expiry_on, f.expiry_on@)
                &&& optional_agrees(input.remark, f.remark@)
                &&& if f.building_kind@ == "dormitory"@ {
                    input.factory_floor_id == 0 && input.dormitory_floor_id == floor
                } else {
                    input.factory_floor_id == floor && input.dormitory_floor_id == 0
                }
            },
        },
{
    let floor = match parse_u64(f.floor_id.as_str()) {
        Some(v) if v != 0 => v,
        _ => return Err(FLOOR_REQUIRED),
    };
    let dormitory = str_eq(f.building_kind.as_str(), "dormitory");
    let (factory_floor_id, dormitory_floor_id) = if dormitory {
        (0, floor)
    } else {
        (floor, 0)
    };
    if is_blank_str(f.name.as_str()) {
        return Err(FACILITY_NAME_REQUIRED);
    }
    if is_blank_str(f.location.as_str()) {
        return Err(FLOOR_POSITION_REQUIRED);
    }
    let extinguisher = str_eq(f.facility_type.as_str(), "灭火器");
    if extinguisher && is_blank_str(f.expiry_on.as_str()) {
        return Err(EXTINGUISHER_EXPIRY_REQUIRED);
    }
    Ok(FirefightingAssetInput {
        facility_type: owned(f.facility_type.as_str()),
        facility_name: owned(trim_str(f.name.as_str())),
        location: owned(trim_str(f.location.as_str())),
        specifications: optional_text(f.specifications.as_str()),
        expiry_on: optional_text(f.expiry_on.as_str()),
        remark: optional_text(f.remark.as_str()),
        factory_floor_id,
        dormitory_floor_id,
    })
}

/// The building kind, building and floor an edit form starts from: for an
/// asset, the side its floor is on, that floor's building (empty when the
/// floor is not listed) and the floor; for a new asset, the factory side and
/// nothing chosen.
pub open spec fn initial_location_spec(
    asset: Option<FirefightingAsset>,
    factory_floors: Seq<FactoryFloor>,
    dormitory_floors: Seq<DormitoryFloor>,
) -> (Seq<char>, Seq<char>, Seq<char>) {
    match asset {
        None => ("factory"@, Seq::empty(), Seq::empty()),
        Some(a) => {
            let kind = if a.dormitory_floor_id != 0 { "dormitory"@ } else { "factory"@ };
            let building = if a.factory_floor_id != 0 {
                match first_match(factory_floors, factory_floor_with(a.factory_floor_id)) {
                    Some(i) => decimal(factory_floors[i].factory_id as nat),
                    None => Seq::empty(),
                }
            } else {
                match first_match(dormitory_floors, dormitory_floor_with(a.dormitory_floor_id)) {
                    Some(i) => decimal(dormitory_floors[i].dormitory_id as nat),
                    None => Seq::empty(),
                }
            };
            let floor = if a.factory_floor_id != 0 {
                decimal(a.factory_floor_id as nat)
            } else {
                decimal(a.dormitory_floor_id as nat)
            };
            (kind, building, floor)
        },
    }
}

/// `initial_location_spec` as texts for the form.
pub fn initial_location(
    asset: &Option<FirefightingAsset>,
    factory_floors: &[FactoryFloor],
    dormitory_floors: &[DormitoryFloor],
) -> (r: (String, String, String))
    ensures
        (r.0@, r.1@, r.2@) == initial_location_spec(*asset, factory_floors@, dormitory_floors@),
{
    match asset {
        None => (String::from_str("factory"), String::new(), String::new()),
        Some(a) => {
            let kind = if a.dormitory_floor_id != 0 {
                String::from_str("dormitory")
            } else {
                String::from_str("factory")
            };
            let building = if a.factory_floor_id != 0 {
                match find_factory_floor(factory_floors, a.factory_floor_id) {
                    Some(i) => decimal_string(factory_floors[i].factory_id),
                    None => String::new(),
                }
            } else {
                match find_dormitory_floor(dormitory_floors, a.dormitory_floor_id) {
                    Some(i) => decimal_string(dormitory_floors[i].dormitory_id),
                    None => String::new(),
                }
            };
            let floor = if a.factory_floor_id != 0 {
                decimal_string(a.factory_floor_id)
            } else {
                decimal_string(a.dormitory_floor_id)
            };
            (kind, building, floor)
        },
    }
}

// ---------------------------------------------------------------------------
// Transformers
// ---------------------------------------------------------------------------

/// The texts of the transformer form, as typed. The capacity field is read
/// by its own parser, whose outcome the check takes.
#[derive(Clone, Debug)]
pub struct TransformerAssetForm {
    pub park_id: String,
    pub factory_id: String,
    pub name: String,
    pub location: String,
    pub specifications: String,
    pub commissioned_on: String,
    pub remark: String,
}

/// What the transformer form submits.
#[derive(Clone, Debug)]
pub struct TransformerAssetInput {
    pub transformer_name: String,
    pub location: String,
    pub specifications: String,
    pub capacity_centi_kw: u64,
    pub commissioned_on: Option<String>,
    pub remark: Option<String>,
    pub factory_id: u64,
    pub park_id: u64,
}

/// The first complaint about a transformer form whose capacity field read
/// as `capacity`: no park, then no name, location or model, then the
/// capacity parser's message.
pub open spec fn transformer_form_error(
    f: TransformerAssetForm,
    capacity: Result<u64, Seq<char>>,
) -> Option<Seq<char>> {
    if !(parse_in_range(f.park_id@, false, 0, u64::MAX as int) matches Some(v) && v != 0) {
        Some(PARK_REQUIRED@)
    } else if is_blank(f.name@) {
        Some(DEVICE_NAME_REQUIRED@)
    } else if is_blank(f.location@) {
        Some(LOCATION_REQUIRED@)
    } else if is_blank(f.specifications@) {
        Some(SPECIFICATIONS_REQUIRED@)
    } else if capacity is Err {
        Some(capacity->Err_0)
    } else {
        None
    }
}

/// A parser outcome with its message taken by view.
pub open spec fn outcome_view(r: Result<u64, String>) -> Result<u64, Seq<char>> {
    match r {
        Ok(v) => Ok(v),
        Err(e) => Err(e@),
    }
}

/// Checks the transformer form, given what the capacity parser made of its
/// capacity field, and builds the record it submits.
pub fn check_transformer_form(f: &TransformerAssetForm, capacity: Result<u64, String>) -> (r: Result<
    TransformerAssetInput,
    String,
>)
    ensures
        match r {
            Err(e) => transformer_form_error(*f, outcome_view(capacity)) == Some(e@),
            Ok(input) => {
                &&& transformer_form_error(*f, outcome_view(capacity)) is None
                &&& input.transformer_name@ == trim(f.name@)
                &&& input.location@ == trim(f.location@)
                &&& input.specifications@ == trim(f.specifications@)
                &&& capacity == Ok::<u64, String>(input.capacity_centi_kw)
                &&& optional_agrees(input.commissioned_on, f.commissioned_on@)
                &&& optional_agrees(input.remark, f.remark@)
                &&& Some(input.park_id as int) == parse_in_range(f.park_id@, false, 0, u64::MAX as int)
                &&& input.factory_id as int == match parse_in_range(
                    f.factory_id@,
                    false,
                    0,
                    u64::MAX as int,
                ) {
                    Some(v) => v,
                    None => 0,
                }
            },
        },
{
    let park_id = match parse_u64(f.park_id.as_str()) {
        Some(v) if v != 0 => v,
        _ => return Err(String::from_str(PARK_REQUIRED)),
    };
    let factory_id = match parse_u64(f.factory_id.as_str()) {
        Some(v) => v,
        None => 0,
    };
    if is_blank_str(f.name.as_str()) {
        return Err(String::from_str(DEVICE_NAME_REQUIRED));
    }
    if is_blank_str(f.location.as_str()) {
        return Err(String::from_str(LOCATION_REQUIRED));
    }
    if is_blank_str(f.specifications.as_str()) {
        return Err(String::from_str(SPECIFICATIONS_REQUIRED));
    }
    let capacity_centi_kw = match capacity {
        Ok(v) => v,
        Err(m) => return Err(m),
    };
    Ok(TransformerAssetInput {
        transformer_name: owned(trim_str(f.name.as_str())),
        location: owned(trim_str(f.location.as_str())),
        specifications: owned(trim_str(f.specifications.as_str())),
        capacity_centi_kw,
        commissioned_on: optional_text(f.commissioned_on.as_str()),
        remark: optional_text(f.remark.as_str()),
        factory_id,
        park_id,
    })
}

// ---------------------------------------------------------------------------
// Elevators
// ---------------------------------------------------------------------------

/// The texts of the elevator form, as typed. The load field is read by its
/// own parser, whose outcome the check takes.
#[derive(Clone, Debug)]
pub struct ElevatorAssetForm {
    pub factory_id: String,
    pub name: String,
    pub location: String,
    pub size: String,
    pub production_date: String,
    pub remark: String,
}

/// What the elevator form submits.
#[derive(Clone, Debug)]
pub struct ElevatorAssetInput {
    pub elevator_name: String,
    pub location: String,
    pub size: Option<String>,
    pub load_capacity_centi_kg: u64,
    pub production_date: Option<String>,
    pub remark: Option<String>,
    pub factory_id: u64,
}

/// The first complaint about an elevator form whose load field read as
/// `load`: no factory, then no name or location, then the load parser's
/// message.
pub open spec fn elevator_form_error(f: ElevatorAssetForm, load: Result<u64, Seq<char>>) -> Option<
    Seq<char>,
> {
    if !(parse_in_range(f.factory_id@, false, 0, u64::MAX as int) matches Some(v) && v != 0) {
        Some(FACTORY_REQUIRED@)
    } else if is_blank(f.name@) {
        Some(DEVICE_NAME_REQUIRED@)
    } else if is_blank(f.location@) {
        Some(LOCATION_REQUIRED@)
    } else if load is Err {
        Some(load->Err_0)
    } else {
        None
    }
}

/// Checks the elevator form, given what the load parser made of its load
/// field, and builds the record it submits.
pub fn check_elevator_form(f: &ElevatorAssetForm, load: Result<u64, String>) -> (r: Result<
    ElevatorAssetInput,
    String,
>)
    ensures
        match r {
            Err(e) => elevator_form_error(*f, outcome_view(load)) == Some(e@),
            Ok(input) => {
                &&& elevator_form_error(*f, outcome_view(load)) is None
                &&& input.elevator_name@ == trim(f.name@)
                &&& input.location@ == trim(f.location@)
                &&& optional_agrees(input.size, f.size@)
                &&& load == Ok::<u64, String>(input.load_capacity_centi_kg)
                &&& optional_agrees(input.production_date, f.production_date@)
                &&& optional_agrees(input.remark, f.remark@)
                &&& Some(input.factory_id as int) == parse_in_range(
                    f.factory_id@,
                    false,
                    0,
                    u64::MAX as int,
                )
            },
        },
{
    let factory_id = match parse_u64(f.factory_id.as_str()) {
        Some(v) if v != 0 => v,
        _ => return Err(String::from_str(FACTORY_REQUIRED)),
    };
    if is_blank_str(f.name.as_str()) {
        return Err(String::from_str(DEVICE_NAME_REQUIRED));
    }
    if is_blank_str(f.location.as_str()) {
        return Err(String::from_str(LOCATION_REQUIRED));
    }
    let load_capacity_centi_kg = match load {
        Ok(v) => v,
        Err(m) => return Err(m),
    };
    Ok(ElevatorAssetInput {
        elevator_name: owned(trim_str(f.name.as_str())),
        location: owned(trim_str(f.location.as_str())),
        size: optional_text(f.size.as_str()),
        load_capacity_centi_kg,
        production_date: optional_text(f.production_date.as_str()),
        remark: optional_text(f.remark.as_str()),
        factory_id,
    })
}

} // verus!
