//! Punch locations: the rows of the list and the location form. Coordinates
//! are whole multiples of 10^-15 degrees; reading degrees from text is done
//! by the page, whose outcome the form check takes.
use vstd::prelude::*;
use crate::badge::BadgeVariant;
use crate::text::{
    is_blank, is_blank_str, optional_agrees, optional_text, owned, padded, parse_i32,
    parse_in_range, push_padded, trim, trim_str,
};

verus! {

/// Radius a new punch location starts with, in metres.
pub const DEFAULT_RADIUS_METRES: i32 = 300;

pub const NAME_REQUIRED: &'static str = "请填写打卡点名称";

pub const RADIUS_NOT_INTEGER: &'static str = "允许半径必须是整数米";

/// Title of the dialog.
pub fn form_title(editing: bool) -> (r: &'static str)
    ensures
        r@ == (if editing { "编辑打卡点"@ } else { "新增打卡点"@ }),
{
    if editing {
        "编辑打卡点"
    } else {
        "新增打卡点"
    }
}

/// Label and badge of a location's state.
pub fn location_state(enabled: bool) -> (r: (&'static str, BadgeVariant))
    ensures
        r.0@ == (if enabled { "启用"@ } else { "停用"@ }),
        r.1 == (if enabled { BadgeVariant::Secondary } else { BadgeVariant::Outline }),
{
    if enabled {
        ("启用", BadgeVariant::Secondary)
    } else {
        ("停用", BadgeVariant::Outline)
    }
}

/// `{radius} 米`.
pub fn radius_label(radius_metres: i32) -> (r: String)
    ensures
        r@ == padded(radius_metres as int, 0) + " 米"@,
{
    let mut out = String::new();
    push_padded(&mut out, radius_metres as i64, 0);
    out.append(" 米");
    proof {
        assert(Seq::<char>::empty() + padded(radius_metres as int, 0) =~= padded(radius_metres as int, 0));
    }
    out
}

/// The radius field a form starts with: the stored radius, or the default.
pub fn initial_radius(stored: Option<i32>) -> (r: String)
    ensures
        r@ == padded(
            match stored {
                Some(v) => v as int,
                None => DEFAULT_RADIUS_METRES as int,
            },
            0,
        ),
{
    let v = match stored {
        Some(v) => v,
        None => DEFAULT_RADIUS_METRES,
    };
    let mut out = String::new();
    push_padded(&mut out, v as i64, 0);
    proof {
        assert(Seq::<char>::empty() + padded(v as int, 0) =~= padded(v as int, 0));
    }
    out
}

/// The question asked before a location is deleted.
pub fn delete_description(name: &str) -> (r: String)
    ensures
        r@ == "删除「"@ + name@ + "」后，这个位置不再能打卡。已有的考勤记录不受影响。"@,
{
    let mut out = String::from_str("删除「");
    out.append(name);
    out.append("」后，这个位置不再能打卡。已有的考勤记录不受影响。");
    out
}

/// The fields of the location form, as typed. Longitude and latitude are
/// read by the page's own parser, whose outcomes the check takes.
#[derive(Clone, Debug)]
pub struct LocationForm {
    pub name: String,
    pub address: String,
    pub radius: String,
    pub enabled: bool,
    pub remark: String,
}

/// What the location form submits.
#[derive(Clone, Debug)]
pub struct AttendanceLocationInput {
    pub location_name: String,
    pub address: Option<String>,
    pub longitude_e_15: i64,
    pub latitude_e_15: i64,
    pub radius_metres: i32,
    pub is_enabled: bool,
    pub remark: Option<String>,
}

/// A coordinate outcome with its message taken by view.
pub open spec fn coordinate_view(r: Result<i64, String>) -> Result<i64, Seq<char>> {
    match r {
        Ok(v) => Ok(v),
        Err(e) => Err(e@),
    }
}

/// The first complaint about the form: a blank name, then the longitude's
/// message, the latitude's, and a radius that is no `i32` once trimmed.
pub open spec fn location_form_error(
    f: LocationForm,
    longitude: Result<i64, Seq<char>>,
    latitude: Result<i64, Seq<char>>,
) -> Option<Seq<char>> {
    if is_blank(f.name@) {
        Some(NAME_REQUIRED@)
    } else if longitude is Err {
        Some(longitude->Err_0)
    } else if latitude is Err {
        Some(latitude->Err_0)
    } else if parse_in_range(trim(f.radius@), true, i32::MIN as int, i32::MAX as int) is None {
        Some(RADIUS_NOT_INTEGER@)
    } else {
        None
    }
}

/// Checks the location form, given what the coordinate parser made of the
/// longitude and latitude fields, and builds the record it submits.
pub fn check_location_form(
    f: &LocationForm,
    longitude: Result<i64, String>,
    latitude: Result<i64, String>,
) -> (r: Result<AttendanceLocationInput, String>)
    ensures
        match r {
            Err(e) => location_form_error(*f, coordinate_view(longitude), coordinate_view(latitude))
                == Some(e@),
            Ok(input) => {
                &&& location_form_error(*f, coordinate_view(longitude), coordinate_view(latitude))
                    is None
                &&& input.location_name@ == trim(f.name@)
                &&& optional_agrees(input.address, f.address@)
                &&& longitude == Ok::<i64, String>(input.longitude_e_15)
                &&& latitude == Ok::<i64, String>(input.latitude_e_15)
                &&& parse_in_range(trim(f.radius@), true, i32::MIN as int, i32::MAX as int) == Some(
                    input.radius_metres as int,
                )
                &&& input.is_enabled == f.enabled
                &&& optional_agrees(input.remark, f.remark@)
            },
        },
{
    if is_blank_str(f.name.as_str()) {
        return Err(String::from_str(NAME_REQUIRED));
    }
    let longitude_e_15 = match longitude {
        Ok(v) => v,
        Err(m) => return Err(m),
    };
    let latitude_e_15 = match latitude {
        Ok(v) => v,
        Err(m) => return Err(m),
    };
    let radius_metres = match parse_i32(trim_str(f.radius.as_str())) {
        Some(v) => v,
        None => return Err(String::from_str(RADIUS_NOT_INTEGER)),
    };
    Ok(AttendanceLocationInput {
        location_name: owned(trim_str(f.name.as_str())),
        address: optional_text(f.address.as_str()),
        longitude_e_15,
        latitude_e_15,
        radius_metres,
        is_enabled: f.enabled,
        remark: optional_text(f.remark.as_str()),
    })
}

} // verus!
