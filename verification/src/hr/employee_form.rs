//! The employee file form: the order of its checks, its messages, and the
//! record it submits.
use vstd::prelude::*;
use crate::hr::model::{parse_date, parse_date_spec, parse_time, parse_time_spec};
use crate::login::{is_digit_run, is_phone_number};
use crate::text::{
    is_blank, is_blank_str, optional_agrees, optional_text, owned, parse_i32,
    parse_in_range, parse_u64, trim, trim_str,
};
use crate::timestamp::Timestamp;

verus! {

pub const NAME_TOO_SHORT: &'static str = "姓名至少需要 2 个字符";

pub const PHONE_REQUIRED: &'static str = "请输入 11 位手机号码";

pub const AGE_OUT_OF_RANGE: &'static str = "年龄必须在 0 到 150 之间";

pub const LEAVE_DATE_REQUIRED: &'static str = "离职员工必须填写离职日期";

/// The texts of the employee form, as typed.
#[derive(Clone, Debug)]
pub struct EmployeeForm {
    pub name: String,
    pub gender: String,
    pub phone: String,
    pub user_id: String,
    pub age: String,
    pub id_number: String,
    pub department: String,
    pub education: String,
    pub hire_date: String,
    pub resigned: bool,
    pub leave_date: String,
    pub address: String,
    pub check_in: String,
    pub check_out: String,
    pub remark: String,
}

/// What the employee form submits.
#[derive(Clone, Debug)]
pub struct EmployeeInput {
    pub name: String,
    pub gender: String,
    pub phone: String,
    pub user_id: Option<u64>,
    pub age: Option<i32>,
    pub id_number: Option<String>,
    pub address: Option<String>,
    pub education: Option<String>,
    pub department: Option<String>,
    pub hire_date: Option<Timestamp>,
    pub leave_date: Option<Timestamp>,
    pub remark: Option<String>,
    pub is_resigned: bool,
    pub check_in_seconds: Option<u32>,
    pub check_out_seconds: Option<u32>,
}

/// Title of the dialog.
pub fn form_title(editing: bool) -> (r: &'static str)
    ensures
        r@ == (if editing { "编辑员工档案"@ } else { "新增员工档案"@ }),
{
    if editing {
        "编辑员工档案"
    } else {
        "新增员工档案"
    }
}

/// The age field read as an `i32` and within `0..=150`.
pub open spec fn age_ok(s: Seq<char>) -> bool {
    parse_in_range(s, true, i32::MIN as int, i32::MAX as int) matches Some(v) && 0 <= v <= 150
}

/// The first complaint about the form, in the order the form checks: name,
/// phone, age, hire date, leave date (required once resigned), check-in and
/// check-out times. The date and time messages are those of their parsers.
pub open spec fn employee_form_error(f: EmployeeForm) -> Option<Seq<char>> {
    if trim(f.name@).len() < 2 {
        Some(NAME_TOO_SHORT@)
    } else if !is_phone_number(trim(f.phone@)) {
        Some(PHONE_REQUIRED@)
    } else if !is_blank(f.age@) && !age_ok(f.age@) {
        Some(AGE_OUT_OF_RANGE@)
    } else if f.hire_date@.len() > 0 && parse_date_spec(f.hire_date@) is Err {
        Some(parse_date_spec(f.hire_date@)->Err_0)
    } else if f.resigned && f.leave_date@.len() == 0 {
        Some(LEAVE_DATE_REQUIRED@)
    } else if f.resigned && parse_date_spec(f.leave_date@) is Err {
        Some(parse_date_spec(f.leave_date@)->Err_0)
    } else if parse_time_spec(f.check_in@) is Err {
        Some(parse_time_spec(f.check_in@)->Err_0)
    } else if parse_time_spec(f.check_out@) is Err {
        Some(parse_time_spec(f.check_out@)->Err_0)
    } else {
        None
    }
}

/// An optional date field of the submission: nothing for an empty field,
/// else the instant its parser gives.
pub open spec fn date_agrees(r: Option<Timestamp>, s: Seq<char>) -> bool {
    if s.len() == 0 {
        r is None
    } else {
        r matches Some(t) && parse_date_spec(s) == Ok::<int, Seq<char>>(t.micros as int)
    }
}

/// An optional time field of the submission: what its parser gives.
pub open spec fn time_agrees(r: Option<u32>, s: Seq<char>) -> bool {
    match (r, parse_time_spec(s)) {
        (Some(v), Ok(Some(w))) => v == w,
        (None, Ok(None)) => true,
        _ => false,
    }
}

/// Checks the employee form and builds the record it submits: name and
/// phone trimmed, blank optional texts left out, an unreadable account id
/// meaning no account, the leave date only for a resigned employee.
pub fn check_employee_form(f: &EmployeeForm) -> (r: Result<EmployeeInput, String>)
    ensures
        match r {
            Err(e) => employee_form_error(*f) == Some(e@),
            Ok(input) => {
                &&& employee_form_error(*f) is None
                &&& input.name@ == trim(f.name@)
                &&& input.gender@ == f.gender@
                &&& input.phone@ == trim(f.phone@)
                &&& match (input.user_id, parse_in_range(f.user_id@, false, 0, u64::MAX as int)) {
                    (Some(a), Some(b)) => a == b,
                    (None, None) => true,
                    _ => false,
                }
                &&& if is_blank(f.age@) {
                    input.age is None
                } else {
                    input.age matches Some(a) && parse_in_range(
                        f.age@,
                        true,
                        i32::MIN as int,
                        i32::MAX as int,
                    ) == Some(a as int)
                }
                &&& optional_agrees(input.id_number, f.id_number@)
                &&& optional_agrees(input.address, f.address@)
                &&& optional_agrees(input.education, f.education@)
                &&& optional_agrees(input.department, f.department@)
                &&& optional_agrees(input.remark, f.remark@)
                &&& date_agrees(input.hire_date, f.hire_date@)
                &&& if f.resigned {
                    date_agrees(input.leave_date, f.leave_date@)
                } else {
                    input.leave_date is None
                }
                &&& input.is_resigned == f.resigned
                &&& time_agrees(input.check_in_seconds, f.check_in@)
                &&& time_agrees(input.check_out_seconds, f.check_out@)
            },
        },
{
    let name = trim_str(f.name.as_str());
    if name.unicode_len() < 2 {
        return Err(String::from_str(NAME_TOO_SHORT));
    }
    let phone = trim_str(f.phone.as_str());
    if !is_digit_run(phone, 11) {
        return Err(String::from_str(PHONE_REQUIRED));
    }
    let age = if is_blank_str(f.age.as_str()) {
        None
    } else {
        match parse_i32(f.age.as_str()) {
            Some(v) if 0 <= v && v <= 150 => Some(v),
            _ => return Err(String::from_str(AGE_OUT_OF_RANGE)),
        }
    };
    let hire_date = if f.hire_date.as_str().unicode_len() == 0 {
        None
    } else {
        match parse_date(f.hire_date.as_str()) {
            Ok(t) => Some(t),
            Err(m) => return Err(m),
        }
    };
    let leave_date = if f.resigned {
        if f.leave_date.as_str().unicode_len() == 0 {
            return Err(String::from_str(LEAVE_DATE_REQUIRED));
        }
        match parse_date(f.leave_date.as_str()) {
            Ok(t) => Some(t),
            Err(m) => return Err(m),
        }
    } else {
        None
    };
    let check_in_seconds = match parse_time(f.check_in.as_str()) {
        Ok(v) => v,
        Err(m) => return Err(m),
    };
    let check_out_seconds = match parse_time(f.check_out.as_str()) {
        Ok(v) => v,
        Err(m) => return Err(m),
    };
    Ok(EmployeeInput {
        name: owned(name),
        gender: owned(f.gender.as_str()),
        phone: owned(phone),
        user_id: parse_u64(f.user_id.as_str()),
        age,
        id_number: optional_text(f.id_number.as_str()),
        address: optional_text(f.address.as_str()),
        education: optional_text(f.education.as_str()),
        department: optional_text(f.department.as_str()),
        hire_date,
        leave_date,
        remark: optional_text(f.remark.as_str()),
        is_resigned: f.resigned,
        check_in_seconds,
        check_out_seconds,
    })
}

} // verus!
