//! The database rows the pages read, holding the columns their logic uses.
use vstd::prelude::*;
use crate::timestamp::Timestamp;

verus! {

/// A park (园区).
#[derive(Clone, Debug)]
pub struct Park {
    pub park_id: u64,
    pub park_name: String,
}

/// A factory building (厂房) inside a park.
#[derive(Clone, Debug)]
pub struct Factory {
    pub factory_id: u64,
    pub park_id: u64,
    pub factory_name: String,
}

/// A floor of a factory building.
#[derive(Clone, Debug)]
pub struct FactoryFloor {
    pub floor_id: u64,
    pub factory_id: u64,
    pub floor_name: String,
}

/// A dormitory building.
#[derive(Clone, Debug)]
pub struct Dormitory {
    pub dormitory_id: u64,
    pub dormitory_name: String,
}

/// A floor of a dormitory building.
#[derive(Clone, Debug)]
pub struct DormitoryFloor {
    pub dormitory_floor_id: u64,
    pub dormitory_id: u64,
    pub floor_no: i32,
}

/// An employee file; `user_id` is the optional login account.
#[derive(Clone, Debug)]
pub struct Employee {
    pub employee_id: u64,
    pub name: String,
    pub phone: String,
    pub department: Option<String>,
    pub user_id: Option<u64>,
    pub check_in_seconds: Option<u32>,
    pub check_out_seconds: Option<u32>,
    pub is_deleted: bool,
    pub is_resigned: bool,
}

/// A login account an employee file can be bound to, with its roles.
#[derive(Clone, Debug)]
pub struct EmployeeUserOption {
    pub user_id: u64,
    pub real_name: String,
    pub username: String,
    pub role_ids: Vec<u64>,
    pub role_names: Vec<String>,
}

/// A finance ledger entry.
#[derive(Clone, Debug)]
pub struct Finance {
    pub finance_id: u64,
    pub amount_cents: i64,
    pub is_deleted: bool,
}

/// A rent bill; `finance_id` is the ledger entry made with it.
#[derive(Clone, Debug)]
pub struct AmountBill {
    pub bill_id: u64,
    pub finance_id: u64,
}

/// An expense claim; `finance_id` is set once its payment entry exists.
#[derive(Clone, Debug)]
pub struct Reimbursement {
    pub id: u64,
    pub finance_id: Option<u64>,
    pub is_deleted: bool,
}

/// A camera, access controller, barrier or turnstile.
#[derive(Clone, Debug)]
pub struct DeviceAsset {
    pub asset_id: u64,
    pub park_id: u64,
    pub factory_id: u64,
    pub device_class: String,
    pub device_type: String,
    pub device_name: String,
    pub device_code: String,
    pub location: String,
    pub external_device_id: Option<String>,
}

/// An electricity or water meter.
#[derive(Clone, Debug)]
pub struct UtilityMeter {
    pub meter_id: u64,
    pub is_electric: bool,
    pub factory_floor_id: u64,
    pub dormitory_floor_id: u64,
    pub external_device_id: Option<String>,
}

/// One inspection of a transformer, elevator or firefighting asset.
#[derive(Clone, Debug)]
pub struct Inspection {
    pub inspection_id: u64,
    pub asset_id: u64,
    pub check_time: Timestamp,
    pub status: String,
}

pub type TransformerInspection = Inspection;

pub type ElevatorInspection = Inspection;

pub type FirefightingInspection = Inspection;

impl Inspection {
    /// A copy of this row.
    pub fn duplicate(&self) -> (r: Inspection)
        ensures
            r == *self,
    {
        Inspection {
            inspection_id: self.inspection_id,
            asset_id: self.asset_id,
            check_time: self.check_time,
            status: self.status.clone(),
        }
    }
}

/// An attendance punch; `punch_out` is empty until the employee leaves.
#[derive(Clone, Debug)]
pub struct Attendance {
    pub attendance_id: u64,
    pub user_id: Option<u64>,
    pub username: String,
    pub punch_in: Timestamp,
    pub punch_out: Option<Timestamp>,
    pub status: Option<i8>,
    pub latitude_e_15: i64,
    pub longitude_e_15: i64,
}

impl Attendance {
    /// A copy of this row.
    pub fn duplicate(&self) -> (r: Attendance)
        ensures
            r == *self,
    {
        Attendance {
            attendance_id: self.attendance_id,
            user_id: self.user_id,
            username: self.username.clone(),
            punch_in: self.punch_in,
            punch_out: self.punch_out,
            status: self.status,
            latitude_e_15: self.latitude_e_15,
            longitude_e_15: self.longitude_e_15,
        }
    }
}

/// A firefighting asset: where it hangs and until when it is certified.
#[derive(Clone, Debug)]
pub struct FirefightingAsset {
    pub asset_id: u64,
    pub park_id: u64,
    pub factory_floor_id: u64,
    pub dormitory_floor_id: u64,
    pub facility_type: String,
    pub facility_name: String,
    pub location: String,
    pub specifications: Option<String>,
    pub expiry_on: Option<String>,
}

/// A repair order: received, in progress, awaiting acceptance, done or
/// cancelled.
#[derive(Clone, Debug)]
pub struct RepairOrder {
    pub repair_order_id: u64,
    pub order_no: String,
    pub park_id: u64,
    pub factory_id: Option<u64>,
    pub source: String,
    pub repair_type: String,
    pub priority: String,
    pub status: String,
    pub tenant_name: Option<String>,
    pub tenant_phone: Option<String>,
    pub assignee: Option<String>,
    pub assignee_phone: Option<String>,
    pub description: String,
    pub created_at: Timestamp,
}

/// A leave application: status 0 pending, 1 approved, 2 rejected.
#[derive(Clone, Debug)]
pub struct LeaveApplication {
    pub id: u64,
    pub user_id: Option<u64>,
    pub status: i8,
    pub leave_type: String,
    pub applicant_name: Option<String>,
    pub username: Option<String>,
    pub park_name: Option<String>,
    pub start_date: Timestamp,
    pub end_date: Timestamp,
    pub reason: String,
}

/// A position an employee's phone reported.
#[derive(Clone, Debug)]
pub struct LocationReport {
    pub user_name: String,
    pub punch_time: Timestamp,
    pub latitude_e_15: i64,
    pub longitude_e_15: i64,
}

/// A transformer.
#[derive(Clone, Debug)]
pub struct TransformerAsset {
    pub asset_id: u64,
    pub park_id: u64,
    pub factory_id: u64,
    pub transformer_name: String,
    pub location: String,
    pub specifications: String,
    pub capacity_centi_kw: u64,
}

/// An elevator.
#[derive(Clone, Debug)]
pub struct ElevatorAsset {
    pub asset_id: u64,
    pub park_id: u64,
    pub factory_id: u64,
    pub elevator_name: String,
    pub location: String,
    pub size: Option<String>,
    pub load_capacity_centi_kg: u64,
}

} // verus!
