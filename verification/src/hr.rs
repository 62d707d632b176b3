//! Human resources: employees, attendance and leave.
pub mod attendance;
pub mod attendance_log;
pub mod employee_form;
pub mod leave;
pub mod location;
pub mod model;
pub mod navigation;
pub mod overview;
pub mod roster;
pub mod trajectory;
