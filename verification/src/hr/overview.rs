//! The HR overview: how employee files, attendance and leave hang together
//! through login accounts.
use vstd::prelude::*;
use crate::hr::leave::with_status;
use crate::hr::model::{
    bound_employee, employee_binding_counts, linked_id_counts, linked_to, unbound_employee,
    unlinked_to,
};
use crate::records::{Attendance, Employee, LeaveApplication};
use crate::sets::{add_id, no_ids};
use crate::tally::{count, lemma_count_step, lemma_take_all};
use std::collections::BTreeSet;

verus! {

/// Account `id` belongs to an employee file that is not deleted.
pub open spec fn is_live_account(employees: Seq<Employee>, id: u64) -> bool {
    exists|i: int| 0 <= i < employees.len() && !employees[i].is_deleted && employees[i].user_id == Some(id)
}

/// The login accounts of the employee files that are not deleted.
pub fn live_account_ids(employees: &[Employee]) -> (r: BTreeSet<u64>)
    ensures
        forall|id: u64| #[trigger] r@.contains(id) <==> is_live_account(employees@, id),
{
    let mut ids = no_ids();
    let mut i: usize = 0;
    while i < employees.len()
        invariant
            0 <= i <= employees@.len(),
            forall|id: u64| #[trigger] ids@.contains(id) <==> is_live_account(employees@.take(i as int), id),
        decreases employees@.len() - i,
    {
        if !employees[i].is_deleted {
            match employees[i].user_id {
                Some(id) => add_id(&mut ids, id),
                None => {},
            }
        }
        proof {
            let t = employees@.take(i + 1);
            let u = employees@.take(i as int);
            assert forall|id: u64| #[trigger] ids@.contains(id) <==> is_live_account(t, id) by {
                if is_live_account(t, id) {
                    let k = choose|k: int| 0 <= k < t.len() && !t[k].is_deleted && t[k].user_id == Some(id);
                    if k < i {
                        assert(u[k] == t[k]);
                    }
                }
                if is_live_account(u, id) {
                    let k = choose|k: int| 0 <= k < u.len() && !u[k].is_deleted && u[k].user_id == Some(id);
                    assert(u[k] == t[k]);
                }
                if !employees@[i as int].is_deleted && employees@[i as int].user_id == Some(id) {
                    assert(t[i as int] == employees@[i as int]);
                }
            }
        }
        i = i + 1;
    }
    proof {
        assert(employees@.take(i as int) =~= employees@);
    }
    ids
}

/// The account ids of the attendance records, in order.
fn attendance_accounts(rows: &[Attendance]) -> (r: Vec<Option<u64>>)
    ensures
        r@ == rows@.map_values(|a: Attendance| a.user_id),
{
    let mut out: Vec<Option<u64>> = Vec::new();
    let mut i: usize = 0;
    while i < rows.len()
        invariant
            0 <= i <= rows@.len(),
            out@ == rows@.take(i as int).map_values(|a: Attendance| a.user_id),
        decreases rows@.len() - i,
    {
        out.push(rows[i].user_id);
        proof {
            assert(rows@.take(i + 1).map_values(|a: Attendance| a.user_id) =~= rows@.take(i as int).map_values(
                |a: Attendance| a.user_id,
            ).push(rows@[i as int].user_id));
        }
        i = i + 1;
    }
    proof {
        assert(rows@.take(i as int) =~= rows@);
    }
    out
}

/// The account ids of the leave applications, in order.
fn leave_accounts(rows: &[LeaveApplication]) -> (r: Vec<Option<u64>>)
    ensures
        r@ == rows@.map_values(|a: LeaveApplication| a.user_id),
{
    let mut out: Vec<Option<u64>> = Vec::new();
    let mut i: usize = 0;
    while i < rows.len()
        invariant
            0 <= i <= rows@.len(),
            out@ == rows@.take(i as int).map_values(|a: LeaveApplication| a.user_id),
        decreases rows@.len() - i,
    {
        out.push(rows[i].user_id);
        proof {
            assert(rows@.take(i + 1).map_values(|a: LeaveApplication| a.user_id) =~= rows@.take(
                i as int,
            ).map_values(|a: LeaveApplication| a.user_id).push(rows@[i as int].user_id));
        }
        i = i + 1;
    }
    proof {
        assert(rows@.take(i as int) =~= rows@);
    }
    out
}

/// The live account ids as a set.
pub open spec fn live_accounts(employees: Seq<Employee>) -> Set<u64> {
    Set::new(|id: u64| is_live_account(employees, id))
}

/// The figures of the HR overview.
#[derive(Clone, Debug)]
pub struct HrOverview {
    pub bound: usize,
    pub unbound: usize,
    pub attendance_count: usize,
    pub attendance_linked: usize,
    pub attendance_unlinked: usize,
    pub leave_count: usize,
    pub leave_linked: usize,
    pub leave_unlinked: usize,
    pub pending_leave: usize,
    /// The largest of employees, attendance records and applications, at
    /// least 1: the scale of the bars.
    pub max_count: usize,
}

/// The figures of the HR overview: employee files with and without an
/// account; attendance records and applications that belong to the account
/// of a live employee file, and those that do not; pending applications.
pub fn hr_overview(
    employees: &[Employee],
    attendances: &[Attendance],
    leaves: &[LeaveApplication],
) -> (r: HrOverview)
    ensures
        r.bound == count(employees@, bound_employee()),
        r.unbound == count(employees@, unbound_employee()),
        r.attendance_count == attendances@.len(),
        r.attendance_linked == count(
            attendances@.map_values(|a: Attendance| a.user_id),
            linked_to(live_accounts(employees@)),
        ),
        r.attendance_unlinked == count(
            attendances@.map_values(|a: Attendance| a.user_id),
            unlinked_to(live_accounts(employees@)),
        ),
        r.leave_count == leaves@.len(),
        r.leave_linked == count(
            leaves@.map_values(|a: LeaveApplication| a.user_id),
            linked_to(live_accounts(employees@)),
        ),
        r.leave_unlinked == count(
            leaves@.map_values(|a: LeaveApplication| a.user_id),
            unlinked_to(live_accounts(employees@)),
        ),
        r.pending_leave == count(leaves@, with_status(0)),
        r.max_count as int == ({
            let m1 = if r.bound + r.unbound >= r.attendance_count {
                r.bound + r.unbound
            } else {
                r.attendance_count as int
            };
            let m2 = if m1 >= r.leave_count { m1 } else { r.leave_count as int };
            if m2 >= 1 { m2 } else { 1 }
        }),
{
    let (bound, unbound) = employee_binding_counts(employees);
    let accounts = live_account_ids(employees);
    proof {
        assert(accounts@ =~= live_accounts(employees@));
    }
    let attendance_ids = attendance_accounts(attendances);
    let (attendance_linked, attendance_unlinked) = linked_id_counts(attendance_ids.as_slice(), &accounts);
    let leave_ids = leave_accounts(leaves);
    let (leave_linked, leave_unlinked) = linked_id_counts(leave_ids.as_slice(), &accounts);
    let ghost p0 = with_status(0);
    let mut pending: usize = 0;
    let mut i: usize = 0;
    while i < leaves.len()
        invariant
            0 <= i <= leaves@.len(),
            p0 == with_status(0),
            pending == count(leaves@.take(i as int), p0),
            pending <= i,
        decreases leaves@.len() - i,
    {
        proof {
            lemma_count_step(leaves@, p0, i as int);
        }
        if leaves[i].status == 0 {
            pending = pending + 1;
        }
        i = i + 1;
    }
    proof {
        lemma_take_all(leaves@);
        assert forall|x: Employee| !(#[trigger] bound_employee()(x) && #[trigger] unbound_employee()(x)) by {}
        crate::tally::lemma_count_disjoint(employees@, bound_employee(), unbound_employee());
    }
    assert(bound + unbound <= employees@.len());
    assert(employees@.len() == employees.len());
    let employee_total: usize = bound + unbound;
    let m1 = if employee_total >= attendances.len() { employee_total } else { attendances.len() };
    let m2 = if m1 >= leaves.len() { m1 } else { leaves.len() };
    let max_count = if m2 >= 1 { m2 } else { 1 };
    HrOverview {
        bound,
        unbound,
        attendance_count: attendances.len(),
        attendance_linked,
        attendance_unlinked,
        leave_count: leaves.len(),
        leave_linked,
        leave_unlinked,
        pending_leave: pending,
        max_count,
    }
}

} // verus!
