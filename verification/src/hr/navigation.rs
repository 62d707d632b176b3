//! The navigation bar of the HR pages: which pages it links to, how each
//! is called for managers and for everyone else, and which is current.
use vstd::prelude::*;
use crate::text::str_eq;

verus! {

/// Which HR routes the account's menu grants.
#[derive(Clone, Copy, Debug)]
pub struct HrRouteAccess {
    pub information: bool,
    pub punch: bool,
    pub location: bool,
    pub stats: bool,
    pub trajectory: bool,
    pub leave: bool,
}

/// One link of the bar.
#[derive(Clone, Copy, Debug)]
pub struct NavItem {
    pub key: &'static str,
    pub label: &'static str,
    /// The link of the page being shown.
    pub current: bool,
}

/// Keys and labels of the links, in order: the employee files and the
/// punch-location settings for HR managers only, the others for whoever
/// the menu grants them, with the manager's wording for records,
/// trajectories and leave.
pub open spec fn nav_spec(manager: bool, access: HrRouteAccess) -> Seq<(Seq<char>, Seq<char>)> {
    (if manager && access.information { seq![("employee"@, "员工信息"@)] } else { Seq::empty() })
        + (if access.punch { seq![("punch"@, "考勤打卡"@)] } else { Seq::empty() })
        + (if manager && access.location { seq![("location"@, "打卡点设置"@)] } else { Seq::empty() })
        + (if access.stats {
        seq![("records"@, if manager { "考勤台账"@ } else { "我的考勤"@ })]
    } else {
        Seq::empty()
    }) + (if access.trajectory {
        seq![("trajectory"@, if manager { "全员轨迹"@ } else { "我的轨迹"@ })]
    } else {
        Seq::empty()
    }) + (if access.leave {
        seq![("leave"@, if manager { "请假审批"@ } else { "我的请假"@ })]
    } else {
        Seq::empty()
    })
}

fn push_item(out: &mut Vec<NavItem>, key: &'static str, label: &'static str, active: &str)
    ensures
        final(out)@ == old(out)@.push(NavItem { key, label, current: key@ == active@ }),
{
    let current = str_eq(key, active);
    out.push(NavItem { key, label, current });
}

/// The links of the bar for an account and the page being shown.
pub fn hr_nav_items(manager: bool, access: HrRouteAccess, active: &str) -> (r: Vec<NavItem>)
    ensures
        r@.len() == nav_spec(manager, access).len(),
        forall|i: int|
            0 <= i < r@.len() ==> (#[trigger] r@[i]).key@ == nav_spec(manager, access)[i].0 && r@[i].label@
                == nav_spec(manager, access)[i].1 && r@[i].current == (r@[i].key@ == active@),
{
    let mut out: Vec<NavItem> = Vec::new();
    if manager && access.information {
        push_item(&mut out, "employee", "员工信息", active);
    }
    if access.punch {
        push_item(&mut out, "punch", "考勤打卡", active);
    }
    if manager && access.location {
        push_item(&mut out, "location", "打卡点设置", active);
    }
    if access.stats {
        push_item(&mut out, "records", if manager { "考勤台账" } else { "我的考勤" }, active);
    }
    if access.trajectory {
        push_item(&mut out, "trajectory", if manager { "全员轨迹" } else { "我的轨迹" }, active);
    }
    if access.leave {
        push_item(&mut out, "leave", if manager { "请假审批" } else { "我的请假" }, active);
    }
    proof {
        let s = nav_spec(manager, access);
        assert(out@.len() == s.len());
        assert forall|i: int| 0 <= i < out@.len() implies (#[trigger] out@[i]).key@ == s[i].0
            && out@[i].label@ == s[i].1 && out@[i].current == (out@[i].key@ == active@) by {}
    }
    out
}

} // verus!
