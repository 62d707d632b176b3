//! Repair orders: the ledger rows, the form draft, and which workflow step
//! each status offers (accept → finish → verify, with return and cancel as
//! branches).
use vstd::prelude::*;
use crate::text::{optional_agrees, optional_text};
use crate::maintenance::model::{datetime_label, factory_name, factory_name_spec, format_datetime, park_name, park_name_spec};
use crate::records::{Factory, Park, RepairOrder};
use crate::tally::{count, first_match, is_first, lemma_count_step, lemma_first_match_at, lemma_first_match_none, lemma_take_all};
use crate::text::{decimal, decimal_string, name_texts, owned, parse_in_range, parse_u64, str_eq};
use crate::search::{matches_search, text_matches};

verus! {

/// Items of the ledger table per page.
pub const PAGE_SIZE: usize = 20;

/// One row of the repair order table.
#[derive(Clone, Debug)]
pub struct ViewRow {
    pub id: u64,
    pub code: String,
    pub title: String,
    pub location: String,
    pub status: String,
    pub priority: String,
    pub summary: String,
    pub operator: String,
    pub checked_at: String,
}

/// The table row of an order: `<type> · <tenant or 物业报修>`,
/// `<park> · <building>`, the assignee or `待分派`, the submission time.
pub open spec fn is_view_row(v: ViewRow, o: RepairOrder, parks: Seq<Park>, factories: Seq<Factory>) -> bool {
    &&& v.id == o.repair_order_id
    &&& v.code@ == o.order_no@
    &&& v.title@ == o.repair_type@ + " · "@ + match o.tenant_name {
        Some(t) => t@,
        None => "物业报修"@,
    }
    &&& v.location@ == park_name_spec(parks, o.park_id) + " · "@ + factory_name_spec(factories, o.factory_id)
    &&& v.status@ == o.status@
    &&& v.priority@ == o.priority@
    &&& v.summary@ == o.description@
    &&& v.operator@ == match o.assignee {
        Some(a) => a@,
        None => "待分派"@,
    }
    &&& v.checked_at@ == datetime_label(o.created_at.micros as int)
}

/// The table row of one order.
pub fn view_row(o: &RepairOrder, parks: &[Park], factories: &[Factory]) -> (r: ViewRow)
    requires
        o.created_at.micros <= i64::MAX - 28_800_000_000,
    ensures
        is_view_row(r, *o, parks@, factories@),
{
    let mut title = o.repair_type.clone();
    title.append(" · ");
    match &o.tenant_name {
        Some(t) => title.append(t.as_str()),
        None => title.append("物业报修"),
    }
    let mut location = park_name(parks, o.park_id);
    location.append(" · ");
    let factory = factory_name(factories, o.factory_id);
    location.append(factory.as_str());
    let operator = match &o.assignee {
        Some(a) => a.clone(),
        None => String::from_str("待分派"),
    };
    ViewRow {
        id: o.repair_order_id,
        code: o.order_no.clone(),
        title,
        location,
        status: o.status.clone(),
        priority: o.priority.clone(),
        summary: o.description.clone(),
        operator,
        checked_at: format_datetime(o.created_at),
    }
}

/// The table rows of all orders, in order.
pub fn view_rows(orders: &[RepairOrder], parks: &[Park], factories: &[Factory]) -> (r: Vec<ViewRow>)
    requires
        forall|k: int| 0 <= k < orders@.len() ==> (#[trigger] orders@[k]).created_at.micros <= i64::MAX - 28_800_000_000,
    ensures
        r@.len() == orders@.len(),
        forall|k: int| 0 <= k < orders@.len() ==> is_view_row(#[trigger] r@[k], orders@[k], parks@, factories@),
{
    let mut rows: Vec<ViewRow> = Vec::new();
    let mut i: usize = 0;
    while i < orders.len()
        invariant
            forall|k: int| 0 <= k < orders@.len() ==> (#[trigger] orders@[k]).created_at.micros <= i64::MAX - 28_800_000_000,
            0 <= i <= orders@.len(),
            rows@.len() == i,
            forall|k: int| 0 <= k < i ==> is_view_row(#[trigger] rows@[k], orders@[k], parks@, factories@),
        decreases orders@.len() - i,
    {
        rows.push(view_row(&orders[i], parks, factories));
        i = i + 1;
    }
    rows
}

pub open spec fn is_done(v: ViewRow) -> bool {
    v.status@ == "已完成"@
}

pub open spec fn needs_work(v: ViewRow) -> bool {
    v.status@ == "紧急"@ || v.status@ == "待接单"@ || v.status@ == "处理中"@
}

pub open spec fn done_row() -> spec_fn(ViewRow) -> bool {
    |v: ViewRow| is_done(v)
}

pub open spec fn open_row() -> spec_fn(ViewRow) -> bool {
    |v: ViewRow| needs_work(v)
}

/// The figures above the table: finished orders, and orders waiting or in
/// progress (urgent, to be accepted, being handled).
pub fn order_counts(rows: &[ViewRow]) -> (r: (usize, usize))
    ensures
        r.0 == count(rows@, done_row()),
        r.1 == count(rows@, open_row()),
{
    let ghost pd = done_row();
    let ghost po = open_row();
    let mut done: usize = 0;
    let mut open: usize = 0;
    let mut i: usize = 0;
    while i < rows.len()
        invariant
            pd == done_row(),
            po == open_row(),
            0 <= i <= rows@.len(),
            done == count(rows@.take(i as int), pd),
            open == count(rows@.take(i as int), po),
            done <= i,
            open <= i,
        decreases rows@.len() - i,
    {
        proof {
            lemma_count_step(rows@, pd, i as int);
            lemma_count_step(rows@, po, i as int);
        }
        let status = rows[i].status.as_str();
        if str_eq(status, "已完成") {
            done = done + 1;
        }
        if str_eq(status, "紧急") || str_eq(status, "待接单") || str_eq(status, "处理中") {
            open = open + 1;
        }
        i = i + 1;
    }
    proof {
        lemma_take_all(rows@);
    }
    (done, open)
}

/// A step of the order workflow.
#[derive(Clone, Copy, Debug, PartialEq, Eq, Structural)]
pub enum WorkflowAction {
    Accept,
    Finish,
    Verify,
    Return,
    Cancel,
}

impl WorkflowAction {
    /// The action code sent to the server.
    pub fn code(&self) -> (r: &'static str)
        ensures
            r@ == match *self {
                WorkflowAction::Accept => "accept"@,
                WorkflowAction::Finish => "finish"@,
                WorkflowAction::Verify => "verify"@,
                WorkflowAction::Return => "return"@,
                WorkflowAction::Cancel => "cancel"@,
            },
    {
        match self {
            WorkflowAction::Accept => "accept",
            WorkflowAction::Finish => "finish",
            WorkflowAction::Verify => "verify",
            WorkflowAction::Return => "return",
            WorkflowAction::Cancel => "cancel",
        }
    }

    /// Text of the action's button.
    pub fn button_label(&self) -> (r: &'static str)
        ensures
            r@ == match *self {
                WorkflowAction::Accept => "接单"@,
                WorkflowAction::Finish => "完工"@,
                WorkflowAction::Verify => "验收"@,
                WorkflowAction::Return => "退回"@,
                WorkflowAction::Cancel => "取消"@,
            },
    {
        match self {
            WorkflowAction::Accept => "接单",
            WorkflowAction::Finish => "完工",
            WorkflowAction::Verify => "验收",
            WorkflowAction::Return => "退回",
            WorkflowAction::Cancel => "取消",
        }
    }

    /// Title of the remark dialog the action opens first; accepting and
    /// verifying are sent at once, without a remark.
    pub fn dialog_title(&self) -> (r: Option<&'static str>)
        ensures
            match *self {
                WorkflowAction::Accept => r is None,
                WorkflowAction::Verify => r is None,
                WorkflowAction::Finish => r matches Some(t) && t@ == "提交完工"@,
                WorkflowAction::Return => r matches Some(t) && t@ == "退回处理"@,
                WorkflowAction::Cancel => r matches Some(t) && t@ == "取消工单"@,
            },
    {
        match self {
            WorkflowAction::Accept => None,
            WorkflowAction::Finish => Some("提交完工"),
            WorkflowAction::Verify => None,
            WorkflowAction::Return => Some("退回处理"),
            WorkflowAction::Cancel => Some("取消工单"),
        }
    }
}

/// The workflow steps an order in `status` offers: a new order can be
/// accepted or cancelled, one in progress finished or cancelled, a finished
/// one verified or returned; done and cancelled orders offer none.
pub open spec fn workflow_actions_spec(status: Seq<char>) -> Seq<WorkflowAction> {
    if status == "待接单"@ {
        seq![WorkflowAction::Accept, WorkflowAction::Cancel]
    } else if status == "处理中"@ {
        seq![WorkflowAction::Finish, WorkflowAction::Cancel]
    } else if status == "待验收"@ {
        seq![WorkflowAction::Verify, WorkflowAction::Return]
    } else {
        Seq::empty()
    }
}

/// The workflow buttons of an order, in the order the table shows them.
pub fn workflow_actions(status: &str) -> (r: Vec<WorkflowAction>)
    ensures
        r@ == workflow_actions_spec(status@),
{
    let mut out: Vec<WorkflowAction> = Vec::new();
    if str_eq(status, "待接单") {
        out.push(WorkflowAction::Accept);
        out.push(WorkflowAction::Cancel);
    } else if str_eq(status, "处理中") {
        out.push(WorkflowAction::Finish);
        out.push(WorkflowAction::Cancel);
    } else if str_eq(status, "待验收") {
        out.push(WorkflowAction::Verify);
        out.push(WorkflowAction::Return);
    }
    proof {
        assert(out@ =~= workflow_actions_spec(status@));
    }
    out
}

/// The texts of the order form.
#[derive(Clone, Debug)]
pub struct OrderDraft {
    pub id: Option<u64>,
    pub park_id: String,
    pub factory_id: String,
    pub source: String,
    pub repair_type: String,
    pub priority: String,
    pub tenant_name: String,
    pub tenant_phone: String,
    pub assignee: String,
    pub assignee_phone: String,
    pub description: String,
}

/// The park preselected in a new form: the first park, or none.
pub open spec fn first_park_text(parks: Seq<Park>) -> Seq<char> {
    if parks.len() > 0 { decimal(parks[0].park_id as nat) } else { Seq::empty() }
}

/// A factory whose park id reads `park_text`.
pub open spec fn factory_in(park_text: Seq<char>) -> spec_fn(Factory) -> bool {
    |f: Factory| decimal(f.park_id as nat) == park_text
}

/// The building preselected in a new form: the first one of the
/// preselected park, or none.
pub open spec fn first_factory_text(parks: Seq<Park>, factories: Seq<Factory>) -> Seq<char> {
    match first_match(factories, factory_in(first_park_text(parks))) {
        Some(i) => decimal(factories[i].factory_id as nat),
        None => Seq::empty(),
    }
}

fn find_factory_in(factories: &[Factory], park_text: &str) -> (r: Option<usize>)
    ensures
        match r {
            Some(i) => first_match(factories@, factory_in(park_text@)) == Some(i as int),
            None => first_match(factories@, factory_in(park_text@)) is None,
        },
{
    let ghost p = factory_in(park_text@);
    let mut i: usize = 0;
    while i < factories.len()
        invariant
            p == factory_in(park_text@),
            0 <= i <= factories@.len(),
            forall|k: int| 0 <= k < i ==> !p(#[trigger] factories@[k]),
        decreases factories@.len() - i,
    {
        let text = decimal_string(factories[i].park_id);
        if str_eq(text.as_str(), park_text) {
            proof {
                assert(is_first(factories@, p, i as int));
                lemma_first_match_at(factories@, p, i as int);
            }
            return Some(i);
        }
        i = i + 1;
    }
    proof {
        lemma_first_match_none(factories@, p);
    }
    None
}

impl OrderDraft {
    /// A new order: first park and its first building preselected, filed by
    /// the property office, a device repair of normal priority.
    pub fn fresh(parks: &[Park], factories: &[Factory]) -> (r: OrderDraft)
        ensures
            r.id is None,
            r.park_id@ == first_park_text(parks@),
            r.factory_id@ == first_factory_text(parks@, factories@),
            r.source@ == "物业代报修"@,
            r.repair_type@ == "设备"@,
            r.priority@ == "普通"@,
            r.tenant_name@.len() == 0,
            r.tenant_phone@.len() == 0,
            r.assignee@.len() == 0,
            r.assignee_phone@.len() == 0,
            r.description@.len() == 0,
    {
        let park_id = if parks.len() > 0 { decimal_string(parks[0].park_id) } else { String::new() };
        let factory_id = match find_factory_in(factories, park_id.as_str()) {
            Some(i) => decimal_string(factories[i].factory_id),
            None => String::new(),
        };
        OrderDraft {
            id: None,
            park_id,
            factory_id,
            source: String::from_str("物业代报修"),
            repair_type: String::from_str("设备"),
            priority: String::from_str("普通"),
            tenant_name: String::new(),
            tenant_phone: String::new(),
            assignee: String::new(),
            assignee_phone: String::new(),
            description: String::new(),
        }
    }
}

pub open spec fn order_with(id: u64) -> spec_fn(RepairOrder) -> bool {
    |o: RepairOrder| o.repair_order_id == id
}

fn text_or_empty(v: &Option<String>) -> (r: String)
    ensures
        r@ == match *v {
            Some(s) => s@,
            None => Seq::<char>::empty(),
        },
{
    match v {
        Some(s) => s.clone(),
        None => String::new(),
    }
}

/// The form of an existing order: its fields as texts, empty where unset.
pub fn draft_for(id: u64, orders: &[RepairOrder], parks: &[Park], factories: &[Factory]) -> (r: Option<OrderDraft>)
    ensures
        match first_match(orders@, order_with(id)) {
            None => r is None,
            Some(k) => r matches Some(d) && {
                let o = orders@[k];
                &&& d.id == Some(id)
                &&& d.park_id@ == decimal(o.park_id as nat)
                &&& d.factory_id@ == match o.factory_id {
                    Some(f) => decimal(f as nat),
                    None => Seq::<char>::empty(),
                }
                &&& d.source@ == o.source@
                &&& d.repair_type@ == o.repair_type@
                &&& d.priority@ == o.priority@
                &&& d.tenant_name@ == match o.tenant_name {
                    Some(s) => s@,
                    None => Seq::<char>::empty(),
                }
                &&& d.tenant_phone@ == match o.tenant_phone {
                    Some(s) => s@,
                    None => Seq::<char>::empty(),
                }
                &&& d.assignee@ == match o.assignee {
                    Some(s) => s@,
                    None => Seq::<char>::empty(),
                }
                &&& d.assignee_phone@ == match o.assignee_phone {
                    Some(s) => s@,
                    None => Seq::<char>::empty(),
                }
                &&& d.description@ == o.description@
            },
        },
{
    let ghost p = order_with(id);
    let mut i: usize = 0;
    while i < orders.len()
        invariant
            p == order_with(id),
            0 <= i <= orders@.len(),
            forall|k: int| 0 <= k < i ==> !p(#[trigger] orders@[k]),
        decreases orders@.len() - i,
    {
        if orders[i].repair_order_id == id {
            proof {
                assert(is_first(orders@, p, i as int));
                lemma_first_match_at(orders@, p, i as int);
            }
            let row = &orders[i];
            let mut draft = OrderDraft::fresh(parks, factories);
            draft.id = Some(id);
            draft.park_id = decimal_string(row.park_id);
            draft.factory_id = match row.factory_id {
                Some(v) => decimal_string(v),
                None => String::new(),
            };
            draft.source = row.source.clone();
            draft.repair_type = row.repair_type.clone();
            draft.priority = row.priority.clone();
            draft.tenant_name = text_or_empty(&row.tenant_name);
            draft.tenant_phone = text_or_empty(&row.tenant_phone);
            draft.assignee = text_or_empty(&row.assignee);
            draft.assignee_phone = text_or_empty(&row.assignee_phone);
            draft.description = row.description.clone();
            return Some(draft);
        }
        i = i + 1;
    }
    proof {
        lemma_first_match_none(orders@, p);
    }
    None
}

/// An optional text field: trimmed, nothing when blank.
pub fn optional(value: String) -> (r: Option<String>)
    ensures
        optional_agrees(r, value@),
{
    optional_text(value.as_str())
}

/// What the order form submits.
#[derive(Clone, Debug)]
pub struct RepairOrderInput {
    pub source: String,
    pub tenant_name: Option<String>,
    pub tenant_phone: Option<String>,
    pub repair_type: String,
    pub description: String,
    pub priority: String,
    pub assignee: Option<String>,
    pub assignee_phone: Option<String>,
    pub factory_id: Option<u64>,
    pub park_id: u64,
}

/// Checks the order form and builds the submission: the park must be
/// chosen; a building that does not read as an id means none.
pub fn repair_order_input(draft: &OrderDraft) -> (r: Result<RepairOrderInput, &'static str>)
    ensures
        match r {
            Err(e) => e@ == "请选择所属园区"@ && parse_in_range(draft.park_id@, false, 0, u64::MAX as int) is None,
            Ok(input) => {
                &&& Some(input.park_id as int) == parse_in_range(draft.park_id@, false, 0, u64::MAX as int)
                &&& match input.factory_id {
                    Some(f) => parse_in_range(draft.factory_id@, false, 0, u64::MAX as int) == Some(f as int),
                    None => parse_in_range(draft.factory_id@, false, 0, u64::MAX as int) is None,
                }
                &&& input.source@ == draft.source@
                &&& input.repair_type@ == draft.repair_type@
                &&& input.description@ == draft.description@
                &&& input.priority@ == draft.priority@
                &&& optional_agrees(input.tenant_name, draft.tenant_name@)
                &&& optional_agrees(input.tenant_phone, draft.tenant_phone@)
                &&& optional_agrees(input.assignee, draft.assignee@)
                &&& optional_agrees(input.assignee_phone, draft.assignee_phone@)
            },
        },
{
    let park_id = match parse_u64(draft.park_id.as_str()) {
        Some(v) => v,
        None => return Err("请选择所属园区"),
    };
    let factory_id = parse_u64(draft.factory_id.as_str());
    Ok(RepairOrderInput {
        source: draft.source.clone(),
        tenant_name: optional_text(draft.tenant_name.as_str()),
        tenant_phone: optional_text(draft.tenant_phone.as_str()),
        repair_type: draft.repair_type.clone(),
        description: draft.description.clone(),
        priority: draft.priority.clone(),
        assignee: optional_text(draft.assignee.as_str()),
        assignee_phone: optional_text(draft.assignee_phone.as_str()),
        factory_id,
        park_id,
    })
}

/// The notice after a workflow step: confirmation or the server's message.
pub fn workflow_feedback(result: Result<(), String>) -> (r: String)
    ensures
        r@ == match result {
            Ok(()) => "工单状态已更新"@,
            Err(e) => e@,
        },
{
    match result {
        Ok(()) => String::from_str("工单状态已更新"),
        Err(e) => e,
    }
}

/// The notice after deleting an order.
pub fn delete_feedback(result: Result<(), String>) -> (r: String)
    ensures
        r@ == match result {
            Ok(()) => "记录已删除"@,
            Err(e) => e@,
        },
{
    match result {
        Ok(()) => String::from_str("记录已删除"),
        Err(e) => e,
    }
}

/// The notice after saving an order; on success the form closes.
pub fn save_feedback(result: Result<(), String>) -> (r: (String, bool))
    ensures
        r.0@ == match result {
            Ok(()) => "保存成功，台账正在实时更新"@,
            Err(e) => e@,
        },
        r.1 == (result is Ok),
{
    match result {
        Ok(()) => (String::from_str("保存成功，台账正在实时更新"), true),
        Err(e) => (e, false),
    }
}

/// Only open orders move: an order that is neither new, in progress nor
/// awaiting acceptance (done or cancelled) offers no workflow step.
pub proof fn lemma_closed_orders_offer_nothing(status: Seq<char>)
    requires
        status != "待接单"@,
        status != "处理中"@,
        status != "待验收"@,
    ensures
        workflow_actions_spec(status).len() == 0,
{
}

/// What the repair order search looks through: code, title, location and
/// summary.
pub open spec fn repair_order_search_parts(row: ViewRow) -> Seq<Seq<char>> {
    seq![row.code@, row.title@, row.location@, row.summary@]
}

/// Whether the repair order ledger shows a row for a status filter and a
/// search query (already trimmed and lower-cased).
pub fn repair_order_shown(row: &ViewRow, status: &str, query: &str) -> (r: bool)
    ensures
        r == ((status@ == "全部"@ || row.status@ == status@) && text_matches(
            query@,
            repair_order_search_parts(*row),
        )),
{
    let status_ok = str_eq(status, "全部") || str_eq(row.status.as_str(), status);
    if !status_ok {
        return false;
    }
    let mut parts: Vec<String> = Vec::new();
    parts.push(owned(row.code.as_str()));
    parts.push(owned(row.title.as_str()));
    parts.push(owned(row.location.as_str()));
    parts.push(owned(row.summary.as_str()));
    proof {
        assert(name_texts(parts@) =~= repair_order_search_parts(*row));
    }
    matches_search(query, &parts)
}

} // verus!
