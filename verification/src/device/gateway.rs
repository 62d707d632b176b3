//! Edge gateways: the tallies of the page, what each row shows, and the
//! gateway form.
use vstd::prelude::*;
use crate::badge::BadgeVariant;
use crate::device::model::{elapsed_label, elapsed_label_spec, health_needs_attention};
use crate::tally::{count, lemma_count_step, lemma_take_all};
use crate::text::{
    is_blank, is_blank_str, optional_agrees, optional_text, owned, parse_in_range, parse_u64, trim,
    trim_str,
};
use crate::timestamp::Timestamp;

verus! {

pub const PARK_REQUIRED: &'static str = "请选择所属园区";

pub const NAME_REQUIRED: &'static str = "请输入设备名称";

/// An edge computer installed in a park.
#[derive(Clone, Debug)]
pub struct EdgeGateway {
    pub gateway_id: u64,
    pub park_id: u64,
    pub gateway_name: String,
    pub agent_version: Option<String>,
    pub is_online: bool,
    pub status_changed_at: Timestamp,
    pub health_level: String,
    pub registration_code: Option<String>,
}

pub open spec fn online() -> spec_fn(EdgeGateway) -> bool {
    |g: EdgeGateway| g.is_online
}

pub open spec fn needs_attention() -> spec_fn(EdgeGateway) -> bool {
    |g: EdgeGateway| g.health_level@ == "warning"@ || g.health_level@ == "critical"@
}

/// Gateways online, and gateways whose health needs someone to look.
pub fn gateway_counts(gateways: &[EdgeGateway]) -> (r: (usize, usize))
    ensures
        r.0 == count(gateways@, online()),
        r.1 == count(gateways@, needs_attention()),
{
    let ghost po = online();
    let ghost pa = needs_attention();
    let mut up: usize = 0;
    let mut attention: usize = 0;
    let mut i: usize = 0;
    while i < gateways.len()
        invariant
            0 <= i <= gateways@.len(),
            po == online(),
            pa == needs_attention(),
            up == count(gateways@.take(i as int), po),
            attention == count(gateways@.take(i as int), pa),
            up <= i,
            attention <= i,
        decreases gateways@.len() - i,
    {
        proof {
            lemma_count_step(gateways@, po, i as int);
            lemma_count_step(gateways@, pa, i as int);
        }
        if gateways[i].is_online {
            up = up + 1;
        }
        if health_needs_attention(gateways[i].health_level.as_str()) {
            attention = attention + 1;
        }
        i = i + 1;
    }
    proof {
        lemma_take_all(gateways@);
    }
    (up, attention)
}

/// `程序版本 {version}`, or `尚未装机` before the program reported one.
pub fn version_label(g: &EdgeGateway) -> (r: String)
    ensures
        r@ == match g.agent_version {
            Some(v) => "程序版本 "@ + v@,
            None => "尚未装机"@,
        },
{
    match &g.agent_version {
        Some(v) => {
            let mut out = String::from_str("程序版本 ");
            out.append(v.as_str());
            out
        },
        None => String::from_str("尚未装机"),
    }
}

/// Badge of the connection.
pub fn connection_badge(g: &EdgeGateway) -> (r: (&'static str, BadgeVariant))
    ensures
        r.0@ == (if g.is_online { "在线"@ } else { "离线"@ }),
        r.1 == (if g.is_online { BadgeVariant::Secondary } else { BadgeVariant::Outline }),
{
    if g.is_online {
        ("在线", BadgeVariant::Secondary)
    } else {
        ("离线", BadgeVariant::Outline)
    }
}

/// `已 {span}` since the connection last changed.
pub fn connection_age(g: &EdgeGateway, now_micros: i64) -> (r: String)
    requires
        i64::MIN <= now_micros - g.status_changed_at.micros <= i64::MAX,
    ensures
        r@ == "已 "@ + elapsed_label_spec(g.status_changed_at.micros as int, now_micros as int),
{
    let mut out = String::from_str("已 ");
    let span = elapsed_label(g.status_changed_at.to_micros_since_unix_epoch(), now_micros);
    out.append(span.as_str());
    out
}

/// The registration column: the code and how to use it while the gateway
/// waits to be installed, else that it is activated.
pub fn registration_texts(g: &EdgeGateway) -> (r: (String, &'static str))
    ensures
        match g.registration_code {
            Some(c) => r.0@ == c@ && r.1@ == "待装机，请使用此码激活"@,
            None => r.0@ == "已激活"@ && r.1@ == "身份已绑定至该计算机"@,
        },
{
    match &g.registration_code {
        Some(c) => (owned(c.as_str()), "待装机，请使用此码激活"),
        None => (String::from_str("已激活"), "身份已绑定至该计算机"),
    }
}

/// The fields of the gateway form, as typed.
#[derive(Clone, Debug)]
pub struct GatewayForm {
    pub park_id: String,
    pub name: String,
    pub remark: String,
}

/// What the gateway form submits.
#[derive(Clone, Debug)]
pub struct EdgeGatewayInput {
    pub park_id: u64,
    pub gateway_name: String,
    pub remark: Option<String>,
}

/// The first complaint about the form: no park, then no name.
pub open spec fn gateway_form_error(f: GatewayForm) -> Option<Seq<char>> {
    if !(parse_in_range(f.park_id@, false, 0, u64::MAX as int) matches Some(v) && v != 0) {
        Some(PARK_REQUIRED@)
    } else if is_blank(f.name@) {
        Some(NAME_REQUIRED@)
    } else {
        None
    }
}

/// Checks the gateway form and builds the record it submits.
pub fn check_gateway_form(f: &GatewayForm) -> (r: Result<EdgeGatewayInput, &'static str>)
    ensures
        match r {
            Err(e) => gateway_form_error(*f) == Some(e@),
            Ok(input) => {
                &&& gateway_form_error(*f) is None
                &&& Some(input.park_id as int) == parse_in_range(f.park_id@, false, 0, u64::MAX as int)
                &&& input.gateway_name@ == trim(f.name@)
                &&& optional_agrees(input.remark, f.remark@)
            },
        },
{
    let park_id = match parse_u64(f.park_id.as_str()) {
        Some(v) if v != 0 => v,
        _ => return Err(PARK_REQUIRED),
    };
    if is_blank_str(f.name.as_str()) {
        return Err(NAME_REQUIRED);
    }
    Ok(EdgeGatewayInput {
        park_id,
        gateway_name: owned(trim_str(f.name.as_str())),
        remark: optional_text(f.remark.as_str()),
    })
}

} // verus!
