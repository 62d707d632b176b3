//! Classes, type names, health levels and the two-column overview of the
//! device ledgers.
use vstd::prelude::*;
use crate::badge::BadgeVariant;
use crate::maintenance::model::{factory_with, find_factory, find_park, park_with};
use crate::records::{DeviceAsset, Factory, Park, UtilityMeter};
use crate::tally::{lemma_count_complement, lemma_count_implies, count, first_match, lemma_count_step, lemma_take_all};
use crate::text::{decimal, is_blank, is_blank_str, push_decimal, str_eq};

verus! {

pub const HEALTH_NORMAL: &'static str = "normal";

pub const HEALTH_WARNING: &'static str = "warning";

pub const HEALTH_CRITICAL: &'static str = "critical";

/// Sensors read the physical world.
pub const CLASS_SENSOR: &'static str = "sensor";

/// Actuators change the physical world on command.
pub const CLASS_ACTUATOR: &'static str = "actuator";

/// Types the camera page registers: the sensor class.
pub const SENSOR_TYPES: [&'static str; 1] = ["camera"];

/// Types the access-control page registers: the actuator class.
pub const ACTUATOR_TYPES: [&'static str; 3] = ["access_controller", "barrier", "turnstile"];

/// Name of a health level; a level never reported reads "尚未上报".
pub open spec fn health_label_spec(level: Seq<char>) -> Seq<char> {
    if level == "normal"@ {
        "正常"@
    } else if level == "warning"@ {
        "需要留意"@
    } else if level == "critical"@ {
        "已影响工作"@
    } else {
        "尚未上报"@
    }
}

/// Name of a health level.
pub fn health_label(level: &str) -> (r: &'static str)
    ensures
        r@ == health_label_spec(level@),
{
    if str_eq(level, HEALTH_NORMAL) {
        "正常"
    } else if str_eq(level, HEALTH_WARNING) {
        "需要留意"
    } else if str_eq(level, HEALTH_CRITICAL) {
        "已影响工作"
    } else {
        "尚未上报"
    }
}

/// Badge of a health level: only critical is marked as danger; a device
/// that has not reported yet is outlined, not red.
pub fn health_variant(level: &str) -> (r: BadgeVariant)
    ensures
        r == (if level@ == "normal"@ {
            BadgeVariant::Secondary
        } else if level@ == "critical"@ {
            BadgeVariant::Destructive
        } else {
            BadgeVariant::Outline
        }),
{
    if str_eq(level, HEALTH_NORMAL) {
        BadgeVariant::Secondary
    } else if str_eq(level, HEALTH_CRITICAL) {
        BadgeVariant::Destructive
    } else {
        BadgeVariant::Outline
    }
}

/// Whether someone has to look at a device: warning or critical.
pub fn health_needs_attention(level: &str) -> (r: bool)
    ensures
        r == (level@ == "warning"@ || level@ == "critical"@),
{
    str_eq(level, HEALTH_WARNING) || str_eq(level, HEALTH_CRITICAL)
}

/// "刚刚", "N 分钟", "N 小时" or "N 天" for the time from `since` to `now`;
/// a negative span (clock skew) reads as just now.
pub open spec fn elapsed_label_spec(since_micros: int, now_micros: int) -> Seq<char> {
    let diff = now_micros - since_micros;
    let seconds = (if diff > 0 { diff } else { 0 }) / 1_000_000;
    if seconds < 60 {
        "刚刚"@
    } else if seconds < 3600 {
        decimal((seconds / 60) as nat) + " 分钟"@
    } else if seconds < 86_400 {
        decimal((seconds / 3600) as nat) + " 小时"@
    } else {
        decimal((seconds / 86_400) as nat) + " 天"@
    }
}

/// Relative span such as "3 天", from two instants given in microseconds.
pub fn elapsed_label(since_micros: i64, now_micros: i64) -> (r: String)
    requires
        i64::MIN <= now_micros - since_micros <= i64::MAX,
    ensures
        r@ == elapsed_label_spec(since_micros as int, now_micros as int),
{
    let diff = now_micros - since_micros;
    let seconds = (if diff > 0 { diff } else { 0 }) / 1_000_000;
    if seconds < 60 {
        return String::from_str("刚刚");
    }
    let mut out = String::new();
    if seconds < 3_600 {
        push_decimal(&mut out, (seconds / 60) as u64);
        out.append(" 分钟");
    } else if seconds < 86_400 {
        push_decimal(&mut out, (seconds / 3_600) as u64);
        out.append(" 小时");
    } else {
        push_decimal(&mut out, (seconds / 86_400) as u64);
        out.append(" 天");
    }
    proof {
        assert(out@ =~= elapsed_label_spec(since_micros as int, now_micros as int));
    }
    out
}

/// Name of a device class.
pub fn class_label(device_class: &str) -> (r: &'static str)
    ensures
        r@ == (if device_class@ == "sensor"@ {
            "传感器"@
        } else if device_class@ == "actuator"@ {
            "执行终端"@
        } else {
            "未分类"@
        }),
{
    if str_eq(device_class, CLASS_SENSOR) {
        "传感器"
    } else if str_eq(device_class, CLASS_ACTUATOR) {
        "执行终端"
    } else {
        "未分类"
    }
}

/// Name of a device type, shown instead of the stored English key.
pub open spec fn device_type_label_spec(device_type: Seq<char>) -> Seq<char> {
    if device_type == "camera"@ {
        "摄像头"@
    } else if device_type == "access_controller"@ {
        "门禁一体机"@
    } else if device_type == "barrier"@ {
        "车辆道闸"@
    } else if device_type == "turnstile"@ {
        "人行闸机"@
    } else {
        "未知类型"@
    }
}

/// Name of a device type.
pub fn device_type_label(device_type: &str) -> (r: &'static str)
    ensures
        r@ == device_type_label_spec(device_type@),
{
    if str_eq(device_type, "camera") {
        "摄像头"
    } else if str_eq(device_type, "access_controller") {
        "门禁一体机"
    } else if str_eq(device_type, "barrier") {
        "车辆道闸"
    } else if str_eq(device_type, "turnstile") {
        "人行闸机"
    } else {
        "未知类型"
    }
}

/// Name of the building a device is in; 0 is the park's public area.
pub open spec fn factory_label_spec(factories: Seq<Factory>, factory_id: u64) -> Seq<char> {
    if factory_id == 0 {
        "园区公共区域"@
    } else {
        match first_match(factories, factory_with(factory_id)) {
            Some(i) => factories[i].factory_name@,
            None => "厂房 #"@ + decimal(factory_id as nat),
        }
    }
}

/// Name of the building a device is in.
pub fn factory_label(factories: &[Factory], factory_id: u64) -> (r: String)
    ensures
        r@ == factory_label_spec(factories@, factory_id),
{
    if factory_id == 0 {
        return String::from_str("园区公共区域");
    }
    match find_factory(factories, factory_id) {
        Some(i) => factories[i].factory_name.clone(),
        None => {
            let mut out = String::from_str("厂房 #");
            push_decimal(&mut out, factory_id);
            out
        },
    }
}

/// Name of the park a device is in.
pub fn park_label(parks: &[Park], park_id: u64) -> (r: String)
    ensures
        r@ == (match first_match(parks@, park_with(park_id)) {
            Some(i) => parks@[i].park_name@,
            None => "园区 #"@ + decimal(park_id as nat),
        }),
{
    match find_park(parks, park_id) {
        Some(i) => parks[i].park_name.clone(),
        None => {
            let mut out = String::from_str("园区 #");
            push_decimal(&mut out, park_id);
            out
        },
    }
}

/// One row of the overview: how many devices of a type there are, and how
/// many have a platform device id (without one, the row is a static ledger
/// entry with no live status).
#[derive(Clone, Debug)]
pub struct DeviceTypeRow {
    pub label: &'static str,
    pub total: usize,
    pub bound: usize,
    /// Page that manages this type; `None` when its ledger lives elsewhere.
    pub route: Option<&'static str>,
}

impl DeviceTypeRow {
    /// Devices of the row without a platform id.
    pub fn unbound(&self) -> (r: usize)
        ensures
            r == (if self.total >= self.bound { self.total - self.bound } else { 0 }),
    {
        if self.total >= self.bound { self.total - self.bound } else { 0 }
    }
}

/// Sum of the `total` column.
pub open spec fn total_of(rows: Seq<DeviceTypeRow>) -> int
    decreases rows.len(),
{
    if rows.len() == 0 { 0 } else { total_of(rows.drop_last()) + rows.last().total }
}

/// Sum of the `bound` column.
pub open spec fn bound_of(rows: Seq<DeviceTypeRow>) -> int
    decreases rows.len(),
{
    if rows.len() == 0 { 0 } else { bound_of(rows.drop_last()) + rows.last().bound }
}

proof fn lemma_sums_grow(rows: Seq<DeviceTypeRow>, i: int)
    requires
        0 <= i < rows.len(),
    ensures
        total_of(rows.take(i + 1)) == total_of(rows.take(i)) + rows[i].total,
        bound_of(rows.take(i + 1)) == bound_of(rows.take(i)) + rows[i].bound,
        total_of(rows.take(i)) >= 0,
        bound_of(rows.take(i)) >= 0,
{
    assert(rows.take(i + 1).drop_last() =~= rows.take(i));
    lemma_sums_nonneg(rows.take(i));
}

proof fn lemma_sums_nonneg(rows: Seq<DeviceTypeRow>)
    ensures
        total_of(rows) >= 0,
        bound_of(rows) >= 0,
    decreases rows.len(),
{
    if rows.len() > 0 {
        lemma_sums_nonneg(rows.drop_last());
    }
}

proof fn lemma_sums_prefix(rows: Seq<DeviceTypeRow>, i: int)
    requires
        0 <= i <= rows.len(),
    ensures
        total_of(rows.take(i)) <= total_of(rows),
        bound_of(rows.take(i)) <= bound_of(rows),
    decreases rows.len() - i,
{
    if i < rows.len() {
        lemma_sums_prefix(rows, i + 1);
        lemma_sums_grow(rows, i);
    } else {
        assert(rows.take(i) =~= rows);
    }
}

/// Sum of the `total` column of `rows`.
fn sum_totals(rows: &Vec<DeviceTypeRow>) -> (r: usize)
    requires
        total_of(rows@) <= usize::MAX,
    ensures
        r == total_of(rows@),
{
    let mut sum: usize = 0;
    let mut i: usize = 0;
    while i < rows.len()
        invariant
            0 <= i <= rows@.len(),
            total_of(rows@) <= usize::MAX,
            sum == total_of(rows@.take(i as int)),
        decreases rows@.len() - i,
    {
        proof {
            lemma_sums_grow(rows@, i as int);
            lemma_sums_prefix(rows@, i + 1);
        }
        sum = sum + rows[i].total;
        i = i + 1;
    }
    proof {
        assert(rows@.take(i as int) =~= rows@);
    }
    sum
}

/// Sum of the `bound` column of `rows`.
fn sum_bound(rows: &Vec<DeviceTypeRow>) -> (r: usize)
    requires
        bound_of(rows@) <= usize::MAX,
    ensures
        r == bound_of(rows@),
{
    let mut sum: usize = 0;
    let mut i: usize = 0;
    while i < rows.len()
        invariant
            0 <= i <= rows@.len(),
            bound_of(rows@) <= usize::MAX,
            sum == bound_of(rows@.take(i as int)),
        decreases rows@.len() - i,
    {
        proof {
            lemma_sums_grow(rows@, i as int);
            lemma_sums_prefix(rows@, i + 1);
        }
        sum = sum + rows[i].bound;
        i = i + 1;
    }
    proof {
        assert(rows@.take(i as int) =~= rows@);
    }
    sum
}

/// The two columns of the overview.
#[derive(Clone, Debug)]
pub struct DeviceSummary {
    pub sensors: Vec<DeviceTypeRow>,
    pub actuators: Vec<DeviceTypeRow>,
}

impl DeviceSummary {
    /// The column sums fit the machine word.
    pub open spec fn sums_fit(&self) -> bool {
        total_of(self.sensors@) + total_of(self.actuators@) <= usize::MAX
            && bound_of(self.sensors@) + bound_of(self.actuators@) <= usize::MAX
    }

    /// Devices in the sensor column.
    pub fn sensor_total(&self) -> (r: usize)
        requires
            self.sums_fit(),
        ensures
            r == total_of(self.sensors@),
    {
        proof {
            lemma_sums_nonneg(self.actuators@);
        }
        sum_totals(&self.sensors)
    }

    /// Devices in the actuator column.
    pub fn actuator_total(&self) -> (r: usize)
        requires
            self.sums_fit(),
        ensures
            r == total_of(self.actuators@),
    {
        proof {
            lemma_sums_nonneg(self.sensors@);
        }
        sum_totals(&self.actuators)
    }

    /// Devices in both columns.
    pub fn total(&self) -> (r: usize)
        requires
            self.sums_fit(),
        ensures
            r == total_of(self.sensors@) + total_of(self.actuators@),
    {
        self.sensor_total() + self.actuator_total()
    }

    /// Devices with a platform id in both columns.
    pub fn bound_total(&self) -> (r: usize)
        requires
            self.sums_fit(),
        ensures
            r == bound_of(self.sensors@) + bound_of(self.actuators@),
    {
        proof {
            lemma_sums_nonneg(self.sensors@);
            lemma_sums_nonneg(self.actuators@);
        }
        sum_bound(&self.sensors) + sum_bound(&self.actuators)
    }

    /// Share of devices with a platform id, in whole percent rounded down;
    /// 0 when there are no devices. Having an id means the status can be
    /// read, not that the device is online.
    pub fn bound_percent(&self) -> (r: usize)
        requires
            self.sums_fit(),
            (bound_of(self.sensors@) + bound_of(self.actuators@)) * 100 <= usize::MAX,
        ensures
            r == (if total_of(self.sensors@) + total_of(self.actuators@) == 0 {
                0
            } else {
                (bound_of(self.sensors@) + bound_of(self.actuators@)) * 100 / (total_of(self.sensors@)
                    + total_of(self.actuators@))
            }),
    {
        let total = self.total();
        if total == 0 {
            return 0;
        }
        self.bound_total() * 100 / total
    }
}

/// A platform device id is filled in: present and not blank.
pub open spec fn is_bound_id(external_device_id: Option<String>) -> bool {
    external_device_id matches Some(v) && !is_blank(v@)
}

/// Whether a platform device id is filled in; a blank one is not.
pub fn is_platform_bound(external_device_id: Option<&str>) -> (r: bool)
    ensures
        r == (external_device_id matches Some(v) && !is_blank(v@)),
{
    match external_device_id {
        Some(v) => !is_blank_str(v),
        None => false,
    }
}

pub open spec fn of_type(t: Seq<char>) -> spec_fn(DeviceAsset) -> bool {
    |d: DeviceAsset| d.device_type@ == t
}

pub open spec fn bound_of_type(t: Seq<char>) -> spec_fn(DeviceAsset) -> bool {
    |d: DeviceAsset| d.device_type@ == t && is_bound_id(d.external_device_id)
}

pub open spec fn meter_kind(is_electric: bool) -> spec_fn(UtilityMeter) -> bool {
    |m: UtilityMeter| m.is_electric == is_electric
}

pub open spec fn bound_meter_kind(is_electric: bool) -> spec_fn(UtilityMeter) -> bool {
    |m: UtilityMeter| m.is_electric == is_electric && is_bound_id(m.external_device_id)
}

fn option_text(v: &Option<String>) -> (r: Option<&str>)
    ensures
        match (r, *v) {
            (Some(a), Some(b)) => a@ == b@,
            (None, None) => true,
            _ => false,
        },
{
    match v {
        Some(s) => Some(s.as_str()),
        None => None,
    }
}

/// The overview row of one device type.
fn type_row(devices: &[DeviceAsset], device_type: &'static str, route: Option<&'static str>) -> (r: DeviceTypeRow)
    ensures
        r.label@ == device_type_label_spec(device_type@),
        r.total == count(devices@, of_type(device_type@)),
        r.bound == count(devices@, bound_of_type(device_type@)),
        r.route == route,
{
    let ghost pt = of_type(device_type@);
    let ghost pb = bound_of_type(device_type@);
    let mut total: usize = 0;
    let mut bound: usize = 0;
    let mut i: usize = 0;
    while i < devices.len()
        invariant
            pt == of_type(device_type@),
            pb == bound_of_type(device_type@),
            0 <= i <= devices@.len(),
            total == count(devices@.take(i as int), pt),
            bound == count(devices@.take(i as int), pb),
            bound <= total <= i,
        decreases devices@.len() - i,
    {
        proof {
            lemma_count_step(devices@, pt, i as int);
            lemma_count_step(devices@, pb, i as int);
        }
        let row = &devices[i];
        if str_eq(row.device_type.as_str(), device_type) {
            total = total + 1;
            if is_platform_bound(option_text(&row.external_device_id)) {
                bound = bound + 1;
            }
        }
        i = i + 1;
    }
    proof {
        lemma_take_all(devices@);
    }
    DeviceTypeRow { label: device_type_label(device_type), total, bound, route }
}

/// The overview row of the electricity or water meters.
fn meter_row(meters: &[UtilityMeter], label: &'static str, is_electric: bool) -> (r: DeviceTypeRow)
    ensures
        r.label == label,
        r.total == count(meters@, meter_kind(is_electric)),
        r.bound == count(meters@, bound_meter_kind(is_electric)),
        r.route == Some("/smart-meter/meter"),
{
    let ghost pt = meter_kind(is_electric);
    let ghost pb = bound_meter_kind(is_electric);
    let mut total: usize = 0;
    let mut bound: usize = 0;
    let mut i: usize = 0;
    while i < meters.len()
        invariant
            pt == meter_kind(is_electric),
            pb == bound_meter_kind(is_electric),
            0 <= i <= meters@.len(),
            total == count(meters@.take(i as int), pt),
            bound == count(meters@.take(i as int), pb),
            bound <= total <= i,
        decreases meters@.len() - i,
    {
        proof {
            lemma_count_step(meters@, pt, i as int);
            lemma_count_step(meters@, pb, i as int);
        }
        let row = &meters[i];
        if row.is_electric == is_electric {
            total = total + 1;
            if is_platform_bound(option_text(&row.external_device_id)) {
                bound = bound + 1;
            }
        }
        i = i + 1;
    }
    proof {
        lemma_take_all(meters@);
    }
    DeviceTypeRow { label, total, bound, route: Some("/smart-meter/meter") }
}

/// The overview row of a device type, as `summarize_devices` makes it.
pub open spec fn is_type_row(r: DeviceTypeRow, devices: Seq<DeviceAsset>, device_type: Seq<char>, route: Seq<char>) -> bool {
    &&& r.label@ == device_type_label_spec(device_type)
    &&& r.total == count(devices, of_type(device_type))
    &&& r.bound == count(devices, bound_of_type(device_type))
    &&& r.route matches Some(x) && x@ == route
}

/// The overview row of a kind of meter, as `summarize_devices` makes it.
pub open spec fn is_meter_row(r: DeviceTypeRow, meters: Seq<UtilityMeter>, label: Seq<char>, is_electric: bool) -> bool {
    &&& r.label@ == label
    &&& r.total == count(meters, meter_kind(is_electric))
    &&& r.bound == count(meters, bound_meter_kind(is_electric))
    &&& r.route matches Some(x) && x@ == "/smart-meter/meter"@
}

/// The sensor and actuator columns of the device overview. Meters come
/// from their own table but count as sensors, next to the cameras; the
/// actuator column has one row per access-control type.
pub fn summarize_devices(devices: &[DeviceAsset], meters: &[UtilityMeter]) -> (r: DeviceSummary)
    ensures
        r.sensors@.len() == 3,
        is_meter_row(r.sensors@[0], meters@, "电表"@, true),
        is_meter_row(r.sensors@[1], meters@, "水表"@, false),
        r.sensors@[0].total == count(meters@, |m: UtilityMeter| m.is_electric),
        r.sensors@[1].total == count(meters@, |m: UtilityMeter| !m.is_electric),
        r.sensors@[0].total + r.sensors@[1].total == meters@.len(),
        r.sensors@[0].bound == count(meters@, |m: UtilityMeter| m.is_electric && is_bound_id(m.external_device_id)),
        r.sensors@[1].bound == count(meters@, |m: UtilityMeter| !m.is_electric && is_bound_id(m.external_device_id)),
        is_type_row(r.sensors@[2], devices@, "camera"@, "/device/camera"@),
        r.actuators@.len() == 3,
        is_type_row(r.actuators@[0], devices@, "access_controller"@, "/device/access"@),
        is_type_row(r.actuators@[1], devices@, "barrier"@, "/device/access"@),
        is_type_row(r.actuators@[2], devices@, "turnstile"@, "/device/access"@),
{
    proof {
        lemma_meter_rows(meters@);
    }
    let mut sensors: Vec<DeviceTypeRow> = Vec::new();
    sensors.push(meter_row(meters, "电表", true));
    sensors.push(meter_row(meters, "水表", false));
    sensors.push(type_row(devices, "camera", Some("/device/camera")));
    let mut actuators: Vec<DeviceTypeRow> = Vec::new();
    actuators.push(type_row(devices, "access_controller", Some("/device/access")));
    actuators.push(type_row(devices, "barrier", Some("/device/access")));
    actuators.push(type_row(devices, "turnstile", Some("/device/access")));
    DeviceSummary { sensors, actuators }
}

/// The 电表 row counts the electricity meters (`is_electric`) and the 水表
/// row the water meters (not `is_electric`); together they count every
/// meter once, and each row's bound meters are bound meters of its kind.
pub proof fn lemma_meter_rows(meters: Seq<UtilityMeter>)
    ensures
        count(meters, meter_kind(true)) == count(meters, |m: UtilityMeter| m.is_electric),
        count(meters, meter_kind(false)) == count(meters, |m: UtilityMeter| !m.is_electric),
        count(meters, meter_kind(true)) + count(meters, meter_kind(false)) == meters.len(),
        count(meters, bound_meter_kind(true)) == count(
            meters,
            |m: UtilityMeter| m.is_electric && is_bound_id(m.external_device_id),
        ),
        count(meters, bound_meter_kind(false)) == count(
            meters,
            |m: UtilityMeter| !m.is_electric && is_bound_id(m.external_device_id),
        ),
{
    assert(meter_kind(true) =~= |m: UtilityMeter| m.is_electric);
    assert(meter_kind(false) =~= |m: UtilityMeter| !m.is_electric);
    assert(bound_meter_kind(true) =~= |m: UtilityMeter| m.is_electric && is_bound_id(m.external_device_id));
    assert(bound_meter_kind(false) =~= |m: UtilityMeter| !m.is_electric && is_bound_id(m.external_device_id));
    lemma_count_complement(meters, meter_kind(true), meter_kind(false));
}

/// Devices with a platform id are among the devices: in every row of the
/// overview the bound count is at most the row's total.
pub proof fn lemma_bound_within_total(devices: Seq<DeviceAsset>, meters: Seq<UtilityMeter>, device_type: Seq<char>, is_electric: bool)
    ensures
        count(devices, bound_of_type(device_type)) <= count(devices, of_type(device_type)),
        count(meters, bound_meter_kind(is_electric)) <= count(meters, meter_kind(is_electric)),
{
    lemma_count_implies(devices, bound_of_type(device_type), of_type(device_type));
    lemma_count_implies(meters, bound_meter_kind(is_electric), meter_kind(is_electric));
}

proof fn lemma_column_within(rows: Seq<DeviceTypeRow>)
    requires
        forall|i: int| 0 <= i < rows.len() ==> (#[trigger] rows[i]).bound <= rows[i].total,
    ensures
        bound_of(rows) <= total_of(rows),
    decreases rows.len(),
{
    if rows.len() > 0 {
        lemma_column_within(rows.drop_last());
        assert(rows.last() == rows[rows.len() - 1]);
    }
}

/// The share of devices with a platform id never exceeds 100%: for any
/// columns whose rows count no more bound devices than devices, as the
/// overview's rows do.
pub proof fn lemma_bound_share(summary: DeviceSummary)
    requires
        forall|i: int| 0 <= i < summary.sensors@.len() ==> (#[trigger] summary.sensors@[i]).bound <= summary.sensors@[i].total,
        forall|i: int| 0 <= i < summary.actuators@.len() ==> (#[trigger] summary.actuators@[i]).bound <= summary.actuators@[i].total,
    ensures
        bound_of(summary.sensors@) + bound_of(summary.actuators@) <= total_of(summary.sensors@) + total_of(summary.actuators@),
        total_of(summary.sensors@) + total_of(summary.actuators@) > 0 ==> (bound_of(summary.sensors@) + bound_of(summary.actuators@)) * 100 / (total_of(summary.sensors@) + total_of(summary.actuators@)) <= 100,
{
    lemma_column_within(summary.sensors@);
    lemma_column_within(summary.actuators@);
    lemma_sums_nonneg(summary.sensors@);
    lemma_sums_nonneg(summary.actuators@);
    let b = bound_of(summary.sensors@) + bound_of(summary.actuators@);
    let t = total_of(summary.sensors@) + total_of(summary.actuators@);
    if t > 0 {
        assert(b * 100 / t <= 100) by (nonlinear_arith)
            requires
                0 <= b <= t,
                t > 0,
        {
            assert(b * 100 <= t * 100);
            assert(b * 100 / t <= t * 100 / t);
        }
    }
}

/// The camera page and the access page register different device types:
/// no type is on both lists, so no device can be entered from both pages.
pub proof fn lemma_ledger_types_disjoint()
    ensures
        forall|i: int, j: int|
            0 <= i < SENSOR_TYPES@.len() && 0 <= j < ACTUATOR_TYPES@.len() ==> (#[trigger] SENSOR_TYPES@[i])@
                != (#[trigger] ACTUATOR_TYPES@[j])@,
{
    reveal_strlit("camera");
    reveal_strlit("access_controller");
    reveal_strlit("barrier");
    reveal_strlit("turnstile");
    assert(SENSOR_TYPES@ =~= seq!["camera"]);
    assert(ACTUATOR_TYPES@ =~= seq!["access_controller", "barrier", "turnstile"]);
    assert("camera"@ != "access_controller"@) by {
        assert("camera"@.len() != "access_controller"@.len());
    }
    assert("camera"@ != "barrier"@) by {
        assert("camera"@.len() != "barrier"@.len());
    }
    assert("camera"@ != "turnstile"@) by {
        assert("camera"@.len() != "turnstile"@.len());
    }
    assert forall|i: int, j: int|
        0 <= i < SENSOR_TYPES@.len() && 0 <= j < ACTUATOR_TYPES@.len() implies (#[trigger] SENSOR_TYPES@[i])@
            != (#[trigger] ACTUATOR_TYPES@[j])@ by {
        assert(i == 0);
        assert(SENSOR_TYPES@[i] == "camera");
        if j == 0 {
            assert(ACTUATOR_TYPES@[j] == "access_controller");
        } else if j == 1 {
            assert(ACTUATOR_TYPES@[j] == "barrier");
        } else {
            assert(ACTUATOR_TYPES@[j] == "turnstile");
        }
    }
}

} // verus!
