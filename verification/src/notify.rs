//! Notification settings, and the alerts that a report can raise.
use crate::clock::Moment;
use crate::db::{UpsertResult, UpsertView};
use crate::quantity;
use crate::quantity::Quantity;
use vstd::hash_map::StringHashMap;
use vstd::prelude::*;
use vstd::string::*;

verus! {

// Settings

/// Where to send alerts, and when.
#[derive(Debug)]
pub struct NotifySettings {
    pub telegram_enabled: bool,
    pub telegram_bot_token: String,
    pub telegram_chat_id: String,
    pub webhook_enabled: bool,
    pub webhook_url: String,
    pub offline_minutes: i64,
    pub cpu_threshold: Quantity,
    pub mem_threshold: Quantity,
}

/// The contents of [`NotifySettings`].
#[verifier::ext_equal]
pub struct SettingsView {
    pub telegram_enabled: bool,
    pub telegram_bot_token: Seq<char>,
    pub telegram_chat_id: Seq<char>,
    pub webhook_enabled: bool,
    pub webhook_url: Seq<char>,
    pub offline_minutes: i64,
    pub cpu_threshold: Quantity,
    pub mem_threshold: Quantity,
}

impl View for NotifySettings {
    type V = SettingsView;

    open spec fn view(&self) -> SettingsView {
        SettingsView {
            telegram_enabled: self.telegram_enabled,
            telegram_bot_token: self.telegram_bot_token@,
            telegram_chat_id: self.telegram_chat_id@,
            webhook_enabled: self.webhook_enabled,
            webhook_url: self.webhook_url@,
            offline_minutes: self.offline_minutes,
            cpu_threshold: self.cpu_threshold,
            mem_threshold: self.mem_threshold,
        }
    }
}

impl Clone for NotifySettings {
    fn clone(&self) -> (res: NotifySettings)
        ensures
            res@ == self@,
    {
        NotifySettings {
            telegram_enabled: self.telegram_enabled,
            telegram_bot_token: self.telegram_bot_token.clone(),
            telegram_chat_id: self.telegram_chat_id.clone(),
            webhook_enabled: self.webhook_enabled,
            webhook_url: self.webhook_url.clone(),
            offline_minutes: self.offline_minutes,
            cpu_threshold: self.cpu_threshold,
            mem_threshold: self.mem_threshold,
        }
    }
}

/// Settings under which nothing is sent and nothing is watched.
pub open spec fn silent_settings() -> SettingsView {
    SettingsView {
        telegram_enabled: false,
        telegram_bot_token: Seq::empty(),
        telegram_chat_id: Seq::empty(),
        webhook_enabled: false,
        webhook_url: Seq::empty(),
        offline_minutes: 0,
        cpu_threshold: Quantity::spec_zero(),
        mem_threshold: Quantity::spec_zero(),
    }
}

/// The settings of a server on which none were saved: nothing is sent, machines count as
/// offline after five minutes, and both thresholds are at ninety percent.
pub open spec fn initial_settings() -> SettingsView {
    SettingsView {
        offline_minutes: 5,
        cpu_threshold: Quantity { bits: quantity::NINETY_BITS },
        mem_threshold: Quantity { bits: quantity::NINETY_BITS },
        ..silent_settings()
    }
}

impl Default for NotifySettings {
    fn default() -> (res: NotifySettings)
        ensures
            res@ == silent_settings(),
    {
        NotifySettings {
            telegram_enabled: false,
            telegram_bot_token: String::new(),
            telegram_chat_id: String::new(),
            webhook_enabled: false,
            webhook_url: String::new(),
            offline_minutes: 0,
            cpu_threshold: Quantity::zero(),
            mem_threshold: Quantity::zero(),
        }
    }
}

/// The settings that a stored text decodes to; silent ones when it does not decode.
pub open spec fn decoded_settings(decoded: Option<NotifySettings>) -> SettingsView {
    match decoded {
        Some(settings) => settings@,
        None => silent_settings(),
    }
}

impl NotifySettings {
    /// The settings that a JSON text stands for, given what decoding the text gave.
    pub fn from_json(decoded: Option<NotifySettings>) -> (res: NotifySettings)
        ensures
            res@ == decoded_settings(decoded),
            decoded matches Some(settings) ==> res == settings,
    {
        match decoded {
            Some(settings) => settings,
            None => NotifySettings::default(),
        }
    }

    /// The JSON text to store, given what encoding the settings gave.
    pub fn to_json(encoded: Option<String>) -> (res: String)
        ensures
            encoded matches Some(json) ==> res@ == json@,
            encoded is None ==> res@ == "{}"@,
    {
        match encoded {
            Some(json) => json,
            None => "{}".to_owned(),
        }
    }
}

/// The settings in force: `stored` holds what the stored text decoded to, if one is stored.
pub fn load_settings(stored: Option<Option<NotifySettings>>) -> (res: NotifySettings)
    ensures
        res@ == match stored {
            Some(decoded) => decoded_settings(decoded),
            None => initial_settings(),
        },
        stored matches Some(Some(settings)) ==> res == settings,
{
    match stored {
        Some(decoded) => NotifySettings::from_json(decoded),
        None => {
            let mut settings = NotifySettings::default();
            settings.offline_minutes = 5;
            settings.cpu_threshold = Quantity::ninety();
            settings.mem_threshold = Quantity::ninety();
            settings
        },
    }
}

// Alerts

/// An alert as it is sent.
#[derive(Debug)]
pub struct AlertPayload {
    pub title: String,
    pub message: String,
    pub server_id: String,
    pub server_name: String,
    pub alert_type: String,
    pub level: String,
    pub value: Quantity,
    pub limit: Quantity,
    pub timestamp: String,
}

/// The contents of an [`AlertPayload`].
#[verifier::ext_equal]
pub struct AlertView {
    pub title: Seq<char>,
    pub message: Seq<char>,
    pub server_id: Seq<char>,
    pub server_name: Seq<char>,
    pub alert_type: Seq<char>,
    pub level: Seq<char>,
    pub value: Quantity,
    pub limit: Quantity,
    pub timestamp: Seq<char>,
}

impl View for AlertPayload {
    type V = AlertView;

    open spec fn view(&self) -> AlertView {
        AlertView {
            title: self.title@,
            message: self.message@,
            server_id: self.server_id@,
            server_name: self.server_name@,
            alert_type: self.alert_type@,
            level: self.level@,
            value: self.value,
            limit: self.limit,
            timestamp: self.timestamp@,
        }
    }
}

/// The contents of an optional alert.
pub open spec fn opt_alert(alert: Option<AlertPayload>) -> Option<AlertView> {
    match alert {
        Some(a) => Some(a@),
        None => None,
    }
}

/// What a report can raise an alert about.
#[derive(Clone, Copy, Debug, PartialEq, Eq, Structural)]
pub enum AlertKind {
    Cpu,
    Memory,
    Traffic,
}

/// The checks that follow a report, in order.
pub fn report_checks() -> (res: Vec<AlertKind>)
    ensures
        res@ == seq![AlertKind::Cpu, AlertKind::Memory, AlertKind::Traffic],
{
    let mut kinds: Vec<AlertKind> = Vec::new();
    kinds.push(AlertKind::Cpu);
    kinds.push(AlertKind::Memory);
    kinds.push(AlertKind::Traffic);
    kinds
}

// Cooldown

/// How long, in nanoseconds, a condition that persists keeps quiet after an alert: 30 minutes.
pub const ALERT_COOLDOWN: u128 = 1_800_000_000_000;

/// When each machine last had an alert of each kind, on a clock that counts nanoseconds from
/// some fixed point.
pub struct Cooldowns {
    cpu: StringHashMap<u128>,
    memory: StringHashMap<u128>,
    traffic: StringHashMap<u128>,
}

/// An alert is due again: there was none, or the last one lies a cooldown back.
pub open spec fn cooled(last: Map<Seq<char>, u128>, id: Seq<char>, tick: u128) -> bool {
    !last.contains_key(id) || tick >= last[id] + ALERT_COOLDOWN
}

impl Cooldowns {
    /// The last alert times of one kind, by machine.
    pub closed spec fn of(self, kind: AlertKind) -> Map<Seq<char>, u128> {
        match kind {
            AlertKind::Cpu => self.cpu@,
            AlertKind::Memory => self.memory@,
            AlertKind::Traffic => self.traffic@,
        }
    }

    /// No alert has been sent yet.
    pub fn new() -> (res: Cooldowns)
        ensures
            forall|kind: AlertKind| #[trigger] res.of(kind) == Map::<Seq<char>, u128>::empty(),
    {
        Cooldowns {
            cpu: StringHashMap::new(),
            memory: StringHashMap::new(),
            traffic: StringHashMap::new(),
        }
    }

    fn last(&self, id: &str, kind: AlertKind) -> (res: Option<u128>)
        ensures
            res is Some <==> self.of(kind).contains_key(id@),
            res matches Some(t) ==> self.of(kind)[id@] == t,
    {
        let found = match kind {
            AlertKind::Cpu => self.cpu.get(id),
            AlertKind::Memory => self.memory.get(id),
            AlertKind::Traffic => self.traffic.get(id),
        };
        match found {
            Some(t) => Some(*t),
            None => None,
        }
    }
}

/// Tells whether an alert may go out, and if so notes that it does. While a machine stays
/// above a threshold it raises one alert of a kind per cooldown.
pub fn cooled_down(cooldowns: &mut Cooldowns, id: &str, kind: AlertKind, tick: u128) -> (res: bool)
    ensures
        res == cooled(old(cooldowns).of(kind), id@, tick),
        final(cooldowns).of(kind) == if res {
            old(cooldowns).of(kind).insert(id@, tick)
        } else {
            old(cooldowns).of(kind)
        },
        forall|other: AlertKind|
            other != kind ==> #[trigger] final(cooldowns).of(other) == old(cooldowns).of(other),
{
    let hot = match cooldowns.last(id, kind) {
        Some(t) => tick < t || tick - t < ALERT_COOLDOWN,
        None => false,
    };
    if hot {
        return false;
    }
    match kind {
        AlertKind::Cpu => cooldowns.cpu.insert(id.to_owned(), tick),
        AlertKind::Memory => cooldowns.memory.insert(id.to_owned(), tick),
        AlertKind::Traffic => cooldowns.traffic.insert(id.to_owned(), tick),
    }
    true
}

// Alerts of a report

/// A share that is to be computed, in percent: `part`, with `more` added to it where there is
/// more, divided by `whole` and multiplied by a hundred.
#[derive(Clone, Copy, Debug, PartialEq, Eq, Structural)]
pub struct Share {
    pub part: Quantity,
    pub more: Option<Quantity>,
    pub whole: Quantity,
}

impl Share {
    /// What native arithmetic can make of the sum that is shared.
    pub open spec fn sums_to(self, total: Quantity) -> bool {
        match self.more {
            Some(more) => total.is_sum(self.part, more),
            None => total == self.part,
        }
    }

    /// `pct` is what native arithmetic can make of the share, of a whole above zero, rounding
    /// after each operation.
    pub open spec fn evaluates_to(self, pct: Quantity) -> bool {
        exists|total: Quantity, quotient: Quantity|
            {
                &&& #[trigger] self.sums_to(total)
                &&& #[trigger] quotient.is_quotient(total, self.whole)
                &&& pct.is_hundredfold(quotient)
            }
    }
}

/// The share of its memory that a machine uses.
pub open spec fn memory_share_of(report: UpsertView) -> Share {
    Share { part: report.mem_used, more: None, whole: report.mem_total }
}

/// The share of its allowance that the traffic of a machine has reached, both ways together.
pub open spec fn traffic_share_of(report: UpsertView) -> Share {
    Share { part: report.cum_in, more: Some(report.cum_out), whole: report.traffic_limit }
}

/// The share of its memory that a machine uses.
pub fn memory_share(report: &UpsertResult) -> (res: Share)
    ensures
        res == memory_share_of(report@),
{
    Share { part: report.mem_used, more: None, whole: report.mem_total }
}

/// The share of its allowance that the traffic of a machine has reached, both ways together.
pub fn traffic_share(report: &UpsertResult) -> (res: Share)
    ensures
        res == traffic_share_of(report@),
{
    Share { part: report.cum_in, more: Some(report.cum_out), whole: report.traffic_limit }
}

/// What the alert checks look at after a report.
#[derive(Debug)]
pub struct ReportReadings {
    pub server_id: String,
    pub server_name: String,
    /// CPU use in percent.
    pub cpu: Quantity,
    /// Memory in gigabytes.
    pub mem_total: Quantity,
    /// The value of the [`memory_share`], narrowed to single precision.
    pub mem_pct: Quantity,
    /// Traffic allowance in gigabytes.
    pub traffic_limit: Quantity,
    /// The share of the allowance at which to notify, in percent.
    pub traffic_notify_percent: Quantity,
    /// The value of the [`traffic_share`].
    pub traffic_pct: Quantity,
    pub wording: Wording,
}

/// The figures of a report as they are written in messages.
#[derive(Debug)]
pub struct Wording {
    /// CPU use, with one decimal.
    pub cpu: String,
    /// The CPU threshold, without decimals.
    pub cpu_threshold: String,
    /// Memory use, with one decimal.
    pub mem_pct: String,
    /// The memory threshold, without decimals.
    pub mem_threshold: String,
    /// Traffic in percent, with one decimal.
    pub traffic_pct: String,
    /// Traffic in gigabytes, with two decimals.
    pub traffic_total: String,
    /// The traffic allowance, without decimals.
    pub traffic_limit: String,
}

/// The readings of a report that was taken in, with the values of its shares.
pub fn report_readings(
    report: &UpsertResult,
    mem_pct: Quantity,
    traffic_pct: Quantity,
    wording: Wording,
) -> (res: ReportReadings)
    ensures
        res.server_id@ == report.id@,
        res.server_name@ == report.name@,
        res.cpu == report.cpu,
        res.mem_total == report.mem_total,
        res.mem_pct == mem_pct,
        res.traffic_limit == report.traffic_limit,
        res.traffic_notify_percent == report.traffic_notify_percent,
        res.traffic_pct == traffic_pct,
        res.wording == wording,
{
    ReportReadings {
        server_id: report.id.clone(),
        server_name: report.name.clone(),
        cpu: report.cpu,
        mem_total: report.mem_total,
        mem_pct,
        traffic_limit: report.traffic_limit,
        traffic_notify_percent: report.traffic_notify_percent,
        traffic_pct,
        wording,
    }
}

/// A report gives cause for an alert of a kind.
pub open spec fn alert_due(kind: AlertKind, settings: SettingsView, readings: ReportReadings) -> bool {
    let zero = Quantity::spec_zero();
    match kind {
        AlertKind::Cpu => settings.cpu_threshold.above(zero) && readings.cpu.at_least(
            settings.cpu_threshold,
        ),
        AlertKind::Memory => settings.mem_threshold.above(zero) && readings.mem_total.above(zero)
            && readings.mem_pct.at_least(settings.mem_threshold),
        AlertKind::Traffic => readings.traffic_limit.above(zero)
            && readings.traffic_notify_percent.above(zero) && readings.traffic_pct.at_least(
            readings.traffic_notify_percent,
        ),
    }
}

/// The message of an alert.
pub open spec fn alert_message(kind: AlertKind, readings: ReportReadings) -> Seq<char> {
    let name = readings.server_name@;
    let w = readings.wording;
    match kind {
        AlertKind::Cpu => name + " CPU 使用率 "@ + w.cpu@ + "%（閾值 "@ + w.cpu_threshold@
            + "%）"@,
        AlertKind::Memory => name + " 記憶體使用率 "@ + w.mem_pct@ + "%（閾值 "@
            + w.mem_threshold@ + "%）"@,
        AlertKind::Traffic => name + " 累計流量已達 "@ + w.traffic_pct@ + "%（"@
            + w.traffic_total@ + " GB / "@ + w.traffic_limit@ + " GB）"@,
    }
}

/// The alert of a kind that a report raises. Traffic beyond the whole allowance is critical,
/// everything else is a warning.
pub open spec fn alert_for(
    kind: AlertKind,
    settings: SettingsView,
    readings: ReportReadings,
    timestamp: Seq<char>,
) -> AlertView {
    AlertView {
        title: match kind {
            AlertKind::Cpu => "CPU 告警"@,
            AlertKind::Memory => "記憶體告警"@,
            AlertKind::Traffic => "流量告警"@,
        },
        message: alert_message(kind, readings),
        server_id: readings.server_id@,
        server_name: readings.server_name@,
        alert_type: match kind {
            AlertKind::Cpu => "cpu"@,
            AlertKind::Memory => "memory"@,
            AlertKind::Traffic => "traffic"@,
        },
        level: if kind == AlertKind::Traffic && readings.traffic_pct.at_least(
            Quantity { bits: quantity::HUNDRED_BITS },
        ) {
            "critical"@
        } else {
            "warning"@
        },
        value: match kind {
            AlertKind::Cpu => readings.cpu,
            AlertKind::Memory => readings.mem_pct,
            AlertKind::Traffic => readings.traffic_pct,
        },
        limit: match kind {
            AlertKind::Cpu => settings.cpu_threshold,
            AlertKind::Memory => settings.mem_threshold,
            AlertKind::Traffic => readings.traffic_limit,
        },
        timestamp,
    }
}

fn is_due(kind: AlertKind, settings: &NotifySettings, readings: &ReportReadings) -> (res: bool)
    ensures
        res == alert_due(kind, settings@, *readings),
{
    let zero = Quantity::zero();
    match kind {
        AlertKind::Cpu => settings.cpu_threshold.above(zero) && readings.cpu.at_least(
            settings.cpu_threshold,
        ),
        AlertKind::Memory => settings.mem_threshold.above(zero) && readings.mem_total.above(zero)
            && readings.mem_pct.at_least(settings.mem_threshold),
        AlertKind::Traffic => readings.traffic_limit.above(zero)
            && readings.traffic_notify_percent.above(zero) && readings.traffic_pct.at_least(
            readings.traffic_notify_percent,
        ),
    }
}

fn message_of(kind: AlertKind, readings: &ReportReadings) -> (res: String)
    ensures
        res@ == alert_message(kind, *readings),
{
    let w = &readings.wording;
    let mut message = readings.server_name.clone();
    match kind {
        AlertKind::Cpu => {
            message.append(" CPU 使用率 ");
            message.append(w.cpu.as_str());
            message.append("%（閾值 ");
            message.append(w.cpu_threshold.as_str());
            message.append("%）");
        },
        AlertKind::Memory => {
            message.append(" 記憶體使用率 ");
            message.append(w.mem_pct.as_str());
            message.append("%（閾值 ");
            message.append(w.mem_threshold.as_str());
            message.append("%）");
        },
        AlertKind::Traffic => {
            message.append(" 累計流量已達 ");
            message.append(w.traffic_pct.as_str());
            message.append("%（");
            message.append(w.traffic_total.as_str());
            message.append(" GB / ");
            message.append(w.traffic_limit.as_str());
            message.append(" GB）");
        },
    }
    message
}

fn alert_of(
    kind: AlertKind,
    settings: &NotifySettings,
    readings: &ReportReadings,
    timestamp: &str,
) -> (res: AlertPayload)
    ensures
        res@ == alert_for(kind, settings@, *readings, timestamp@),
{
    let (title, alert_type, value, limit) = match kind {
        AlertKind::Cpu => ("CPU 告警", "cpu", readings.cpu, settings.cpu_threshold),
        AlertKind::Memory => (
            "記憶體告警",
            "memory",
            readings.mem_pct,
            settings.mem_threshold,
        ),
        AlertKind::Traffic => (
            "流量告警",
            "traffic",
            readings.traffic_pct,
            readings.traffic_limit,
        ),
    };
    let level = match kind {
        AlertKind::Traffic => if readings.traffic_pct.at_least(Quantity::hundred()) {
            "critical"
        } else {
            "warning"
        },
        _ => "warning",
    };
    AlertPayload {
        title: title.to_owned(),
        message: message_of(kind, readings),
        server_id: readings.server_id.clone(),
        server_name: readings.server_name.clone(),
        alert_type: alert_type.to_owned(),
        level: level.to_owned(),
        value,
        limit,
        timestamp: timestamp.to_owned(),
    }
}

/// Makes one of the checks that follow a report, for an alert that would carry the given
/// timestamp. An alert goes out when there is cause for it and the last one of its kind on
/// this machine has cooled down; only then does the cooldown start anew.
pub fn report_alert(
    cooldowns: &mut Cooldowns,
    settings: &NotifySettings,
    readings: &ReportReadings,
    kind: AlertKind,
    timestamp: &str,
    tick: u128,
) -> (res: Option<AlertPayload>)
    ensures
        ({
            let id = readings.server_id@;
            let sent = alert_due(kind, settings@, *readings) && cooled(
                old(cooldowns).of(kind),
                id,
                tick,
            );
            &&& opt_alert(res) == if sent {
                Some(alert_for(kind, settings@, *readings, timestamp@))
            } else {
                None
            }
            &&& final(cooldowns).of(kind) == if sent {
                old(cooldowns).of(kind).insert(id, tick)
            } else {
                old(cooldowns).of(kind)
            }
        }),
        forall|other: AlertKind|
            other != kind ==> #[trigger] final(cooldowns).of(other) == old(cooldowns).of(other),
{
    if is_due(kind, settings, readings) && cooled_down(
        cooldowns,
        readings.server_id.as_str(),
        kind,
        tick,
    ) {
        Some(alert_of(kind, settings, readings, timestamp))
    } else {
        None
    }
}

/// Makes one of the checks that follow a report taken in at `now`; see [`report_alert`].
pub fn check_report_alerts(
    cooldowns: &mut Cooldowns,
    settings: &NotifySettings,
    readings: &ReportReadings,
    kind: AlertKind,
    now: Moment,
    tick: u128,
) -> (res: Option<AlertPayload>)
    ensures
        ({
            let id = readings.server_id@;
            let sent = alert_due(kind, settings@, *readings) && cooled(
                old(cooldowns).of(kind),
                id,
                tick,
            );
            &&& opt_alert(res) == if sent {
                Some(alert_for(kind, settings@, *readings, now.text()))
            } else {
                None
            }
            &&& final(cooldowns).of(kind) == if sent {
                old(cooldowns).of(kind).insert(id, tick)
            } else {
                old(cooldowns).of(kind)
            }
        }),
        forall|other: AlertKind|
            other != kind ==> #[trigger] final(cooldowns).of(other) == old(cooldowns).of(other),
{
    let timestamp = now.to_rfc3339();
    report_alert(cooldowns, settings, readings, kind, timestamp.as_str(), tick)
}

// Laws

/// One of the checks that follow reports: of a kind, on a machine, at a tick, and whether there
/// was cause for an alert.
pub struct Check {
    pub kind: AlertKind,
    pub id: Seq<char>,
    pub tick: u128,
    pub due: bool,
}

/// When the last alerts of a kind went out, after any checks on any machines.
pub open spec fn last_after(last: Map<Seq<char>, u128>, kind: AlertKind, checks: Seq<Check>) -> Map<
    Seq<char>,
    u128,
>
    decreases checks.len(),
{
    if checks.len() == 0 {
        last
    } else {
        let before = last_after(last, kind, checks.drop_last());
        let check = checks.last();
        if check.kind == kind && check.due && cooled(before, check.id, check.tick) {
            before.insert(check.id, check.tick)
        } else {
            before
        }
    }
}

/// Among the given checks, the one at `i` sent an alert of a kind on a machine.
pub open spec fn sent_at(
    last: Map<Seq<char>, u128>,
    kind: AlertKind,
    id: Seq<char>,
    checks: Seq<Check>,
    i: int,
) -> bool {
    &&& checks[i].kind == kind
    &&& checks[i].id == id
    &&& checks[i].due
    &&& cooled(last_after(last, kind, checks.take(i)), id, checks[i].tick)
}

proof fn lemma_last_is_latest(
    last: Map<Seq<char>, u128>,
    kind: AlertKind,
    id: Seq<char>,
    checks: Seq<Check>,
    i: int,
    n: int,
)
    requires
        0 <= i < n <= checks.len(),
        sent_at(last, kind, id, checks, i),
    ensures
        last_after(last, kind, checks.take(n)).contains_key(id),
        last_after(last, kind, checks.take(n))[id] >= checks[i].tick,
    decreases n,
{
    assert(checks.take(n).drop_last() =~= checks.take(n - 1));
    assert(checks.take(n).last() == checks[n - 1]);
    if n - 1 > i {
        lemma_last_is_latest(last, kind, id, checks, i, n - 1);
    }
}

/// However often there is cause, and whatever is checked in between, two alerts of a kind on one
/// machine lie a cooldown apart.
pub proof fn law_alerts_lie_apart(
    last: Map<Seq<char>, u128>,
    kind: AlertKind,
    id: Seq<char>,
    checks: Seq<Check>,
    i: int,
    j: int,
)
    requires
        0 <= i < j < checks.len(),
        sent_at(last, kind, id, checks, i),
        sent_at(last, kind, id, checks, j),
    ensures
        checks[j].tick >= checks[i].tick + ALERT_COOLDOWN,
{
    lemma_last_is_latest(last, kind, id, checks, i, j);
}

/// The first cause for an alert sends one, and so does a cause a cooldown after the last one.
pub proof fn law_alert_after_cooldown(last: Map<Seq<char>, u128>, id: Seq<char>, tick: u128)
    ensures
        !last.contains_key(id) ==> cooled(last, id, tick),
        last.contains_key(id) && tick >= last[id] + ALERT_COOLDOWN ==> cooled(last, id, tick),
{
}

/// Checks on other machines, or of other kinds, do not hold back the alerts of a kind on a
/// machine.
pub proof fn law_checks_cool_apart(
    last: Map<Seq<char>, u128>,
    kind: AlertKind,
    id: Seq<char>,
    checks: Seq<Check>,
    tick: u128,
)
    requires
        forall|i: int|
            0 <= i < checks.len() ==> (#[trigger] checks[i]).kind != kind || checks[i].id != id,
    ensures
        cooled(last_after(last, kind, checks), id, tick) == cooled(last, id, tick),
    decreases checks.len(),
{
    if checks.len() > 0 {
        let before = checks.drop_last();
        assert forall|i: int| 0 <= i < before.len() implies (#[trigger] before[i]).kind != kind
            || before[i].id != id by {
            assert(before[i] == checks[i]);
        }
        assert(checks[checks.len() - 1] == checks.last());
        law_checks_cool_apart(last, kind, id, before, tick);
    }
}

/// Traffic at or beyond the whole allowance comes to at least a hundred percent, rounding
/// included. So its alert is critical, and it is due under every share to notify at of up to a
/// hundred percent.
pub proof fn law_allowance_used_up(
    report: UpsertView,
    settings: SettingsView,
    readings: ReportReadings,
    timestamp: Seq<char>,
)
    requires
        report.traffic_limit.finite(),
        report.traffic_limit.units() > 0,
        report.cum_in.units() + report.cum_out.units() >= report.traffic_limit.units(),
        traffic_share_of(report).evaluates_to(readings.traffic_pct),
        readings.traffic_limit == report.traffic_limit,
    ensures
        readings.traffic_pct.at_least(Quantity { bits: quantity::HUNDRED_BITS }),
        alert_for(AlertKind::Traffic, settings, readings, timestamp).level == "critical"@,
        readings.traffic_notify_percent.above(Quantity::spec_zero()) && (Quantity {
            bits: quantity::HUNDRED_BITS,
        }).at_least(readings.traffic_notify_percent) ==> alert_due(
            AlertKind::Traffic,
            settings,
            readings,
        ),
{
    let share = traffic_share_of(report);
    let (total, quotient) = choose|total: Quantity, quotient: Quantity|
        {
            &&& #[trigger] share.sums_to(total)
            &&& #[trigger] quotient.is_quotient(total, share.whole)
            &&& readings.traffic_pct.is_hundredfold(quotient)
        };
    assert(Quantity::spec_zero().units() == 0);
    share.whole.lemma_sum_at_least(total, share.part, report.cum_out);
    quantity::lemma_quotient_at_least_one(quotient, total, share.whole);
    quantity::lemma_hundredfold_at_least_hundred(readings.traffic_pct, quotient);
}

/// A machine that uses all of its memory comes to at least a hundred percent, rounding included,
/// so its alert is due under every threshold of up to a hundred percent.
pub proof fn law_memory_used_up(
    report: UpsertView,
    pct: Quantity,
    settings: SettingsView,
    readings: ReportReadings,
)
    requires
        report.mem_total.finite(),
        report.mem_total.units() > 0,
        report.mem_used.units() >= report.mem_total.units(),
        memory_share_of(report).evaluates_to(pct),
        pct.narrows_to(readings.mem_pct),
        readings.mem_total == report.mem_total,
        settings.mem_threshold.above(Quantity::spec_zero()),
        (Quantity { bits: quantity::HUNDRED_BITS }).at_least(settings.mem_threshold),
    ensures
        alert_due(AlertKind::Memory, settings, readings),
{
    let share = memory_share_of(report);
    let (total, quotient) = choose|total: Quantity, quotient: Quantity|
        {
            &&& #[trigger] share.sums_to(total)
            &&& #[trigger] quotient.is_quotient(total, share.whole)
            &&& pct.is_hundredfold(quotient)
        };
    assert(Quantity::spec_zero().units() == 0);
    quantity::lemma_quotient_at_least_one(quotient, total, share.whole);
    quantity::lemma_hundredfold_at_least_hundred(pct, quotient);
    quantity::lemma_narrowed_at_least_hundred(pct, readings.mem_pct);
}

/// An alert that a report raises is of the type `cpu`, `memory` or `traffic`.
pub proof fn law_report_alert_types(
    kind: AlertKind,
    settings: SettingsView,
    readings: ReportReadings,
    timestamp: Seq<char>,
)
    ensures
        ({
            let alert_type = alert_for(kind, settings, readings, timestamp).alert_type;
            alert_type == "cpu"@ || alert_type == "memory"@ || alert_type == "traffic"@
        }),
{
}

/// A threshold of zero switches its alert off, and so does a traffic allowance, or a share of it
/// at which to notify, of zero.
pub proof fn law_zero_switches_off(settings: SettingsView, readings: ReportReadings)
    ensures
        settings.cpu_threshold.units() == 0 ==> !alert_due(AlertKind::Cpu, settings, readings),
        settings.mem_threshold.units() == 0 ==> !alert_due(AlertKind::Memory, settings, readings),
        readings.traffic_limit.units() == 0 ==> !alert_due(
            AlertKind::Traffic,
            settings,
            readings,
        ),
        readings.traffic_notify_percent.units() == 0 ==> !alert_due(
            AlertKind::Traffic,
            settings,
            readings,
        ),
{
    assert(Quantity::spec_zero().units() == 0);
}

/// The contents of settings are their fields, each under its own name.
pub proof fn law_settings_contents(settings: NotifySettings)
    ensures
        settings@.telegram_enabled == settings.telegram_enabled,
        settings@.telegram_bot_token == settings.telegram_bot_token@,
        settings@.telegram_chat_id == settings.telegram_chat_id@,
        settings@.webhook_enabled == settings.webhook_enabled,
        settings@.webhook_url == settings.webhook_url@,
        settings@.offline_minutes == settings.offline_minutes,
        settings@.cpu_threshold == settings.cpu_threshold,
        settings@.mem_threshold == settings.mem_threshold,
{
}

/// The contents of an alert are its fields, each under its own name.
pub proof fn law_alert_contents(alert: AlertPayload)
    ensures
        alert@.title == alert.title@,
        alert@.message == alert.message@,
        alert@.server_id == alert.server_id@,
        alert@.server_name == alert.server_name@,
        alert@.alert_type == alert.alert_type@,
        alert@.level == alert.level@,
        alert@.value == alert.value,
        alert@.limit == alert.limit,
        alert@.timestamp == alert.timestamp@,
{
}

/// Settings that were saved and decode again are in force, every one as it was saved.
pub proof fn law_saved_settings_hold(saved: NotifySettings)
    ensures
        ({
            let held = decoded_settings(Some(saved));
            &&& held.telegram_enabled == saved.telegram_enabled
            &&& held.telegram_bot_token == saved.telegram_bot_token@
            &&& held.telegram_chat_id == saved.telegram_chat_id@
            &&& held.webhook_enabled == saved.webhook_enabled
            &&& held.webhook_url == saved.webhook_url@
            &&& held.offline_minutes == saved.offline_minutes
            &&& held.cpu_threshold == saved.cpu_threshold
            &&& held.mem_threshold == saved.mem_threshold
        }),
{
}

/// Before any settings are saved, and after ones that do not decode, no service is on. Before any
/// are saved, machines are offline after five minutes and both thresholds are ninety; after ones
/// that do not decode nothing is watched, whatever is reported.
pub proof fn law_settings_without_saved_ones(readings: ReportReadings)
    ensures
        ({
            let first = initial_settings();
            &&& !first.telegram_enabled && !first.webhook_enabled
            &&& first.telegram_bot_token.len() == 0 && first.telegram_chat_id.len() == 0
            &&& first.webhook_url.len() == 0
            &&& first.offline_minutes == 5
            &&& !first.cpu_threshold.nan() && first.cpu_threshold.units() == 90 * quantity::one()
            &&& !first.mem_threshold.nan() && first.mem_threshold.units() == 90 * quantity::one()
        }),
        ({
            let none = decoded_settings(None);
            &&& !none.telegram_enabled && !none.webhook_enabled
            &&& none.telegram_bot_token.len() == 0 && none.telegram_chat_id.len() == 0
            &&& none.webhook_url.len() == 0
            &&& none.offline_minutes == 0
            &&& !none.cpu_threshold.nan() && none.cpu_threshold.units() == 0
            &&& !none.mem_threshold.nan() && none.mem_threshold.units() == 0
            &&& !alert_due(AlertKind::Cpu, none, readings)
            &&& !alert_due(AlertKind::Memory, none, readings)
        }),
{
    quantity::lemma_ninety();
    assert(Quantity::spec_zero().units() == 0);
}

/// An alert may go out exactly when there was none of its kind on the machine, or the last one
/// lies 30 minutes of 60 seconds back.
pub proof fn law_cooldown_is_thirty_minutes(
    last: Map<Seq<char>, u128>,
    id: Seq<char>,
    tick: u128,
)
    ensures
        cooled(last, id, tick) <==> !last.contains_key(id) || tick - last[id] >= 30 * 60
            * 1_000_000_000,
{
}

/// A CPU alert is due exactly when the threshold is above zero and the reading has reached it;
/// where one of the two is no number, none is due.
pub proof fn law_cpu_alert_due(settings: SettingsView, readings: ReportReadings)
    ensures
        !settings.cpu_threshold.nan() && !readings.cpu.nan() ==> (alert_due(
            AlertKind::Cpu,
            settings,
            readings,
        ) <==> settings.cpu_threshold.units() > 0 && readings.cpu.units()
            >= settings.cpu_threshold.units()),
        settings.cpu_threshold.nan() || readings.cpu.nan() ==> !alert_due(
            AlertKind::Cpu,
            settings,
            readings,
        ),
{
    assert(Quantity::spec_zero().units() == 0);
}

/// A memory alert is due exactly when the threshold and the size of the memory are above zero and
/// the share in use has reached the threshold; where one of the three is no number, none is due.
pub proof fn law_memory_alert_due(settings: SettingsView, readings: ReportReadings)
    ensures
        !settings.mem_threshold.nan() && !readings.mem_total.nan() && !readings.mem_pct.nan() ==> (
        alert_due(AlertKind::Memory, settings, readings) <==> settings.mem_threshold.units() > 0
            && readings.mem_total.units() > 0 && readings.mem_pct.units()
            >= settings.mem_threshold.units()),
        settings.mem_threshold.nan() || readings.mem_total.nan() || readings.mem_pct.nan()
            ==> !alert_due(AlertKind::Memory, settings, readings),
{
    assert(Quantity::spec_zero().units() == 0);
}

/// A traffic alert is due exactly when the allowance and the share to notify at are above zero
/// and the share in use has reached that; where one of the three is no number, none is due. The
/// settings of the server make no difference to it.
pub proof fn law_traffic_alert_due(
    settings: SettingsView,
    other: SettingsView,
    readings: ReportReadings,
)
    ensures
        !readings.traffic_limit.nan() && !readings.traffic_notify_percent.nan()
            && !readings.traffic_pct.nan() ==> (alert_due(AlertKind::Traffic, settings, readings)
            <==> readings.traffic_limit.units() > 0 && readings.traffic_notify_percent.units() > 0
            && readings.traffic_pct.units() >= readings.traffic_notify_percent.units()),
        readings.traffic_limit.nan() || readings.traffic_notify_percent.nan()
            || readings.traffic_pct.nan() ==> !alert_due(AlertKind::Traffic, settings, readings),
        alert_due(AlertKind::Traffic, settings, readings) == alert_due(
            AlertKind::Traffic,
            other,
            readings,
        ),
{
    assert(Quantity::spec_zero().units() == 0);
}

/// The share of the memory is that of the used in the total, and the share of the allowance that
/// of both directions together in the limit, each as reported or stored.
pub proof fn law_shares(report: UpsertView, total: Quantity)
    ensures
        memory_share_of(report).part == report.mem_used,
        memory_share_of(report).whole == report.mem_total,
        memory_share_of(report).sums_to(total) <==> total == report.mem_used,
        traffic_share_of(report).whole == report.traffic_limit,
        report.cum_in.finite() && report.cum_out.finite() ==> (traffic_share_of(report).sums_to(
            total,
        ) <==> total.nearest_to(report.cum_in.units() + report.cum_out.units())),
{
}

/// An alert is about the machine of the report and carries the time of the check. Its value is
/// the reading that raised it and its limit what the reading was held against; for traffic the
/// limit is the allowance.
pub proof fn law_alert_figures(
    settings: SettingsView,
    readings: ReportReadings,
    timestamp: Seq<char>,
)
    ensures
        ({
            let cpu = alert_for(AlertKind::Cpu, settings, readings, timestamp);
            &&& cpu.server_id == readings.server_id@ && cpu.server_name == readings.server_name@
            &&& cpu.timestamp == timestamp
            &&& cpu.value == readings.cpu && cpu.limit == settings.cpu_threshold
            &&& cpu.alert_type == "cpu"@ && cpu.title == "CPU 告警"@
        }),
        ({
            let memory = alert_for(AlertKind::Memory, settings, readings, timestamp);
            &&& memory.server_id == readings.server_id@
            &&& memory.server_name == readings.server_name@
            &&& memory.timestamp == timestamp
            &&& memory.value == readings.mem_pct && memory.limit == settings.mem_threshold
            &&& memory.alert_type == "memory"@ && memory.title == "記憶體告警"@
        }),
        ({
            let traffic = alert_for(AlertKind::Traffic, settings, readings, timestamp);
            &&& traffic.server_id == readings.server_id@
            &&& traffic.server_name == readings.server_name@
            &&& traffic.timestamp == timestamp
            &&& traffic.value == readings.traffic_pct && traffic.limit == readings.traffic_limit
            &&& traffic.alert_type == "traffic"@ && traffic.title == "流量告警"@
        }),
{
}

/// An alert is critical exactly when it is about traffic that has come to a hundred percent or
/// more; any other is a warning.
pub proof fn law_alert_level(
    kind: AlertKind,
    settings: SettingsView,
    readings: ReportReadings,
    timestamp: Seq<char>,
)
    ensures
        ({
            let level = alert_for(kind, settings, readings, timestamp).level;
            if kind is Traffic && !readings.traffic_pct.nan() && readings.traffic_pct.units()
                >= 100 * quantity::one() {
                level == "critical"@
            } else {
                level == "warning"@
            }
        }),
{
    quantity::lemma_hundred();
}

/// The message of an alert begins with the name of the machine and goes on with the figures of
/// its kind, in fixed words.
pub proof fn law_alert_messages(
    settings: SettingsView,
    readings: ReportReadings,
    timestamp: Seq<char>,
)
    ensures
        ({
            let n = readings.server_name@.len() as int;
            let w = readings.wording;
            let cpu = alert_for(AlertKind::Cpu, settings, readings, timestamp).message;
            let memory = alert_for(AlertKind::Memory, settings, readings, timestamp).message;
            let traffic = alert_for(AlertKind::Traffic, settings, readings, timestamp).message;
            &&& readings.server_name@.is_prefix_of(cpu)
            &&& readings.server_name@.is_prefix_of(memory)
            &&& readings.server_name@.is_prefix_of(traffic)
            &&& cpu.skip(n) == " CPU 使用率 "@ + (w.cpu@ + ("%（閾值 "@ + (w.cpu_threshold@
                + "%）"@)))
            &&& memory.skip(n) == " 記憶體使用率 "@ + (w.mem_pct@ + ("%（閾值 "@ + (
            w.mem_threshold@ + "%）"@)))
            &&& traffic.skip(n) == " 累計流量已達 "@ + (w.traffic_pct@ + ("%（"@ + (
            w.traffic_total@ + (" GB / "@ + (w.traffic_limit@ + " GB）"@)))))
        }),
{
    let n = readings.server_name@.len() as int;
    let w = readings.wording;
    let cpu = alert_message(AlertKind::Cpu, readings);
    let memory = alert_message(AlertKind::Memory, readings);
    let traffic = alert_message(AlertKind::Traffic, readings);
    assert(cpu.subrange(0, n) =~= readings.server_name@);
    assert(memory.subrange(0, n) =~= readings.server_name@);
    assert(traffic.subrange(0, n) =~= readings.server_name@);
    assert(cpu.skip(n) =~= " CPU 使用率 "@ + (w.cpu@ + ("%（閾值 "@ + (w.cpu_threshold@
        + "%）"@))));
    assert(memory.skip(n) =~= " 記憶體使用率 "@ + (w.mem_pct@ + ("%（閾值 "@ + (w.mem_threshold@
        + "%）"@))));
    assert(traffic.skip(n) =~= " 累計流量已達 "@ + (w.traffic_pct@ + ("%（"@ + (w.traffic_total@ + (
    " GB / "@ + (w.traffic_limit@ + " GB）"@))))));
}

/// An optional alert has contents exactly when it is there.
pub proof fn law_optional_alert(alert: Option<AlertPayload>)
    ensures
        alert is Some <==> opt_alert(alert) is Some,
        alert matches Some(a) ==> opt_alert(alert) == Some(a@),
{
}

} // verus!
