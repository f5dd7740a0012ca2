//! The machines that the server knows: one row for each, kept up to date by reports and by the
//! administrator.
use crate::clock::Moment;
use crate::quantity;
use crate::quantity::Quantity;
use crate::text;
use vstd::arithmetic::power2::lemma_pow2_pos;
use vstd::prelude::*;
use vstd::string::*;

verus! {

/// The row of a machine.
#[derive(Debug)]
pub struct ServerStatus {
    pub id: String,
    pub name: String,
    pub country: Option<String>,
    pub city: Option<String>,
    pub cpu: Quantity,
    pub load1: Quantity,
    pub load5: Quantity,
    pub load15: Quantity,
    pub mem_used: Quantity,
    pub mem_total: Quantity,
    pub disk_used: Quantity,
    pub disk_total: Quantity,
    pub net_rx: Quantity,
    pub net_tx: Quantity,
    pub cum_in: Quantity,
    pub cum_out: Quantity,
    pub last_raw_in: Quantity,
    pub last_raw_out: Quantity,
    pub traffic_start: Option<String>,
    pub traffic_limit: Quantity,
    pub traffic_notify_percent: Quantity,
    pub uptime: i64,
    pub latency_telecom: Option<i32>,
    pub latency_unicom: Option<i32>,
    pub latency_mobile: Option<i32>,
    pub packet_loss: Option<Quantity>,
    pub last_seen: Moment,
}

/// What an agent reports.
#[derive(Debug)]
pub struct ReportPayload {
    pub id: String,
    pub name: Option<String>,
    pub secret: String,
    pub country: Option<String>,
    pub city: Option<String>,
    pub cpu: Quantity,
    pub load: [Quantity; 3],
    pub mem_used: Quantity,
    pub mem_total: Quantity,
    pub disk_used: Quantity,
    pub disk_total: Quantity,
    pub net_rx: Quantity,
    pub net_tx: Quantity,
    pub traffic_in: Quantity,
    pub traffic_out: Quantity,
    pub uptime: i64,
    pub latency: Option<Latency>,
    pub loss: Option<Quantity>,
}

/// Round trip times to the three carriers, in milliseconds.
#[derive(Clone, Copy, Debug, PartialEq, Eq, Structural)]
pub struct Latency {
    pub telecom: Option<i32>,
    pub unicom: Option<i32>,
    pub mobile: Option<i32>,
}

/// A request to start counting the traffic of a machine anew.
#[derive(Debug)]
pub struct AdminResetTraffic {
    pub id: String,
}

/// A request to change the display name of a machine.
#[derive(Debug)]
pub struct AdminRename {
    pub id: String,
    pub name: String,
}

/// A request to change the traffic allowance of a machine.
#[derive(Debug)]
pub struct AdminUpdateTrafficLimit {
    pub id: String,
    pub traffic_limit: Quantity,
    pub traffic_notify_percent: Quantity,
}

/// A request to change the notification settings.
#[derive(Debug)]
pub struct AdminNotifySettings {
    pub telegram_enabled: bool,
    pub telegram_bot_token: String,
    pub telegram_chat_id: String,
    pub webhook_enabled: bool,
    pub webhook_url: String,
    pub offline_minutes: i64,
    pub cpu_threshold: Quantity,
    pub mem_threshold: Quantity,
}

/// What the alert checks need to know of a report that was taken in.
#[derive(Debug)]
pub struct UpsertResult {
    pub id: String,
    pub name: String,
    pub cpu: Quantity,
    pub mem_used: Quantity,
    pub mem_total: Quantity,
    pub cum_in: Quantity,
    pub cum_out: Quantity,
    pub traffic_limit: Quantity,
    pub traffic_notify_percent: Quantity,
}

/// The contents of a [`ServerStatus`].
#[verifier::ext_equal]
pub struct ServerView {
    pub id: Seq<char>,
    pub name: Seq<char>,
    pub country: Option<Seq<char>>,
    pub city: Option<Seq<char>>,
    pub cpu: Quantity,
    pub load1: Quantity,
    pub load5: Quantity,
    pub load15: Quantity,
    pub mem_used: Quantity,
    pub mem_total: Quantity,
    pub disk_used: Quantity,
    pub disk_total: Quantity,
    pub net_rx: Quantity,
    pub net_tx: Quantity,
    pub cum_in: Quantity,
    pub cum_out: Quantity,
    pub last_raw_in: Quantity,
    pub last_raw_out: Quantity,
    pub traffic_start: Option<Seq<char>>,
    pub traffic_limit: Quantity,
    pub traffic_notify_percent: Quantity,
    pub uptime: i64,
    pub latency_telecom: Option<i32>,
    pub latency_unicom: Option<i32>,
    pub latency_mobile: Option<i32>,
    pub packet_loss: Option<Quantity>,
    pub last_seen: Moment,
}

/// The contents of a [`ReportPayload`].
#[verifier::ext_equal]
pub struct ReportView {
    pub id: Seq<char>,
    pub name: Option<Seq<char>>,
    pub secret: Seq<char>,
    pub country: Option<Seq<char>>,
    pub city: Option<Seq<char>>,
    pub cpu: Quantity,
    pub load: Seq<Quantity>,
    pub mem_used: Quantity,
    pub mem_total: Quantity,
    pub disk_used: Quantity,
    pub disk_total: Quantity,
    pub net_rx: Quantity,
    pub net_tx: Quantity,
    pub traffic_in: Quantity,
    pub traffic_out: Quantity,
    pub uptime: i64,
    pub latency: Option<Latency>,
    pub loss: Option<Quantity>,
}

/// The contents of an [`UpsertResult`].
#[verifier::ext_equal]
pub struct UpsertView {
    pub id: Seq<char>,
    pub name: Seq<char>,
    pub cpu: Quantity,
    pub mem_used: Quantity,
    pub mem_total: Quantity,
    pub cum_in: Quantity,
    pub cum_out: Quantity,
    pub traffic_limit: Quantity,
    pub traffic_notify_percent: Quantity,
}

impl View for ServerStatus {
    type V = ServerView;

    open spec fn view(&self) -> ServerView {
        ServerView {
            id: self.id@,
            name: self.name@,
            country: text::opt_text(self.country),
            city: text::opt_text(self.city),
            cpu: self.cpu,
            load1: self.load1,
            load5: self.load5,
            load15: self.load15,
            mem_used: self.mem_used,
            mem_total: self.mem_total,
            disk_used: self.disk_used,
            disk_total: self.disk_total,
            net_rx: self.net_rx,
            net_tx: self.net_tx,
            cum_in: self.cum_in,
            cum_out: self.cum_out,
            last_raw_in: self.last_raw_in,
            last_raw_out: self.last_raw_out,
            traffic_start: text::opt_text(self.traffic_start),
            traffic_limit: self.traffic_limit,
            traffic_notify_percent: self.traffic_notify_percent,
            uptime: self.uptime,
            latency_telecom: self.latency_telecom,
            latency_unicom: self.latency_unicom,
            latency_mobile: self.latency_mobile,
            packet_loss: self.packet_loss,
            last_seen: self.last_seen,
        }
    }
}

impl Clone for ServerStatus {
    fn clone(&self) -> (res: ServerStatus)
        ensures
            res@ == self@,
    {
        ServerStatus {
            id: self.id.clone(),
            name: self.name.clone(),
            country: text::clone_option(&self.country),
            city: text::clone_option(&self.city),
            cpu: self.cpu,
            load1: self.load1,
            load5: self.load5,
            load15: self.load15,
            mem_used: self.mem_used,
            mem_total: self.mem_total,
            disk_used: self.disk_used,
            disk_total: self.disk_total,
            net_rx: self.net_rx,
            net_tx: self.net_tx,
            cum_in: self.cum_in,
            cum_out: self.cum_out,
            last_raw_in: self.last_raw_in,
            last_raw_out: self.last_raw_out,
            traffic_start: text::clone_option(&self.traffic_start),
            traffic_limit: self.traffic_limit,
            traffic_notify_percent: self.traffic_notify_percent,
            uptime: self.uptime,
            latency_telecom: self.latency_telecom,
            latency_unicom: self.latency_unicom,
            latency_mobile: self.latency_mobile,
            packet_loss: self.packet_loss,
            last_seen: self.last_seen,
        }
    }
}

impl View for ReportPayload {
    type V = ReportView;

    open spec fn view(&self) -> ReportView {
        ReportView {
            id: self.id@,
            name: text::opt_text(self.name),
            secret: self.secret@,
            country: text::opt_text(self.country),
            city: text::opt_text(self.city),
            cpu: self.cpu,
            load: self.load@,
            mem_used: self.mem_used,
            mem_total: self.mem_total,
            disk_used: self.disk_used,
            disk_total: self.disk_total,
            net_rx: self.net_rx,
            net_tx: self.net_tx,
            traffic_in: self.traffic_in,
            traffic_out: self.traffic_out,
            uptime: self.uptime,
            latency: self.latency,
            loss: self.loss,
        }
    }
}

impl View for UpsertResult {
    type V = UpsertView;

    open spec fn view(&self) -> UpsertView {
        UpsertView {
            id: self.id@,
            name: self.name@,
            cpu: self.cpu,
            mem_used: self.mem_used,
            mem_total: self.mem_total,
            cum_in: self.cum_in,
            cum_out: self.cum_out,
            traffic_limit: self.traffic_limit,
            traffic_notify_percent: self.traffic_notify_percent,
        }
    }
}

// Machine ids

/// The pattern of machine ids.
pub const ID_PATTERN: &'static str = "^[A-Za-z0-9._-]{1,64}$";

/// The characters that machine ids are made of.
pub open spec fn id_char(c: char) -> bool {
    'A' <= c <= 'Z' || 'a' <= c <= 'z' || '0' <= c <= '9' || c == '.' || c == '_' || c == '-'
}

/// The form of a machine id: 1 to 64 of the id characters.
pub open spec fn id_form(id: Seq<char>) -> bool {
    1 <= id.len() <= 64 && forall|i: int| 0 <= i < id.len() ==> id_char(#[trigger] id[i])
}

/// Calls `regex::Regex::new` on the pattern of machine ids and `regex::Regex::is_match` on the
/// text.
///
/// Claims that the pattern compiles and that it matches exactly the texts of the form that it
/// describes, from beginning to end.
#[verifier::external_body]
fn regex_is_match(pattern: &str, text: &str) -> (res: bool)
    requires
        pattern@ == ID_PATTERN@,
    ensures
        res == id_form(text@),
{
    regex::Regex::new(pattern).unwrap().is_match(text)
}

/// Tells whether a text may serve as the id of a machine. Ids become database keys and HTML
/// attributes, so they are made of harmless characters only.
pub fn valid_id(id: &str) -> (res: bool)
    ensures
        res == id_form(id@),
{
    regex_is_match(ID_PATTERN, id)
}

// Traffic

/// What a report adds to a traffic total.
#[derive(Clone, Copy, Debug, PartialEq, Eq, Structural)]
pub enum Addend {
    /// The counter went on from `older` to `newer`.
    Difference { newer: Quantity, older: Quantity },
    /// The machine rebooted and its counter started again: all of it is new.
    Whole { newer: Quantity },
    /// The counter fell without a reboot, which tells nothing about traffic.
    Nothing,
}

/// A sum that is to become the new traffic total.
#[derive(Clone, Copy, Debug, PartialEq, Eq, Structural)]
pub struct Tally {
    pub total: Quantity,
    pub addend: Addend,
}

impl Addend {
    /// The exact value, in units.
    pub open spec fn value(self) -> int {
        match self {
            Addend::Difference { newer, older } => newer.units() - older.units(),
            Addend::Whole { newer } => newer.units(),
            Addend::Nothing => 0,
        }
    }
}

impl Tally {
    /// The exact value of the sum, in units.
    pub open spec fn exact(self) -> int {
        self.total.units() + self.addend.value()
    }

    /// `sum` is what native arithmetic can make of the sum, rounding after each operation.
    pub open spec fn evaluates_to(self, sum: Quantity) -> bool {
        match self.addend {
            Addend::Difference { newer, older } => exists|step: Quantity|
                {
                    &&& #[trigger] step.nearest_to(newer.units() - older.units())
                    &&& if step.finite() {
                        sum.nearest_to(self.total.units() + step.units())
                    } else {
                        sum == step
                    }
                },
            Addend::Whole { newer } => sum.nearest_to(self.total.units() + newer.units()),
            Addend::Nothing => sum.nearest_to(self.total.units()),
        }
    }
}

/// How a total goes on when a machine reports its counter: a counter that did not fall counts
/// from the last reading, one that fell counts whole after a reboot and not at all otherwise.
pub open spec fn tally_of(total: Quantity, last_raw: Quantity, raw: Quantity, rebooted: bool) -> Tally {
    Tally {
        total,
        addend: if raw.at_least(last_raw) {
            Addend::Difference { newer: raw, older: last_raw }
        } else if rebooted {
            Addend::Whole { newer: raw }
        } else {
            Addend::Nothing
        },
    }
}

/// A machine has rebooted when its uptime fell.
pub open spec fn rebooted(old: ServerView, report: ReportView) -> bool {
    report.uptime < old.uptime
}

/// The sum for incoming traffic.
pub open spec fn tally_in(old: ServerView, report: ReportView) -> Tally {
    tally_of(old.cum_in, old.last_raw_in, report.traffic_in, rebooted(old, report))
}

/// The sum for outgoing traffic.
pub open spec fn tally_out(old: ServerView, report: ReportView) -> Tally {
    tally_of(old.cum_out, old.last_raw_out, report.traffic_out, rebooted(old, report))
}

fn tally(total: Quantity, last_raw: Quantity, raw: Quantity, rebooted: bool) -> (res: Tally)
    ensures
        res == tally_of(total, last_raw, raw, rebooted),
{
    let addend = if raw.at_least(last_raw) {
        Addend::Difference { newer: raw, older: last_raw }
    } else if rebooted {
        Addend::Whole { newer: raw }
    } else {
        Addend::Nothing
    };
    Tally { total, addend }
}

/// The sums that become the traffic totals of a known machine, incoming and outgoing.
pub fn traffic_tallies(old: &ServerStatus, payload: &ReportPayload) -> (res: (Tally, Tally))
    ensures
        res.0 == tally_in(old@, payload@),
        res.1 == tally_out(old@, payload@),
{
    let rebooted = payload.uptime < old.uptime;
    (
        tally(old.cum_in, old.last_raw_in, payload.traffic_in, rebooted),
        tally(old.cum_out, old.last_raw_out, payload.traffic_out, rebooted),
    )
}

// Reports

/// A known machine with the values of its [`traffic_tallies`].
#[derive(Debug)]
pub struct Known {
    pub row: ServerStatus,
    pub cum_in: Quantity,
    pub cum_out: Quantity,
}

/// The name that a report brings along.
pub open spec fn reported_name(report: ReportView) -> Seq<char> {
    text::clipped(
        match report.name {
            Some(name) => name,
            None => report.id,
        },
        64,
    )
}

/// An optional text, clipped.
pub open spec fn clipped_option(s: Option<Seq<char>>, max_chars: int) -> Option<Seq<char>> {
    match s {
        Some(t) => Some(text::clipped(t, max_chars)),
        None => None,
    }
}

/// The first text that is there.
pub open spec fn first_of(a: Option<Seq<char>>, b: Option<Seq<char>>) -> Option<Seq<char>> {
    match a {
        Some(_) => a,
        None => b,
    }
}

/// The round trip times in a report, none where it brings none.
pub open spec fn latency_of(report: ReportView) -> Latency {
    match report.latency {
        Some(l) => l,
        None => Latency { telecom: None, unicom: None, mobile: None },
    }
}

/// The row of a machine after its first report: counting starts now, at zero, with no limit.
pub open spec fn first_row(report: ReportView, now: Moment) -> ServerView {
    ServerView {
        id: report.id,
        name: reported_name(report),
        country: clipped_option(report.country, 8),
        city: clipped_option(report.city, 64),
        cpu: report.cpu,
        load1: report.load[0],
        load5: report.load[1],
        load15: report.load[2],
        mem_used: report.mem_used,
        mem_total: report.mem_total,
        disk_used: report.disk_used,
        disk_total: report.disk_total,
        net_rx: report.net_rx,
        net_tx: report.net_tx,
        cum_in: Quantity::spec_zero(),
        cum_out: Quantity::spec_zero(),
        last_raw_in: report.traffic_in,
        last_raw_out: report.traffic_out,
        traffic_start: Some(now.text()),
        traffic_limit: Quantity::spec_zero(),
        traffic_notify_percent: Quantity { bits: quantity::EIGHTY_BITS },
        uptime: report.uptime,
        latency_telecom: latency_of(report).telecom,
        latency_unicom: latency_of(report).unicom,
        latency_mobile: latency_of(report).mobile,
        packet_loss: report.loss,
        last_seen: now,
    }
}

/// The row of a known machine after a further report. The display name and the traffic
/// settings are the administrator's; a place that the report does not name stays.
pub open spec fn next_row(
    old: ServerView,
    cum_in: Quantity,
    cum_out: Quantity,
    report: ReportView,
    now: Moment,
) -> ServerView {
    ServerView {
        id: old.id,
        name: old.name,
        country: first_of(clipped_option(report.country, 8), old.country),
        city: first_of(clipped_option(report.city, 64), old.city),
        cum_in,
        cum_out,
        traffic_start: old.traffic_start,
        traffic_limit: old.traffic_limit,
        traffic_notify_percent: old.traffic_notify_percent,
        ..first_row(report, now)
    }
}

/// What the alert checks get to know of a report: the row, but with the name as reported.
pub open spec fn upsert_result(row: ServerView, report: ReportView) -> UpsertView {
    UpsertView {
        id: report.id,
        name: reported_name(report),
        cpu: row.cpu,
        mem_used: row.mem_used,
        mem_total: row.mem_total,
        cum_in: row.cum_in,
        cum_out: row.cum_out,
        traffic_limit: row.traffic_limit,
        traffic_notify_percent: row.traffic_notify_percent,
    }
}

/// The row of a machine after a report.
pub open spec fn row_after_report(existing: Option<Known>, report: ReportView, now: Moment) -> ServerView {
    match existing {
        None => first_row(report, now),
        Some(known) => next_row(known.row@, known.cum_in, known.cum_out, report, now),
    }
}

fn clip_option(s: &Option<String>, max_chars: usize) -> (res: Option<String>)
    ensures
        text::opt_text(res) == clipped_option(text::opt_text(*s), max_chars as int),
{
    match s {
        Some(t) => Some(text::clip(t.as_str(), max_chars)),
        None => None,
    }
}

fn name_of(payload: &ReportPayload) -> (res: String)
    ensures
        res@ == reported_name(payload@),
{
    match &payload.name {
        Some(name) => text::clip(name.as_str(), 64),
        None => text::clip(payload.id.as_str(), 64),
    }
}

/// Takes a report in: the new row of the machine, and what the alert checks need to know.
///
/// `existing` is the stored row under the id of the report, if there is one.
pub fn upsert_server(existing: Option<Known>, payload: &ReportPayload, now: Moment) -> (res: (
    ServerStatus,
    UpsertResult,
))
    ensures
        res.0@ == row_after_report(existing, payload@, now),
        res.1@ == upsert_result(res.0@, payload@),
        res.0.cpu == payload.cpu,
        res.0.load1 == payload.load[0],
        res.0.load5 == payload.load[1],
        res.0.load15 == payload.load[2],
        res.0.mem_used == payload.mem_used,
        res.0.mem_total == payload.mem_total,
        res.0.disk_used == payload.disk_used,
        res.0.disk_total == payload.disk_total,
        res.0.net_rx == payload.net_rx,
        res.0.net_tx == payload.net_tx,
        res.0.uptime == payload.uptime,
        res.0.packet_loss == payload.loss,
        res.0.last_raw_in == payload.traffic_in,
        res.0.last_raw_out == payload.traffic_out,
        payload.latency matches Some(l) ==> res.0.latency_telecom == l.telecom
            && res.0.latency_unicom == l.unicom && res.0.latency_mobile == l.mobile,
        payload.latency is None ==> res.0.latency_telecom is None
            && res.0.latency_unicom is None && res.0.latency_mobile is None,
        res.0.last_seen == now,
        existing matches Some(known) ==> res.0.id@ == known.row.id@ && res.0.name@
            == known.row.name@ && res.0.cum_in == known.cum_in && res.0.cum_out == known.cum_out
            && res.0.traffic_limit == known.row.traffic_limit && res.0.traffic_notify_percent
            == known.row.traffic_notify_percent,
        res.1.id@ == payload.id@,
        res.1.cpu == payload.cpu,
        res.1.mem_used == payload.mem_used,
        res.1.mem_total == payload.mem_total,
        res.1.cum_in == res.0.cum_in,
        res.1.cum_out == res.0.cum_out,
        res.1.traffic_limit == res.0.traffic_limit,
        res.1.traffic_notify_percent == res.0.traffic_notify_percent,
{
    let (lt, lu, lm) = match &payload.latency {
        Some(l) => (l.telecom, l.unicom, l.mobile),
        None => (None, None, None),
    };
    let reported_country = clip_option(&payload.country, 8);
    let reported_city = clip_option(&payload.city, 64);
    let (
        id,
        name,
        country,
        city,
        cum_in,
        cum_out,
        traffic_start,
        traffic_limit,
        traffic_notify_percent,
    ) = match existing {
        Some(known) => {
            let old = known.row;
            (
                old.id,
                old.name,
                match reported_country {
                    Some(c) => Some(c),
                    None => old.country,
                },
                match reported_city {
                    Some(c) => Some(c),
                    None => old.city,
                },
                known.cum_in,
                known.cum_out,
                old.traffic_start,
                old.traffic_limit,
                old.traffic_notify_percent,
            )
        },
        None => (
            payload.id.clone(),
            name_of(payload),
            reported_country,
            reported_city,
            Quantity::zero(),
            Quantity::zero(),
            Some(now.to_rfc3339()),
            Quantity::zero(),
            Quantity::eighty(),
        ),
    };
    let result = UpsertResult {
        id: payload.id.clone(),
        name: name_of(payload),
        cpu: payload.cpu,
        mem_used: payload.mem_used,
        mem_total: payload.mem_total,
        cum_in,
        cum_out,
        traffic_limit,
        traffic_notify_percent,
    };
    let row = ServerStatus {
        id,
        name,
        country,
        city,
        cpu: payload.cpu,
        load1: payload.load[0],
        load5: payload.load[1],
        load15: payload.load[2],
        mem_used: payload.mem_used,
        mem_total: payload.mem_total,
        disk_used: payload.disk_used,
        disk_total: payload.disk_total,
        net_rx: payload.net_rx,
        net_tx: payload.net_tx,
        cum_in,
        cum_out,
        last_raw_in: payload.traffic_in,
        last_raw_out: payload.traffic_out,
        traffic_start,
        traffic_limit,
        traffic_notify_percent,
        uptime: payload.uptime,
        latency_telecom: lt,
        latency_unicom: lu,
        latency_mobile: lm,
        packet_loss: payload.loss,
        last_seen: now,
    };
    (row, result)
}

// Administration

/// The row after its traffic was reset: totals at zero, counting from now. The counter
/// readings stay, so that the next report adds what came since the last one.
pub open spec fn reset_row(row: ServerView, now: Moment) -> ServerView {
    ServerView {
        cum_in: Quantity::spec_zero(),
        cum_out: Quantity::spec_zero(),
        traffic_start: Some(now.text()),
        ..row
    }
}

/// Starts counting the traffic of a machine anew.
pub fn reset_traffic(row: &mut ServerStatus, now: Moment)
    ensures
        final(row)@ == reset_row(old(row)@, now),
{
    row.cum_in = Quantity::zero();
    row.cum_out = Quantity::zero();
    row.traffic_start = Some(now.to_rfc3339());
}

/// The row after a change of its display name.
pub open spec fn renamed_row(row: ServerView, name: Seq<char>) -> ServerView {
    ServerView { name: text::clipped(name, 64), ..row }
}

/// Changes the display name of a machine.
pub fn rename_server(row: &mut ServerStatus, name: &str)
    ensures
        final(row)@ == renamed_row(old(row)@, name@),
{
    row.name = text::clip(name, 64);
}

/// The row after a change of its traffic allowance.
pub open spec fn limited_row(row: ServerView, limit: Quantity, percent: Quantity) -> ServerView {
    ServerView { traffic_limit: limit, traffic_notify_percent: percent, ..row }
}

/// Changes the traffic allowance of a machine and the share of it at which to notify.
pub fn update_traffic_limit(row: &mut ServerStatus, limit: Quantity, percent: Quantity)
    ensures
        final(row)@ == limited_row(old(row)@, limit, percent),
{
    row.traffic_limit = limit;
    row.traffic_notify_percent = percent;
}

// Laws

/// A further report on a known machine, with the totals that its tallies came to.
pub struct Arrival {
    pub report: ReportView,
    pub cum_in: Quantity,
    pub cum_out: Quantity,
    pub now: Moment,
}

/// The row after a number of further reports.
pub open spec fn row_after_all(row: ServerView, arrivals: Seq<Arrival>) -> ServerView
    decreases arrivals.len(),
{
    if arrivals.len() == 0 {
        row
    } else {
        let a = arrivals.last();
        next_row(
            row_after_all(row, arrivals.drop_last()),
            a.cum_in,
            a.cum_out,
            a.report,
            a.now,
        )
    }
}

/// The incoming traffic, in units, that a number of further reports adds up to.
pub open spec fn counted_in(row: ServerView, arrivals: Seq<Arrival>) -> int
    decreases arrivals.len(),
{
    if arrivals.len() == 0 {
        0
    } else {
        let before = arrivals.drop_last();
        counted_in(row, before) + tally_in(
            row_after_all(row, before),
            arrivals.last().report,
        ).addend.value()
    }
}

/// The outgoing traffic, in units, that a number of further reports adds up to.
pub open spec fn counted_out(row: ServerView, arrivals: Seq<Arrival>) -> int
    decreases arrivals.len(),
{
    if arrivals.len() == 0 {
        0
    } else {
        let before = arrivals.drop_last();
        counted_out(row, before) + tally_out(
            row_after_all(row, before),
            arrivals.last().report,
        ).addend.value()
    }
}

/// Counters that hold ordinary numbers, none below zero.
pub open spec fn counters_sound(report: ReportView) -> bool {
    &&& report.traffic_in.finite() && report.traffic_in.units() >= 0
    &&& report.traffic_out.finite() && report.traffic_out.units() >= 0
}

/// The totals of an arrival are what native arithmetic makes of its tallies.
pub open spec fn evaluated(row: ServerView, a: Arrival) -> bool {
    &&& tally_in(row, a.report).evaluates_to(a.cum_in)
    &&& tally_out(row, a.report).evaluates_to(a.cum_out)
}

/// The totals of an arrival are the exact values of its tallies.
pub open spec fn evaluated_exactly(row: ServerView, a: Arrival) -> bool {
    &&& a.cum_in.units() == tally_in(row, a.report).exact()
    &&& a.cum_out.units() == tally_out(row, a.report).exact()
}

proof fn lemma_sum_never_falls(tally: Tally, sum: Quantity)
    requires
        !tally.total.nan(),
        tally.addend.value() >= 0,
        tally.evaluates_to(sum),
    ensures
        sum.at_least(tally.total),
{
    match tally.addend {
        Addend::Difference { newer, older } => {
            let step = choose|step: Quantity|
                {
                    &&& #[trigger] step.nearest_to(newer.units() - older.units())
                    &&& if step.finite() {
                        sum.nearest_to(tally.total.units() + step.units())
                    } else {
                        sum == step
                    }
                };
            assert(Quantity::spec_zero().units() == 0);
            assert(step.units() >= 0);
            if !step.finite() {
                step.lemma_infinity_is_largest(tally.total);
            }
        },
        _ => {},
    }
}

proof fn lemma_totals_never_fall(row: ServerView, arrivals: Seq<Arrival>)
    requires
        !row.cum_in.nan(),
        !row.cum_out.nan(),
        row.last_raw_in.finite(),
        row.last_raw_out.finite(),
        forall|i: int|
            0 <= i < arrivals.len() ==> counters_sound((#[trigger] arrivals[i]).report)
                && evaluated(row_after_all(row, arrivals.take(i)), arrivals[i]),
    ensures
        row_after_all(row, arrivals).cum_in.at_least(row.cum_in),
        row_after_all(row, arrivals).cum_out.at_least(row.cum_out),
        row_after_all(row, arrivals).last_raw_in.finite(),
        row_after_all(row, arrivals).last_raw_out.finite(),
    decreases arrivals.len(),
{
    if arrivals.len() > 0 {
        let n = arrivals.len() - 1;
        let before = arrivals.drop_last();
        assert forall|i: int| 0 <= i < before.len() implies counters_sound(
            (#[trigger] before[i]).report,
        ) && evaluated(row_after_all(row, before.take(i)), before[i]) by {
            assert(before[i] == arrivals[i]);
            assert(before.take(i) =~= arrivals.take(i));
        }
        lemma_totals_never_fall(row, before);
        assert(arrivals.take(n) =~= before);
        let a = arrivals[n];
        let latest = row_after_all(row, before);
        assert(Quantity::spec_zero().units() == 0);
        lemma_sum_never_falls(tally_in(latest, a.report), a.cum_in);
        lemma_sum_never_falls(tally_out(latest, a.report), a.cum_out);
    }
}

/// No number of reports lowers a traffic total, not even across reboots and rounding.
pub proof fn law_totals_never_fall(row: ServerView, arrivals: Seq<Arrival>)
    requires
        !row.cum_in.nan(),
        !row.cum_out.nan(),
        row.last_raw_in.finite(),
        row.last_raw_out.finite(),
        forall|i: int|
            0 <= i < arrivals.len() ==> counters_sound((#[trigger] arrivals[i]).report)
                && evaluated(row_after_all(row, arrivals.take(i)), arrivals[i]),
    ensures
        row_after_all(row, arrivals).cum_in.at_least(row.cum_in),
        row_after_all(row, arrivals).cum_out.at_least(row.cum_out),
{
    lemma_totals_never_fall(row, arrivals);
}

/// Where no sum is rounded, the totals have grown by exactly what the reports added up to.
pub proof fn law_totals_are_sums(row: ServerView, arrivals: Seq<Arrival>)
    requires
        forall|i: int|
            0 <= i < arrivals.len() ==> evaluated_exactly(
                row_after_all(row, arrivals.take(i)),
                #[trigger] arrivals[i],
            ),
    ensures
        row_after_all(row, arrivals).cum_in.units() == row.cum_in.units() + counted_in(
            row,
            arrivals,
        ),
        row_after_all(row, arrivals).cum_out.units() == row.cum_out.units() + counted_out(
            row,
            arrivals,
        ),
    decreases arrivals.len(),
{
    if arrivals.len() > 0 {
        let before = arrivals.drop_last();
        assert forall|i: int| 0 <= i < before.len() implies evaluated_exactly(
            row_after_all(row, before.take(i)),
            #[trigger] before[i],
        ) by {
            assert(before[i] == arrivals[i]);
            assert(before.take(i) =~= arrivals.take(i));
        }
        law_totals_are_sums(row, before);
        assert(arrivals.take(arrivals.len() - 1) =~= before);
        assert(arrivals[arrivals.len() - 1] == arrivals.last());
    }
}

proof fn lemma_whole_tally(tally: Tally, sum: Quantity, t: nat, a: nat)
    requires
        t + a < 0x20_0000_0000_0000,
        tally.total.units() == t * quantity::one(),
        tally.addend.value() == a * quantity::one(),
        tally.evaluates_to(sum),
    ensures
        sum.units() == tally.exact(),
        quantity::count(sum),
{
    let one = quantity::one();
    assert(t * one + a * one == (t + a) * one) by (nonlinear_arith);
    match tally.addend {
        Addend::Difference { newer, older } => {
            let step = choose|step: Quantity|
                {
                    &&& #[trigger] step.nearest_to(newer.units() - older.units())
                    &&& if step.finite() {
                        sum.nearest_to(tally.total.units() + step.units())
                    } else {
                        sum == step
                    }
                };
            quantity::lemma_nearest_to_whole(step, a);
            quantity::lemma_nearest_to_whole(sum, t + a);
        },
        _ => {
            quantity::lemma_nearest_to_whole(sum, t + a);
        },
    }
}

/// A sum of whole numbers that stays below 2^53 is not rounded.
pub proof fn law_whole_tallies_are_exact(
    total: Quantity,
    last_raw: Quantity,
    raw: Quantity,
    rebooted: bool,
    sum: Quantity,
)
    requires
        quantity::count(total),
        quantity::count(last_raw),
        quantity::count(raw),
        tally_of(total, last_raw, raw, rebooted).exact() < 0x20_0000_0000_0000
            * quantity::one(),
        tally_of(total, last_raw, raw, rebooted).evaluates_to(sum),
    ensures
        sum.units() == tally_of(total, last_raw, raw, rebooted).exact(),
        quantity::count(sum),
{
    let one = quantity::one();
    let tally = tally_of(total, last_raw, raw, rebooted);
    lemma_pow2_pos(1074);
    let t = choose|n: nat| n < 0x20_0000_0000_0000 && total.units() == #[trigger] (n * one);
    let o = choose|n: nat| n < 0x20_0000_0000_0000 && last_raw.units() == #[trigger] (n * one);
    let r = choose|n: nat| n < 0x20_0000_0000_0000 && raw.units() == #[trigger] (n * one);
    let a: nat = match tally.addend {
        Addend::Difference { newer, older } => {
            assert(r >= o) by (nonlinear_arith)
                requires
                    r * one >= o * one,
                    one > 0,
            ;
            assert((r - o) * one == r * one - o * one) by (nonlinear_arith);
            (r - o) as nat
        },
        Addend::Whole { newer } => r,
        Addend::Nothing => 0,
    };
    assert(tally.addend.value() == a * one);
    assert(t + a < 0x20_0000_0000_0000) by (nonlinear_arith)
        requires
            t * one + a * one < 0x20_0000_0000_0000 * one,
            one > 0,
    ;
    lemma_whole_tally(tally, sum, t, a);
}

/// Counters that are whole numbers below 2^53.
pub open spec fn counters_whole(report: ReportView) -> bool {
    quantity::count(report.traffic_in) && quantity::count(report.traffic_out)
}

proof fn lemma_whole_totals(row: ServerView, arrivals: Seq<Arrival>)
    requires
        quantity::count(row.cum_in),
        quantity::count(row.cum_out),
        quantity::count(row.last_raw_in),
        quantity::count(row.last_raw_out),
        forall|i: int|
            0 <= i < arrivals.len() ==> counters_whole((#[trigger] arrivals[i]).report)
                && evaluated(row_after_all(row, arrivals.take(i)), arrivals[i]),
        row.cum_in.units() + counted_in(row, arrivals) < 0x20_0000_0000_0000 * quantity::one(),
        row.cum_out.units() + counted_out(row, arrivals) < 0x20_0000_0000_0000
            * quantity::one(),
    ensures
        ({
            let latest = row_after_all(row, arrivals);
            &&& latest.cum_in.units() == row.cum_in.units() + counted_in(row, arrivals)
            &&& latest.cum_out.units() == row.cum_out.units() + counted_out(row, arrivals)
            &&& quantity::count(latest.cum_in) && quantity::count(latest.cum_out)
            &&& quantity::count(latest.last_raw_in) && quantity::count(latest.last_raw_out)
        }),
    decreases arrivals.len(),
{
    if arrivals.len() > 0 {
        let n = arrivals.len() - 1;
        let before = arrivals.drop_last();
        let a = arrivals[n];
        assert(arrivals.take(n) =~= before);
        assert(counters_whole(a.report));
        let latest = row_after_all(row, before);
        assert forall|i: int| 0 <= i < before.len() implies counters_whole(
            (#[trigger] before[i]).report,
        ) && evaluated(row_after_all(row, before.take(i)), before[i]) by {
            assert(before[i] == arrivals[i]);
            assert(before.take(i) =~= arrivals.take(i));
        }
        lemma_count_is_not_negative(a.report.traffic_in);
        lemma_count_is_not_negative(a.report.traffic_out);
        assert(tally_in(latest, a.report).addend.value() >= 0);
        assert(tally_out(latest, a.report).addend.value() >= 0);
        lemma_whole_totals(row, before);
        law_whole_tallies_are_exact(
            latest.cum_in,
            latest.last_raw_in,
            a.report.traffic_in,
            rebooted(latest, a.report),
            a.cum_in,
        );
        law_whole_tallies_are_exact(
            latest.cum_out,
            latest.last_raw_out,
            a.report.traffic_out,
            rebooted(latest, a.report),
            a.cum_out,
        );
    }
}

proof fn lemma_count_is_not_negative(q: Quantity)
    requires
        quantity::count(q),
    ensures
        q.units() >= 0,
{
    let one = quantity::one();
    let n = choose|n: nat| n < 0x20_0000_0000_0000 && q.units() == #[trigger] (n * one);
    assert(n * one >= 0) by (nonlinear_arith);
}

/// While totals and counters are whole numbers, and as long as the totals stay below 2^53, they
/// grow by exactly what the reports add up to.
pub proof fn law_whole_totals_are_sums(row: ServerView, arrivals: Seq<Arrival>)
    requires
        quantity::count(row.cum_in),
        quantity::count(row.cum_out),
        quantity::count(row.last_raw_in),
        quantity::count(row.last_raw_out),
        forall|i: int|
            0 <= i < arrivals.len() ==> counters_whole((#[trigger] arrivals[i]).report)
                && evaluated(row_after_all(row, arrivals.take(i)), arrivals[i]),
        row.cum_in.units() + counted_in(row, arrivals) < 0x20_0000_0000_0000 * quantity::one(),
        row.cum_out.units() + counted_out(row, arrivals) < 0x20_0000_0000_0000
            * quantity::one(),
    ensures
        row_after_all(row, arrivals).cum_in.units() == row.cum_in.units() + counted_in(
            row,
            arrivals,
        ),
        row_after_all(row, arrivals).cum_out.units() == row.cum_out.units() + counted_out(
            row,
            arrivals,
        ),
{
    lemma_whole_totals(row, arrivals);
}

/// While the counters only rise, with or without reboots, the reports add up to exactly what
/// the counters grew.
pub proof fn law_rising_counters(row: ServerView, arrivals: Seq<Arrival>)
    requires
        arrivals.len() > 0,
        forall|i: int|
            0 <= i < arrivals.len() ==> {
                let previous = row_after_all(row, arrivals.take(i));
                &&& (#[trigger] arrivals[i]).report.traffic_in.at_least(previous.last_raw_in)
                &&& arrivals[i].report.traffic_out.at_least(previous.last_raw_out)
            },
    ensures
        counted_in(row, arrivals) == arrivals.last().report.traffic_in.units()
            - row.last_raw_in.units(),
        counted_out(row, arrivals) == arrivals.last().report.traffic_out.units()
            - row.last_raw_out.units(),
    decreases arrivals.len(),
{
    let before = arrivals.drop_last();
    assert(arrivals.take(arrivals.len() - 1) =~= before);
    assert(arrivals[arrivals.len() - 1] == arrivals.last());
    if before.len() > 0 {
        assert forall|i: int| 0 <= i < before.len() implies {
            let previous = row_after_all(row, before.take(i));
            &&& (#[trigger] before[i]).report.traffic_in.at_least(previous.last_raw_in)
            &&& before[i].report.traffic_out.at_least(previous.last_raw_out)
        } by {
            assert(before[i] == arrivals[i]);
            assert(before.take(i) =~= arrivals.take(i));
        }
        law_rising_counters(row, before);
    } else {
        assert(counted_in(row, before) == 0);
        assert(counted_out(row, before) == 0);
    }
}

/// A reboot does not clear what was counted: when the uptime and a counter have fallen, all
/// that the counter shows is added to what was there.
pub proof fn law_reboot_carries_on(row: ServerView, arrivals: Seq<Arrival>, after: Arrival)
    requires
        rebooted(row_after_all(row, arrivals), after.report),
    ensures
        ({
            let previous = row_after_all(row, arrivals);
            let raw = after.report.traffic_in;
            !raw.at_least(previous.last_raw_in) ==> counted_in(row, arrivals.push(after))
                == counted_in(row, arrivals) + raw.units()
        }),
        ({
            let previous = row_after_all(row, arrivals);
            let raw = after.report.traffic_out;
            !raw.at_least(previous.last_raw_out) ==> counted_out(row, arrivals.push(after))
                == counted_out(row, arrivals) + raw.units()
        }),
{
    assert(arrivals.push(after).drop_last() =~= arrivals);
}

/// A counter that falls while the machine stays up adds nothing.
pub proof fn law_counter_noise(row: ServerView, arrivals: Seq<Arrival>, after: Arrival)
    requires
        !rebooted(row_after_all(row, arrivals), after.report),
    ensures
        ({
            let previous = row_after_all(row, arrivals);
            !after.report.traffic_in.at_least(previous.last_raw_in) ==> counted_in(
                row,
                arrivals.push(after),
            ) == counted_in(row, arrivals)
        }),
        ({
            let previous = row_after_all(row, arrivals);
            !after.report.traffic_out.at_least(previous.last_raw_out) ==> counted_out(
                row,
                arrivals.push(after),
            ) == counted_out(row, arrivals)
        }),
{
    assert(arrivals.push(after).drop_last() =~= arrivals);
}

/// No number of reports changes what the administrator sets: the display name and the traffic
/// allowance stay, and so does the time from which traffic is counted.
pub proof fn law_reports_keep_settings(row: ServerView, arrivals: Seq<Arrival>)
    ensures
        row_after_all(row, arrivals).id == row.id,
        row_after_all(row, arrivals).name == row.name,
        row_after_all(row, arrivals).traffic_start == row.traffic_start,
        row_after_all(row, arrivals).traffic_limit == row.traffic_limit,
        row_after_all(row, arrivals).traffic_notify_percent == row.traffic_notify_percent,
    decreases arrivals.len(),
{
    if arrivals.len() > 0 {
        law_reports_keep_settings(row, arrivals.drop_last());
    }
}

/// A display name, once set, is shown until it is set again.
pub proof fn law_rename_lasts(row: ServerView, name: Seq<char>, arrivals: Seq<Arrival>)
    ensures
        row_after_all(renamed_row(row, name), arrivals).name == text::clipped(name, 64),
{
    law_reports_keep_settings(renamed_row(row, name), arrivals);
}

/// A place that was known stays known until a report names another.
pub proof fn law_place_stays(row: ServerView, arrivals: Seq<Arrival>)
    requires
        forall|i: int|
            0 <= i < arrivals.len() ==> (#[trigger] arrivals[i]).report.country is None
                && arrivals[i].report.city is None,
    ensures
        row_after_all(row, arrivals).country == row.country,
        row_after_all(row, arrivals).city == row.city,
    decreases arrivals.len(),
{
    if arrivals.len() > 0 {
        let before = arrivals.drop_last();
        assert forall|i: int| 0 <= i < before.len() implies (
        #[trigger] before[i]).report.country is None && before[i].report.city is None by {
            assert(before[i] == arrivals[i]);
        }
        assert(arrivals[arrivals.len() - 1].report.country is None);
        law_place_stays(row, before);
    }
}

/// Traffic from before the first report does not count: the totals start at zero, and the
/// second report adds to zero.
pub proof fn law_counting_starts_at_zero(first: ReportView, start: Moment, second: ReportView)
    ensures
        first_row(first, start).cum_in.units() == 0,
        first_row(first, start).cum_out.units() == 0,
        second.traffic_in.at_least(first.traffic_in) ==> tally_in(
            first_row(first, start),
            second,
        ).exact() == second.traffic_in.units() - first.traffic_in.units(),
        second.traffic_out.at_least(first.traffic_out) ==> tally_out(
            first_row(first, start),
            second,
        ).exact() == second.traffic_out.units() - first.traffic_out.units(),
{
    assert(Quantity::spec_zero().units() == 0);
}

/// After a reset the totals are zero, and the next report adds to zero what it would have
/// added without the reset.
pub proof fn law_reset_then_report(row: ServerView, now: Moment, report: ReportView)
    ensures
        reset_row(row, now).cum_in.units() == 0,
        reset_row(row, now).cum_out.units() == 0,
        tally_in(reset_row(row, now), report).addend == tally_in(row, report).addend,
        tally_out(reset_row(row, now), report).addend == tally_out(row, report).addend,
        tally_in(reset_row(row, now), report).total.units() == 0,
        tally_out(reset_row(row, now), report).total.units() == 0,
{
    assert(Quantity::spec_zero().units() == 0);
}

/// A report never touches what it adds to: each tally goes on from the total of its direction.
pub proof fn law_tallies_go_on_from_totals(row: ServerView, report: ReportView)
    ensures
        tally_in(row, report).total == row.cum_in,
        tally_out(row, report).total == row.cum_out,
{
}

/// A counter that did not fall adds what it went on by, whether or not the machine rebooted.
pub proof fn law_counter_went_on(row: ServerView, report: ReportView)
    ensures
        !report.traffic_in.nan() && !row.last_raw_in.nan() && report.traffic_in.units()
            >= row.last_raw_in.units() ==> {
            let addend = tally_in(row, report).addend;
            &&& addend == Addend::Difference { newer: report.traffic_in, older: row.last_raw_in }
            &&& row.last_raw_in.units() + addend.value() == report.traffic_in.units()
        },
        !report.traffic_out.nan() && !row.last_raw_out.nan() && report.traffic_out.units()
            >= row.last_raw_out.units() ==> {
            let addend = tally_out(row, report).addend;
            &&& addend == Addend::Difference { newer: report.traffic_out, older: row.last_raw_out }
            &&& row.last_raw_out.units() + addend.value() == report.traffic_out.units()
        },
{
}

/// When the uptime of a machine fell, by whatever and to whatever, a counter that fell too is
/// added whole.
pub proof fn law_counter_fell_with_uptime(row: ServerView, report: ReportView)
    requires
        report.uptime < row.uptime,
    ensures
        report.traffic_in.nan() || row.last_raw_in.nan() || report.traffic_in.units()
            < row.last_raw_in.units() ==> {
            let addend = tally_in(row, report).addend;
            addend == (Addend::Whole { newer: report.traffic_in }) && addend.value()
                == report.traffic_in.units()
        },
        report.traffic_out.nan() || row.last_raw_out.nan() || report.traffic_out.units()
            < row.last_raw_out.units() ==> {
            let addend = tally_out(row, report).addend;
            addend == (Addend::Whole { newer: report.traffic_out }) && addend.value()
                == report.traffic_out.units()
        },
{
}

/// While the uptime of a machine did not fall, a counter that fell adds nothing.
pub proof fn law_counter_fell_alone(row: ServerView, report: ReportView)
    requires
        report.uptime >= row.uptime,
    ensures
        report.traffic_in.nan() || row.last_raw_in.nan() || report.traffic_in.units()
            < row.last_raw_in.units() ==> {
            let addend = tally_in(row, report).addend;
            addend == Addend::Nothing && addend.value() == 0
        },
        report.traffic_out.nan() || row.last_raw_out.nan() || report.traffic_out.units()
            < row.last_raw_out.units() ==> {
            let addend = tally_out(row, report).addend;
            addend == Addend::Nothing && addend.value() == 0
        },
{
}

/// However many reports came before, the row shows the measurements of the last one, the totals
/// that its tallies came to, and the time at which it came.
pub proof fn law_row_shows_last_report(row: ServerView, arrivals: Seq<Arrival>)
    requires
        arrivals.len() > 0,
    ensures
        ({
            let shown = row_after_all(row, arrivals);
            let report = arrivals.last().report;
            &&& shown.cpu == report.cpu
            &&& shown.load1 == report.load[0]
            &&& shown.load5 == report.load[1]
            &&& shown.load15 == report.load[2]
            &&& shown.mem_used == report.mem_used
            &&& shown.mem_total == report.mem_total
            &&& shown.disk_used == report.disk_used
            &&& shown.disk_total == report.disk_total
            &&& shown.net_rx == report.net_rx
            &&& shown.net_tx == report.net_tx
            &&& shown.uptime == report.uptime
            &&& shown.packet_loss == report.loss
            &&& shown.last_raw_in == report.traffic_in
            &&& shown.last_raw_out == report.traffic_out
            &&& report.latency matches Some(l) ==> shown.latency_telecom == l.telecom
                && shown.latency_unicom == l.unicom && shown.latency_mobile == l.mobile
            &&& report.latency is None ==> shown.latency_telecom is None
                && shown.latency_unicom is None && shown.latency_mobile is None
            &&& shown.cum_in == arrivals.last().cum_in
            &&& shown.cum_out == arrivals.last().cum_out
            &&& shown.last_seen == arrivals.last().now
        }),
{
}

/// A report on a known machine makes of its row what the run of that one report makes of it.
pub proof fn law_known_machine(known: Known, report: ReportView, now: Moment)
    ensures
        row_after_report(Some(known), report, now) == row_after_all(
            known.row@,
            seq![Arrival { report, cum_in: known.cum_in, cum_out: known.cum_out, now }],
        ),
{
    let one = seq![Arrival { report, cum_in: known.cum_in, cum_out: known.cum_out, now }];
    assert(one.drop_last() =~= Seq::<Arrival>::empty());
    assert(row_after_all(known.row@, one.drop_last()) == known.row@);
}

/// The first report makes a row with its measurements and its id, from which traffic counts from
/// now on, at zero, without a limit and with notice at eighty percent.
pub proof fn law_first_report(report: ReportView, now: Moment)
    ensures
        ({
            let shown = row_after_report(None, report, now);
            &&& shown.cpu == report.cpu
            &&& shown.load1 == report.load[0]
            &&& shown.load5 == report.load[1]
            &&& shown.load15 == report.load[2]
            &&& shown.mem_used == report.mem_used
            &&& shown.mem_total == report.mem_total
            &&& shown.disk_used == report.disk_used
            &&& shown.disk_total == report.disk_total
            &&& shown.net_rx == report.net_rx
            &&& shown.net_tx == report.net_tx
            &&& shown.uptime == report.uptime
            &&& shown.packet_loss == report.loss
            &&& shown.last_raw_in == report.traffic_in
            &&& shown.last_raw_out == report.traffic_out
            &&& report.latency matches Some(l) ==> shown.latency_telecom == l.telecom
                && shown.latency_unicom == l.unicom && shown.latency_mobile == l.mobile
            &&& report.latency is None ==> shown.latency_telecom is None
                && shown.latency_unicom is None && shown.latency_mobile is None
            &&& shown.id == report.id
            &&& shown.last_seen == now
            &&& shown.traffic_start == Some(now.text())
            &&& !shown.cum_in.nan() && shown.cum_in.units() == 0
            &&& !shown.cum_out.nan() && shown.cum_out.units() == 0
            &&& !shown.traffic_limit.nan() && shown.traffic_limit.units() == 0
            &&& !shown.traffic_notify_percent.nan()
            &&& shown.traffic_notify_percent.units() == 80 * quantity::one()
        }),
{
    quantity::lemma_eighty();
    assert(Quantity::spec_zero().units() == 0);
}

/// A machine is first shown under the name that its report gives, or else under its id, of which
/// the first 64 characters count.
pub proof fn law_first_name(report: ReportView, now: Moment)
    ensures
        ({
            let name = row_after_report(None, report, now).name;
            let given = if report.name is Some {
                report.name.unwrap()
            } else {
                report.id
            };
            &&& name.is_prefix_of(given)
            &&& name.len() == if given.len() <= 64 {
                given.len()
            } else {
                64
            }
        }),
{
}

/// A country that a report names is shown with up to 8 characters and a city with up to 64,
/// whether or not the machine was known; what a report does not name stays as it was known.
pub proof fn law_place(existing: Option<Known>, report: ReportView, now: Moment)
    ensures
        ({
            let shown = row_after_report(existing, report, now);
            &&& report.country matches Some(c) ==> shown.country matches Some(t)
                && t.is_prefix_of(c) && t.len() == if c.len() <= 8 {
                c.len()
            } else {
                8
            }
            &&& report.city matches Some(c) ==> shown.city matches Some(t) && t.is_prefix_of(c)
                && t.len() == if c.len() <= 64 {
                c.len()
            } else {
                64
            }
            &&& report.country is None ==> shown.country == if existing is Some {
                existing.unwrap().row@.country
            } else {
                None
            }
            &&& report.city is None ==> shown.city == if existing is Some {
                existing.unwrap().row@.city
            } else {
                None
            }
        }),
{
}

/// The alert checks get the id, the name and the measurements of the report, and the totals and
/// the allowance of the row.
pub proof fn law_alert_checks_see_report(row: ServerView, report: ReportView)
    ensures
        ({
            let seen = upsert_result(row, report);
            &&& seen.id == report.id
            &&& seen.name.is_prefix_of(
                if report.name is Some {
                    report.name.unwrap()
                } else {
                    report.id
                },
            )
            &&& seen.cpu == row.cpu
            &&& seen.mem_used == row.mem_used
            &&& seen.mem_total == row.mem_total
            &&& seen.cum_in == row.cum_in
            &&& seen.cum_out == row.cum_out
            &&& seen.traffic_limit == row.traffic_limit
            &&& seen.traffic_notify_percent == row.traffic_notify_percent
        }),
        forall|known: Known, now: Moment|
            {
                let shown = #[trigger] row_after_report(Some(known), report, now);
                &&& upsert_result(shown, report).cpu == report.cpu
                &&& upsert_result(shown, report).mem_used == report.mem_used
                &&& upsert_result(shown, report).mem_total == report.mem_total
                &&& upsert_result(shown, report).name == row_after_report(None, report, now).name
            },
{
}

/// A reset sets both totals to zero and the start to now, and changes nothing else: with these
/// three put back, the row is as it was.
pub proof fn law_reset_changes_totals_only(row: ServerView, now: Moment)
    ensures
        ({
            let after = reset_row(row, now);
            &&& !after.cum_in.nan() && after.cum_in.units() == 0
            &&& !after.cum_out.nan() && after.cum_out.units() == 0
            &&& after.traffic_start == Some(now.text())
            &&& row == (ServerView {
                cum_in: row.cum_in,
                cum_out: row.cum_out,
                traffic_start: row.traffic_start,
                ..after
            })
        }),
{
    assert(Quantity::spec_zero().units() == 0);
}

/// A rename shows the first 64 characters of the new name and changes nothing else; the old name
/// makes no difference.
pub proof fn law_rename_changes_name_only(row: ServerView, name: Seq<char>, other: Seq<char>)
    ensures
        ({
            let after = renamed_row(row, name);
            &&& after.name.is_prefix_of(name)
            &&& after.name.len() == if name.len() <= 64 {
                name.len()
            } else {
                64
            }
            &&& row == (ServerView { name: row.name, ..after })
            &&& renamed_row(renamed_row(row, other), name) == after
        }),
{
}

/// A change of the allowance sets the limit and the share to notify at to what was asked for, and
/// changes nothing else.
pub proof fn law_limit_changes_allowance_only(row: ServerView, limit: Quantity, percent: Quantity)
    ensures
        ({
            let after = limited_row(row, limit, percent);
            &&& after.traffic_limit == limit
            &&& after.traffic_notify_percent == percent
            &&& row == (ServerView {
                traffic_limit: row.traffic_limit,
                traffic_notify_percent: row.traffic_notify_percent,
                ..after
            })
        }),
{
}

/// An id is put together from ids of one character, up to 64 of them, and those are the ASCII
/// letters and digits, the dot, the dash and the underscore.
pub proof fn law_ids(a: Seq<char>, b: Seq<char>, c: char)
    ensures
        !id_form(Seq::empty()),
        a.len() > 0 && b.len() > 0 ==> (id_form(a + b) <==> id_form(a) && id_form(b) && a.len()
            + b.len() <= 64),
        id_form(seq![c]) <==> ({
            let n = c as int;
            48 <= n < 58 || 65 <= n < 91 || 97 <= n < 123 || n == 45 || n == 46 || n == 95
        }),
{
    if a.len() > 0 && b.len() > 0 {
        let all = a + b;
        if id_form(all) {
            assert forall|i: int| 0 <= i < a.len() implies id_char(#[trigger] a[i]) by {
                assert(all[i] == a[i]);
            }
            assert forall|i: int| 0 <= i < b.len() implies id_char(#[trigger] b[i]) by {
                assert(all[a.len() + i] == b[i]);
            }
        }
    }
    assert(seq![c][0] == c);
}

/// The contents of a row are its fields, each under its own name.
pub proof fn law_row_contents(row: ServerStatus)
    ensures
        row@.id == row.id@,
        row@.name == row.name@,
        row@.country is Some <==> row.country is Some,
        row.country matches Some(t) ==> row@.country == Some(t@),
        row@.city is Some <==> row.city is Some,
        row.city matches Some(t) ==> row@.city == Some(t@),
        row@.cpu == row.cpu,
        row@.load1 == row.load1,
        row@.load5 == row.load5,
        row@.load15 == row.load15,
        row@.mem_used == row.mem_used,
        row@.mem_total == row.mem_total,
        row@.disk_used == row.disk_used,
        row@.disk_total == row.disk_total,
        row@.net_rx == row.net_rx,
        row@.net_tx == row.net_tx,
        row@.cum_in == row.cum_in,
        row@.cum_out == row.cum_out,
        row@.last_raw_in == row.last_raw_in,
        row@.last_raw_out == row.last_raw_out,
        row@.traffic_start is Some <==> row.traffic_start is Some,
        row.traffic_start matches Some(t) ==> row@.traffic_start == Some(t@),
        row@.traffic_limit == row.traffic_limit,
        row@.traffic_notify_percent == row.traffic_notify_percent,
        row@.uptime == row.uptime,
        row@.latency_telecom == row.latency_telecom,
        row@.latency_unicom == row.latency_unicom,
        row@.latency_mobile == row.latency_mobile,
        row@.packet_loss == row.packet_loss,
        row@.last_seen == row.last_seen,
{
}

/// The contents of a report are its fields, each under its own name.
pub proof fn law_payload_contents(report: ReportPayload)
    ensures
        report@.id == report.id@,
        report@.name is Some <==> report.name is Some,
        report.name matches Some(t) ==> report@.name == Some(t@),
        report@.secret == report.secret@,
        report@.country is Some <==> report.country is Some,
        report.country matches Some(t) ==> report@.country == Some(t@),
        report@.city is Some <==> report.city is Some,
        report.city matches Some(t) ==> report@.city == Some(t@),
        report@.cpu == report.cpu,
        report@.load == report.load@,
        report@.mem_used == report.mem_used,
        report@.mem_total == report.mem_total,
        report@.disk_used == report.disk_used,
        report@.disk_total == report.disk_total,
        report@.net_rx == report.net_rx,
        report@.net_tx == report.net_tx,
        report@.traffic_in == report.traffic_in,
        report@.traffic_out == report.traffic_out,
        report@.uptime == report.uptime,
        report@.latency == report.latency,
        report@.loss == report.loss,
{
}

/// What the alert checks are told is in the fields, each under its own name.
pub proof fn law_result_contents(result: UpsertResult)
    ensures
        result@.id == result.id@,
        result@.name == result.name@,
        result@.cpu == result.cpu,
        result@.mem_used == result.mem_used,
        result@.mem_total == result.mem_total,
        result@.cum_in == result.cum_in,
        result@.cum_out == result.cum_out,
        result@.traffic_limit == result.traffic_limit,
        result@.traffic_notify_percent == result.traffic_notify_percent,
{
}

} // verus!
