use vps_monitor::clock::Moment;
use vps_monitor::db::UpsertResult;
use vps_monitor::notify::{
    check_report_alerts, cooled_down, load_settings, memory_share, report_alert, report_checks,
    report_readings, traffic_share, AlertKind, Cooldowns, NotifySettings, ReportReadings, Wording,
    ALERT_COOLDOWN,
};
use vps_monitor::quantity::Quantity;

fn q(x: f64) -> Quantity {
    Quantity { bits: x.to_bits() }
}

fn result(cpu: f32, mem_used: f64, cum_in: f64, cum_out: f64, limit: f64) -> UpsertResult {
    UpsertResult {
        id: "oracle-tokyo".to_string(),
        name: "Oracle-東京".to_string(),
        cpu: q(cpu as f64),
        mem_used: q(mem_used),
        mem_total: q(4.0),
        cum_in: q(cum_in),
        cum_out: q(cum_out),
        traffic_limit: q(limit),
        traffic_notify_percent: q(80.0),
    }
}

fn readings(settings: &NotifySettings, r: &UpsertResult) -> ReportReadings {
    let f = |x: Quantity| f64::from_bits(x.bits);
    let memory = memory_share(r);
    let traffic = traffic_share(r);
    let mem_pct = (f(memory.part) / f(memory.whole) * 100.0) as f32;
    let total = f(traffic.part) + f(traffic.more.unwrap());
    let pct = total / f(traffic.whole) * 100.0;
    let wording = Wording {
        cpu: format!("{:.1}", f(r.cpu)),
        cpu_threshold: format!("{:.0}", f(settings.cpu_threshold)),
        mem_pct: format!("{:.1}", mem_pct),
        mem_threshold: format!("{:.0}", f(settings.mem_threshold)),
        traffic_pct: format!("{:.1}", pct),
        traffic_total: format!("{:.2}", total),
        traffic_limit: format!("{:.0}", f(r.traffic_limit)),
    };
    report_readings(r, q(mem_pct as f64), q(pct), wording)
}

#[test]
fn shares_name_their_operands() {
    let r = result(1.0, 3.0, 5.0, 6.0, 7.0);
    let m = memory_share(&r);
    assert_eq!((m.part, m.more, m.whole), (q(3.0), None, q(4.0)));
    let t = traffic_share(&r);
    assert_eq!((t.part, t.more, t.whole), (q(5.0), Some(q(6.0)), q(7.0)));
}

#[test]
fn default_settings() {
    let s = load_settings(None);
    assert!(!s.telegram_enabled && !s.webhook_enabled);
    assert_eq!(s.offline_minutes, 5);
    assert_eq!(s.cpu_threshold, q(90.0));
    assert_eq!(s.mem_threshold, q(90.0));
    assert_eq!(s.webhook_url, "");
}

#[test]
fn unreadable_settings_are_silent() {
    let s = load_settings(Some(None));
    assert!(!s.telegram_enabled && !s.webhook_enabled);
    assert_eq!(s.offline_minutes, 0);
    assert_eq!(s.cpu_threshold, q(0.0));
    assert_eq!(NotifySettings::from_json(None).offline_minutes, 0);
    assert_eq!(NotifySettings::default().mem_threshold, q(0.0));
}

#[test]
fn stored_settings_are_in_force() {
    let mut s = NotifySettings::default();
    s.webhook_enabled = true;
    s.webhook_url = "https://abc.com/alert".to_string();
    s.offline_minutes = 7;
    let loaded = load_settings(Some(Some(s.clone())));
    assert!(loaded.webhook_enabled);
    assert_eq!(loaded.webhook_url, "https://abc.com/alert");
    assert_eq!(loaded.offline_minutes, 7);
    assert_eq!(NotifySettings::from_json(Some(s)).offline_minutes, 7);
}

#[test]
fn settings_that_do_not_encode_are_an_empty_object() {
    assert_eq!(NotifySettings::to_json(None), "{}");
    assert_eq!(NotifySettings::to_json(Some("{\"a\":1}".to_string())), "{\"a\":1}");
}

#[test]
fn checks_come_in_order() {
    assert_eq!(
        report_checks(),
        vec![AlertKind::Cpu, AlertKind::Memory, AlertKind::Traffic]
    );
}

#[test]
fn one_alert_per_cooldown() {
    let mut c = Cooldowns::new();
    assert!(cooled_down(&mut c, "a", AlertKind::Cpu, 7));
    assert!(!cooled_down(&mut c, "a", AlertKind::Cpu, 7));
    assert!(!cooled_down(&mut c, "a", AlertKind::Cpu, 7 + ALERT_COOLDOWN - 1));
    assert!(!cooled_down(&mut c, "a", AlertKind::Cpu, 0));
    assert!(cooled_down(&mut c, "a", AlertKind::Memory, 7));
    assert!(cooled_down(&mut c, "a", AlertKind::Traffic, 7));
    assert!(cooled_down(&mut c, "b", AlertKind::Cpu, 8));
    assert!(cooled_down(&mut c, "a", AlertKind::Cpu, 7 + ALERT_COOLDOWN));
    assert!(!cooled_down(&mut c, "a", AlertKind::Cpu, 8 + ALERT_COOLDOWN));
    assert_eq!(ALERT_COOLDOWN, 30 * 60 * 1_000_000_000);
}

#[test]
fn alerts_lie_a_cooldown_apart() {
    let mut c = Cooldowns::new();
    let step = 20_000_000_000u128;
    let mut sent: Vec<u128> = Vec::new();
    for i in 0..500u128 {
        if cooled_down(&mut c, "a", AlertKind::Cpu, i * step) {
            sent.push(i * step);
        }
    }
    assert_eq!(sent.len(), 6);
    for pair in sent.windows(2) {
        assert!(pair[1] - pair[0] >= ALERT_COOLDOWN);
    }
}

#[test]
fn traffic_alert_in_full() {
    let mut c = Cooldowns::new();
    let s = load_settings(None);
    let r = result(1.0, 1.0, 850.0, 0.2, 1000.0);
    let mut readings = readings(&s, &r);
    readings.wording.traffic_pct = "85.0".to_string();
    readings.traffic_pct = q(85.0);
    let now = Moment::new(1789905600, 0).unwrap();
    let a = check_report_alerts(&mut c, &s, &readings, AlertKind::Traffic, now, 0).unwrap();
    assert_eq!(a.title, "流量告警");
    assert_eq!(
        a.message,
        "Oracle-東京 累計流量已達 85.0%（850.20 GB / 1000 GB）"
    );
    assert_eq!(a.server_id, "oracle-tokyo");
    assert_eq!(a.server_name, "Oracle-東京");
    assert_eq!(a.alert_type, "traffic");
    assert_eq!(a.level, "warning");
    assert_eq!((a.value, a.limit), (q(85.0), q(1000.0)));
    assert_eq!(a.timestamp, "2026-09-20T12:00:00+00:00");
}

#[test]
fn traffic_beyond_the_allowance_is_critical() {
    let s = load_settings(None);
    let mut c = Cooldowns::new();
    let r = readings(&s, &result(1.0, 1.0, 60.0, 40.0, 100.0));
    let a = report_alert(&mut c, &s, &r, AlertKind::Traffic, "t", 0).unwrap();
    assert_eq!(a.level, "critical");
    assert_eq!(a.message, "Oracle-東京 累計流量已達 100.0%（100.00 GB / 100 GB）");
    let mut c = Cooldowns::new();
    let r = readings(&s, &result(1.0, 1.0, 39.0, 40.0, 100.0));
    assert!(report_alert(&mut c, &s, &r, AlertKind::Traffic, "t", 0).is_none());
    let r = readings(&s, &result(1.0, 1.0, 40.0, 40.0, 100.0));
    assert!(report_alert(&mut c, &s, &r, AlertKind::Traffic, "t", 0).is_some());
}

#[test]
fn cpu_alert_at_the_threshold() {
    let s = load_settings(None);
    let mut c = Cooldowns::new();
    let r = readings(&s, &result(89.9, 1.0, 0.0, 0.0, 0.0));
    assert!(report_alert(&mut c, &s, &r, AlertKind::Cpu, "t", 0).is_none());
    let r = readings(&s, &result(90.0, 1.0, 0.0, 0.0, 0.0));
    let a = report_alert(&mut c, &s, &r, AlertKind::Cpu, "t", 1).unwrap();
    assert_eq!(a.title, "CPU 告警");
    assert_eq!(a.message, "Oracle-東京 CPU 使用率 90.0%（閾值 90%）");
    assert_eq!((a.alert_type.as_str(), a.level.as_str()), ("cpu", "warning"));
    assert_eq!((a.value, a.limit), (q(90.0), q(90.0)));
    assert_eq!(a.timestamp, "t");
    assert!(report_alert(&mut c, &s, &r, AlertKind::Cpu, "t", 2).is_none());
    assert!(report_alert(&mut c, &s, &r, AlertKind::Cpu, "t", 1 + ALERT_COOLDOWN).is_some());
}

#[test]
fn memory_alert_at_the_threshold() {
    let s = load_settings(None);
    let mut c = Cooldowns::new();
    let r = readings(&s, &result(1.0, 3.8, 0.0, 0.0, 0.0));
    let a = report_alert(&mut c, &s, &r, AlertKind::Memory, "t", 0).unwrap();
    assert_eq!(a.title, "記憶體告警");
    assert_eq!(a.message, "Oracle-東京 記憶體使用率 95.0%（閾值 90%）");
    assert_eq!((a.alert_type.as_str(), a.level.as_str()), ("memory", "warning"));
    assert_eq!((a.value, a.limit), (q(95.0), q(90.0)));
    let mut none = result(1.0, 3.8, 0.0, 0.0, 0.0);
    none.mem_total = q(0.0);
    let r = readings(&s, &none);
    let mut c = Cooldowns::new();
    assert!(report_alert(&mut c, &s, &r, AlertKind::Memory, "t", 0).is_none());
}

#[test]
fn zero_switches_alerts_off() {
    let mut s = load_settings(None);
    s.cpu_threshold = q(0.0);
    s.mem_threshold = q(-0.0);
    let r = readings(&s, &result(100.0, 4.0, 500.0, 500.0, 0.0));
    for kind in report_checks() {
        let mut c = Cooldowns::new();
        assert!(report_alert(&mut c, &s, &r, kind, "t", 0).is_none());
    }
}

#[test]
fn refused_check_does_not_start_the_cooldown() {
    let s = load_settings(None);
    let mut c = Cooldowns::new();
    let low = readings(&s, &result(10.0, 1.0, 0.0, 0.0, 0.0));
    let high = readings(&s, &result(99.0, 1.0, 0.0, 0.0, 0.0));
    assert!(report_alert(&mut c, &s, &low, AlertKind::Cpu, "t", 0).is_none());
    assert!(report_alert(&mut c, &s, &high, AlertKind::Cpu, "t", 1).is_some());
}

#[test]
fn used_up_allowance_is_critical_despite_rounding() {
    let mut s = load_settings(None);
    s.mem_threshold = q(100.0);
    for (cum_in, cum_out, limit) in [
        (0.1, 0.2, 0.3),
        (1.1, 2.2, 3.3),
        (0.5, 0.375, 0.875),
        (1e308, 1e308, 1.0),
        (5e-324, 0.0, 5e-324),
        (29.0, 0.0, 29.0),
    ] {
        let mut report = result(1.0, 4.0, cum_in, cum_out, limit);
        report.traffic_notify_percent = q(100.0);
        let r = readings(&s, &report);
        let mut c = Cooldowns::new();
        let a = report_alert(&mut c, &s, &r, AlertKind::Traffic, "t", 0).unwrap();
        assert_eq!(a.level, "critical");
        assert!(report_alert(&mut c, &s, &r, AlertKind::Memory, "t", 0).is_some());
    }
}

#[test]
fn interleaved_checks_cool_apart() {
    let s = load_settings(None);
    let mut c = Cooldowns::new();
    let mut other = result(99.0, 4.0, 0.0, 0.0, 0.0);
    other.id = "other".to_string();
    let (a, b) = (readings(&s, &result(99.0, 4.0, 0.0, 0.0, 0.0)), readings(&s, &other));
    let mut sent = Vec::new();
    for tick in 0..40u128 {
        let tick = tick * ALERT_COOLDOWN / 10;
        report_alert(&mut c, &s, &b, AlertKind::Cpu, "t", tick);
        report_alert(&mut c, &s, &a, AlertKind::Memory, "t", tick);
        if report_alert(&mut c, &s, &a, AlertKind::Cpu, "t", tick).is_some() {
            sent.push(tick / ALERT_COOLDOWN);
        }
    }
    assert_eq!(sent, vec![0, 1, 2, 3]);
}
