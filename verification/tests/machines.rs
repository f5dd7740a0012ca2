use vps_monitor::clock::Moment;
use vps_monitor::db::{
    rename_server, reset_traffic, traffic_tallies, update_traffic_limit, upsert_server, valid_id,
    Addend, Known, Latency, ReportPayload, ServerStatus, Tally,
};
use vps_monitor::quantity::Quantity;

fn q(x: f64) -> Quantity {
    Quantity { bits: x.to_bits() }
}

fn f(x: Quantity) -> f64 {
    f64::from_bits(x.bits)
}

fn at(secs: i64) -> Moment {
    Moment::new(secs, 0).unwrap()
}

fn report(uptime: i64, traffic_in: f64, traffic_out: f64) -> ReportPayload {
    ReportPayload {
        id: "oracle-tokyo".to_string(),
        name: Some("Oracle".to_string()),
        secret: "s".to_string(),
        country: None,
        city: None,
        cpu: q(12.5),
        load: [q(0.1), q(0.2), q(0.3)],
        mem_used: q(1.0),
        mem_total: q(4.0),
        disk_used: q(10.0),
        disk_total: q(40.0),
        net_rx: q(7.0),
        net_tx: q(8.0),
        traffic_in: q(traffic_in),
        traffic_out: q(traffic_out),
        uptime,
        latency: None,
        loss: None,
    }
}

fn value(tally: Tally) -> Quantity {
    match tally.addend {
        Addend::Difference { newer, older } => q(f(tally.total) + (f(newer) - f(older))),
        Addend::Whole { newer } => q(f(tally.total) + f(newer)),
        Addend::Nothing => q(f(tally.total) + 0.0),
    }
}

fn take_in(row: ServerStatus, payload: &ReportPayload, now: Moment) -> ServerStatus {
    let (incoming, outgoing) = traffic_tallies(&row, payload);
    let known = Known {
        row,
        cum_in: value(incoming),
        cum_out: value(outgoing),
    };
    upsert_server(Some(known), payload, now).0
}

#[test]
fn valid_id_accepts_plain_ids_only() {
    assert!(valid_id("oracle-tokyo"));
    assert!(valid_id("A.z_0-9"));
    assert!(valid_id(&"a".repeat(64)));
    assert!(!valid_id(&"a".repeat(65)));
    assert!(!valid_id(""));
    assert!(!valid_id("a b"));
    assert!(!valid_id("a\n"));
    assert!(!valid_id("<b>"));
    assert!(!valid_id("東京"));
    for c in 0..=255u8 {
        let c = c as char;
        let plain = c.is_ascii_alphanumeric() || c == '.' || c == '_' || c == '-';
        assert_eq!(valid_id(&c.to_string()), plain, "{:?}", c);
    }
}

#[test]
fn first_report_starts_at_zero() {
    let (row, result) = upsert_server(None, &report(100, 50.0, 60.0), at(1789905600));
    assert_eq!(row.id, "oracle-tokyo");
    assert_eq!(row.name, "Oracle");
    assert_eq!((row.cum_in, row.cum_out), (q(0.0), q(0.0)));
    assert_eq!((row.last_raw_in, row.last_raw_out), (q(50.0), q(60.0)));
    assert_eq!(row.traffic_start.as_deref(), Some("2026-09-20T12:00:00+00:00"));
    assert_eq!((row.traffic_limit, row.traffic_notify_percent), (q(0.0), q(80.0)));
    assert_eq!((row.load1, row.load5, row.load15), (q(0.1), q(0.2), q(0.3)));
    assert_eq!(row.cpu, q(12.5));
    assert_eq!((row.mem_used, row.mem_total), (q(1.0), q(4.0)));
    assert_eq!((row.disk_used, row.disk_total), (q(10.0), q(40.0)));
    assert_eq!((row.net_rx, row.net_tx), (q(7.0), q(8.0)));
    assert_eq!(row.uptime, 100);
    assert_eq!(row.last_seen.secs(), 1789905600);
    assert_eq!(result.id, "oracle-tokyo");
    assert_eq!(result.name, "Oracle");
    assert_eq!(result.cpu, q(12.5));
    assert_eq!((result.mem_used, result.mem_total), (q(1.0), q(4.0)));
    assert_eq!((result.cum_in, result.cum_out), (q(0.0), q(0.0)));
    assert_eq!((result.traffic_limit, result.traffic_notify_percent), (q(0.0), q(80.0)));
}

#[test]
fn name_falls_back_to_the_id_and_is_clipped() {
    let mut p = report(1, 0.0, 0.0);
    p.name = None;
    assert_eq!(upsert_server(None, &p, at(0)).0.name, "oracle-tokyo");
    p.name = Some("名".repeat(70));
    p.country = Some("123456789".to_string());
    p.city = Some("c".repeat(65));
    let (row, result) = upsert_server(None, &p, at(0));
    assert_eq!(row.name, "名".repeat(64));
    assert_eq!(result.name, "名".repeat(64));
    assert_eq!(row.country.as_deref(), Some("12345678"));
    assert_eq!(row.city, Some("c".repeat(64)));
}

#[test]
fn latency_and_loss_are_those_of_the_last_report() {
    let mut p = report(1, 0.0, 0.0);
    p.latency = Some(Latency {
        telecom: Some(10),
        unicom: None,
        mobile: Some(30),
    });
    p.loss = Some(q(0.5));
    let row = upsert_server(None, &p, at(0)).0;
    assert_eq!((row.latency_telecom, row.latency_unicom), (Some(10), None));
    assert_eq!((row.latency_mobile, row.packet_loss), (Some(30), Some(q(0.5))));
    let row = take_in(row, &report(2, 0.0, 0.0), at(1));
    assert_eq!((row.latency_telecom, row.latency_mobile), (None, None));
    assert_eq!(row.packet_loss, None);
}

#[test]
fn traffic_adds_up_across_a_reboot() {
    let row = upsert_server(None, &report(100, 50.0, 60.0), at(0)).0;
    let row = take_in(row, &report(120, 52.0, 60.5), at(20));
    assert_eq!((row.cum_in, row.cum_out), (q(2.0), q(0.5)));
    let row = take_in(row, &report(5, 1.0, 0.25), at(40));
    assert_eq!((row.cum_in, row.cum_out), (q(3.0), q(0.75)));
    assert_eq!((row.last_raw_in, row.last_raw_out), (q(1.0), q(0.25)));
}

#[test]
fn counter_that_falls_without_a_reboot_adds_nothing() {
    let row = upsert_server(None, &report(100, 50.0, 60.0), at(0)).0;
    let row = take_in(row, &report(120, 3.0, 61.0), at(20));
    assert_eq!((row.cum_in, row.cum_out), (q(0.0), q(1.0)));
    let row = take_in(row, &report(140, 4.0, 61.0), at(40));
    assert_eq!((row.cum_in, row.cum_out), (q(1.0), q(1.0)));
}

#[test]
fn reboot_with_a_larger_counter_adds_the_difference() {
    let row = upsert_server(None, &report(100, 1.0, 1.0), at(0)).0;
    let (incoming, outgoing) = traffic_tallies(&row, &report(5, 9.0, 0.5));
    assert_eq!(
        incoming.addend,
        Addend::Difference {
            newer: q(9.0),
            older: q(1.0)
        }
    );
    assert_eq!(outgoing.addend, Addend::Whole { newer: q(0.5) });
    assert_eq!(incoming.total, q(0.0));
}

#[test]
fn rename_outlives_reports() {
    let mut row = upsert_server(None, &report(1, 0.0, 0.0), at(0)).0;
    rename_server(&mut row, "我的主機");
    assert_eq!(row.id, "oracle-tokyo");
    let payload = report(2, 0.0, 0.0);
    let known = Known {
        row,
        cum_in: q(0.0),
        cum_out: q(0.0),
    };
    let (row, result) = upsert_server(Some(known), &payload, at(1));
    assert_eq!(row.name, "我的主機");
    assert_eq!(result.name, "Oracle");
    let mut row = row;
    rename_server(&mut row, &"x".repeat(80));
    assert_eq!(row.name, "x".repeat(64));
}

#[test]
fn place_stays_until_another_is_named() {
    let mut p = report(1, 0.0, 0.0);
    p.country = Some("JP".to_string());
    p.city = Some("Tokyo".to_string());
    let row = upsert_server(None, &p, at(0)).0;
    let row = take_in(row, &report(2, 0.0, 0.0), at(1));
    assert_eq!(row.country.as_deref(), Some("JP"));
    assert_eq!(row.city.as_deref(), Some("Tokyo"));
    p.city = Some("Osaka".to_string());
    p.country = None;
    let row = take_in(row, &p, at(2));
    assert_eq!(row.country.as_deref(), Some("JP"));
    assert_eq!(row.city.as_deref(), Some("Osaka"));
}

#[test]
fn reset_starts_counting_anew() {
    let row = upsert_server(None, &report(100, 50.0, 60.0), at(0)).0;
    let mut row = take_in(row, &report(120, 55.0, 66.0), at(20));
    reset_traffic(&mut row, at(1789905600));
    assert_eq!((row.cum_in, row.cum_out), (q(0.0), q(0.0)));
    assert_eq!(row.traffic_start.as_deref(), Some("2026-09-20T12:00:00+00:00"));
    assert_eq!((row.last_raw_in, row.last_raw_out), (q(55.0), q(66.0)));
    let row = take_in(row, &report(140, 56.0, 68.0), at(1789905620));
    assert_eq!((row.cum_in, row.cum_out), (q(1.0), q(2.0)));
    assert_eq!(row.traffic_start.as_deref(), Some("2026-09-20T12:00:00+00:00"));
}

#[test]
fn limit_outlives_reports() {
    let mut row = upsert_server(None, &report(1, 0.0, 0.0), at(0)).0;
    update_traffic_limit(&mut row, q(1000.0), q(85.0));
    let row = take_in(row, &report(2, 0.0, 0.0), at(1));
    assert_eq!((row.traffic_limit, row.traffic_notify_percent), (q(1000.0), q(85.0)));
    assert_eq!(row.last_seen.secs(), 1);
}

#[test]
fn totals_never_fall() {
    let mut row = upsert_server(None, &report(100, 50.0, 60.0), at(0)).0;
    let readings = [(120, 0.3), (10, 0.1), (20, 7.7), (30, 1e-9), (5, 1e9), (6, 1e-300)];
    for (i, (uptime, raw)) in readings.iter().enumerate() {
        let before = row.cum_in;
        row = take_in(row, &report(*uptime, *raw, 0.0), at(i as i64));
        assert!(row.cum_in.at_least(before));
    }
}

#[test]
fn whole_totals_are_exact() {
    let large = 4503599627370497.0;
    let row = upsert_server(None, &report(100, 1.0, 0.0), at(0)).0;
    let row = take_in(row, &report(200, large, 3.0), at(1));
    let row = take_in(row, &report(5, 7.0, 1.0), at(2));
    let row = take_in(row, &report(6, 9.0, 0.0), at(3));
    assert_eq!((row.cum_in, row.cum_out), (q(large - 1.0 + 7.0 + 2.0), q(4.0)));
}

#[test]
fn clone_keeps_every_field() {
    let mut payload = report(100, 50.0, 60.0);
    payload.country = Some("JP".to_string());
    payload.loss = Some(q(0.5));
    let row = upsert_server(None, &payload, at(7)).0;
    assert_eq!(format!("{:?}", row.clone()), format!("{:?}", row));
}
