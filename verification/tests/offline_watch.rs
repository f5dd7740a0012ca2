use vps_monitor::clock::Moment;
use vps_monitor::notify::NotifySettings;
use vps_monitor::offline::{
    begin_sweep, check_offline, is_silent_since, OfflineWatch, SeenRow, SweepStart,
};
use vps_monitor::quantity::Quantity;

const NOW: i64 = 1789905600;

fn at(secs: i64) -> Moment {
    Moment::new(secs, 0).unwrap()
}

fn settings(minutes: i64) -> NotifySettings {
    let mut s = NotifySettings::default();
    s.offline_minutes = minutes;
    s
}

fn row(id: &str, seen: i64) -> SeenRow {
    SeenRow {
        id: id.to_string(),
        name: format!("{} 號", id),
        last_seen: at(seen).to_rfc3339(),
        checked_at: at(NOW),
    }
}

fn sweep(watch: &mut OfflineWatch, rows: Vec<SeenRow>) -> Vec<(String, String)> {
    check_offline(watch, &settings(5), at(NOW), &rows)
        .into_iter()
        .map(|a| {
            assert_eq!(a.alert_type, "offline");
            (a.title, a.server_id)
        })
        .collect()
}

fn named(title: &str, id: &str) -> (String, String) {
    (title.to_string(), id.to_string())
}

#[test]
fn offline_alert_in_full() {
    let mut w = OfflineWatch::new();
    let alerts = check_offline(&mut w, &settings(5), at(NOW), &vec![row("a", NOW - 301)]);
    assert_eq!(alerts.len(), 1);
    let a = &alerts[0];
    assert_eq!(a.title, "離線告警");
    assert_eq!(
        a.message,
        "a 號 已超過 5 分鐘沒有上報（最後：2026-09-20T11:54:59+00:00）"
    );
    assert_eq!((a.server_id.as_str(), a.server_name.as_str()), ("a", "a 號"));
    assert_eq!((a.alert_type.as_str(), a.level.as_str()), ("offline", "critical"));
    assert_eq!(a.value.bits, 5.0f64.to_bits());
    assert_eq!(a.limit, Quantity::zero());
    assert_eq!(a.timestamp, "2026-09-20T12:00:00+00:00");
}

#[test]
fn recovered_alert_in_full() {
    let mut w = OfflineWatch::new();
    sweep(&mut w, vec![row("a", NOW - 301)]);
    let alerts = check_offline(&mut w, &settings(5), at(NOW), &vec![row("a", NOW)]);
    assert_eq!(alerts.len(), 1);
    let a = &alerts[0];
    assert_eq!(a.title, "恢復通知");
    assert_eq!(a.message, "a 號 已恢復上報");
    assert_eq!((a.alert_type.as_str(), a.level.as_str()), ("offline", "info"));
    assert_eq!((a.value, a.limit), (Quantity::zero(), Quantity::zero()));
    assert_eq!(a.timestamp, "2026-09-20T12:00:00+00:00");
}

#[test]
fn offline_is_announced_once() {
    let mut w = OfflineWatch::new();
    assert!(sweep(&mut w, vec![row("a", NOW), row("b", NOW - 300)]).is_empty());
    assert_eq!(
        sweep(&mut w, vec![row("a", NOW - 301), row("b", NOW - 1000)]),
        vec![named("離線告警", "a"), named("離線告警", "b")]
    );
    assert!(sweep(&mut w, vec![row("a", NOW - 301), row("b", NOW - 1000)]).is_empty());
    assert_eq!(
        sweep(&mut w, vec![row("a", NOW), row("b", NOW - 1000)]),
        vec![named("恢復通知", "a")]
    );
    assert_eq!(
        sweep(&mut w, vec![row("a", NOW - 301), row("b", NOW)]),
        vec![named("離線告警", "a"), named("恢復通知", "b")]
    );
}

#[test]
fn machines_that_are_gone_are_forgotten() {
    let mut w = OfflineWatch::new();
    assert_eq!(sweep(&mut w, vec![row("a", NOW - 301)]).len(), 1);
    assert!(sweep(&mut w, vec![]).is_empty());
    assert_eq!(sweep(&mut w, vec![row("a", NOW - 301)]), vec![named("離線告警", "a")]);
    assert!(sweep(&mut w, vec![]).is_empty());
    assert!(sweep(&mut w, vec![row("a", NOW)]).is_empty());
}

#[test]
fn unreadable_times_do_not_count() {
    let mut w = OfflineWatch::new();
    let mut r = row("a", 0);
    r.last_seen = "long ago".to_string();
    assert!(sweep(&mut w, vec![r]).is_empty());
    assert!(!is_silent_since(None, (0, 0)));
}

#[test]
fn watch_can_be_switched_off() {
    for minutes in [0, -1, i64::MIN] {
        assert!(matches!(begin_sweep(&settings(minutes), at(NOW)), SweepStart::Disabled));
        let mut w = OfflineWatch::new();
        let rows = vec![row("a", 0)];
        assert!(check_offline(&mut w, &settings(minutes), at(NOW), &rows).is_empty());
    }
}

#[test]
fn sweep_beyond_the_calendar() {
    assert!(matches!(begin_sweep(&settings(i64::MAX), at(NOW)), SweepStart::OutOfRange));
    let far = (NOW + 8334601228800) / 60;
    assert!(matches!(begin_sweep(&settings(far), at(NOW)), SweepStart::Ready(_)));
    assert!(matches!(begin_sweep(&settings(far + 1), at(NOW)), SweepStart::OutOfRange));
}

#[test]
fn sweep_step_by_step() {
    let mut w = OfflineWatch::new();
    let mut s = match begin_sweep(&settings(5), at(NOW)) {
        SweepStart::Ready(s) => s,
        other => panic!("{:?}", other),
    };
    let mut late = row("a", NOW - 600);
    late.checked_at = at(NOW + 9);
    let alert = s.visit(&mut w, &late).unwrap();
    assert_eq!(alert.timestamp, "2026-09-20T12:00:09+00:00");
    assert!(s.visit(&mut w, &row("b", NOW)).is_none());
    assert!(s.settle(&mut w, &row("c", NOW), true, "t").is_some());
    s.finish(&mut w);
    assert_eq!(
        sweep(&mut w, vec![row("a", NOW), row("b", NOW), row("c", NOW)]),
        vec![named("恢復通知", "a"), named("恢復通知", "c")]
    );
}

#[test]
fn threshold_is_exact() {
    assert!(is_silent_since(Some((99, 999_999_999)), (100, 0)));
    assert!(!is_silent_since(Some((100, 0)), (100, 0)));
    let mut w = OfflineWatch::new();
    assert!(sweep(&mut w, vec![row("a", NOW - 300)]).is_empty());
    assert_eq!(sweep(&mut w, vec![row("a", NOW - 301)]).len(), 1);
}

#[test]
fn one_announcement_over_many_sweeps() {
    let mut w = OfflineWatch::new();
    let mut about_a = Vec::new();
    for i in 0..6 {
        let other = if i % 2 == 0 { NOW } else { NOW - 900 };
        let rows = vec![row("b", other), row("a", NOW - 400 - i)];
        about_a.extend(sweep(&mut w, rows).into_iter().filter(|(_, id)| id == "a"));
    }
    assert_eq!(about_a, vec![named("離線告警", "a")]);
    let back = vec![row("b", NOW), row("a", NOW)];
    assert!(sweep(&mut w, back).contains(&named("恢復通知", "a")));
    assert!(sweep(&mut w, vec![row("a", NOW)]).is_empty());
}

#[test]
fn age_counts_to_the_nanosecond() {
    let now = Moment::new(NOW, 7).unwrap();
    for (nanos, silent) in [(6, 1), (7, 0), (8, 0)] {
        let mut r = row("a", 0);
        r.last_seen = Moment::new(NOW - 300, nanos).unwrap().to_rfc3339();
        let mut w = OfflineWatch::new();
        assert_eq!(check_offline(&mut w, &settings(5), now, &vec![r]).len(), silent);
    }
}
