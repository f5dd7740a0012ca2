use vps_monitor::agent::{
    collect_metrics, disk_space, fetch_geo, geo_place, hostname, is_virtual_iface, load_config,
    report_outcome, report_url, send_report, total_counters, AgentEnv, Config, ConfigError,
    Counters, DiskSpace, Interface, Sample,
};
use vps_monitor::http::HttpStatus;
use vps_monitor::quantity::Quantity;

fn some(s: &str) -> Option<String> {
    Some(s.to_string())
}

fn env() -> AgentEnv {
    AgentEnv {
        host: "box".to_string(),
        agent_id: None,
        agent_name: None,
        monitor_url: some("http://10.0.0.1:8080/"),
        report_secret: some("SECRET-REDACTED"),
        interval_secs: None,
        net_ifaces: None,
    }
}

fn config(net_ifaces: Option<Vec<String>>) -> Config {
    let mut c = load_config(env()).unwrap();
    c.net_ifaces = net_ifaces;
    c
}

fn iface(name: &str, received: u64, transmitted: u64) -> Interface {
    Interface {
        name: name.to_string(),
        received,
        transmitted,
    }
}

fn sample(interfaces: Vec<Interface>) -> Sample {
    Sample {
        cpu: Quantity::ninety(),
        load: [Quantity::zero(), Quantity::eighty(), Quantity::hundred()],
        mem_used: 1 << 30,
        mem_total: 4 << 30,
        disks: vec![DiskSpace {
            mount_point: "/".to_string(),
            total: 100,
            available: 30,
        }],
        interfaces,
        uptime: 77,
    }
}

#[test]
fn virtual_interfaces() {
    for name in [
        "lo", "docker0", "br-1a2b", "veth12", "virbr0", "tailscale0", "wg0", "cni0", "flannel.1",
        "cali123", "lowpan0",
    ] {
        assert!(is_virtual_iface(name), "{}", name);
    }
    for name in ["eth0", "ens18", "wlan0", "br0", "w", "", "bond0", "LO"] {
        assert!(!is_virtual_iface(name), "{}", name);
    }
}

#[test]
fn hostname_sources_in_order() {
    assert_eq!(hostname(some(" box\n"), some("h1"), some("h2")), "box");
    assert_eq!(hostname(some(" \n"), some("h1"), some("h2")), "h1");
    assert_eq!(hostname(None, some(""), some("h2")), "h2");
    assert_eq!(hostname(None, some(" "), some("h2")), " ");
    assert_eq!(hostname(None, None, some("")), "unknown-host");
    assert_eq!(hostname(None, None, None), "unknown-host");
}

#[test]
fn config_defaults() {
    let c = load_config(env()).unwrap();
    assert_eq!(c.server_url, "http://10.0.0.1:8080/");
    assert_eq!((c.agent_id.as_str(), c.agent_name.as_str()), ("box", "box"));
    assert_eq!(c.secret, "SECRET-REDACTED");
    assert_eq!(c.interval_secs, 20);
    assert_eq!(c.net_ifaces, None);
}

#[test]
fn config_names() {
    let mut e = env();
    e.agent_id = some("id1");
    let c = load_config(e).unwrap();
    assert_eq!((c.agent_id.as_str(), c.agent_name.as_str()), ("id1", "id1"));
    let mut e = env();
    e.agent_id = some("  ");
    e.agent_name = some(" n ");
    let c = load_config(e).unwrap();
    assert_eq!((c.agent_id.as_str(), c.agent_name.as_str()), ("box", " n "));
}

#[test]
fn config_interval() {
    for (value, secs) in [("60", 60), ("+5", 5), ("0", 0), (" 60", 20), ("x", 20), ("", 20)] {
        let mut e = env();
        e.interval_secs = some(value);
        assert_eq!(load_config(e).unwrap().interval_secs, secs, "{:?}", value);
    }
}

#[test]
fn config_interfaces() {
    let list = |value: &str| {
        let mut e = env();
        e.net_ifaces = some(value);
        load_config(e).unwrap().net_ifaces
    };
    assert_eq!(list(""), None);
    assert_eq!(list("  "), None);
    assert_eq!(list(","), Some(vec![]));
    assert_eq!(list("eth0, ens18 ,"), Some(vec!["eth0".to_string(), "ens18".to_string()]));
}

#[test]
fn config_needs_server_and_secret() {
    let mut e = env();
    e.monitor_url = None;
    e.report_secret = None;
    let error = load_config(e).unwrap_err();
    assert_eq!(error, ConfigError::MonitorUrl);
    assert_eq!(error.message(), "MONITOR_URL required");
    let mut e = env();
    e.report_secret = None;
    let error = load_config(e).unwrap_err();
    assert_eq!(error, ConfigError::ReportSecret);
    assert_eq!(error.message(), "REPORT_SECRET required");
}

#[test]
fn report_address() {
    assert_eq!(report_url("http://a:8080"), "http://a:8080/api/report");
    assert_eq!(report_url("http://a:8080//"), "http://a:8080/api/report");
    assert_eq!(report_url(""), "/api/report");
}

#[test]
fn geo_answers() {
    let ok = HttpStatus::new(200).unwrap();
    let body = |s: &str| s.as_bytes().to_vec();
    assert_eq!(
        fetch_geo(Some((
            ok,
            body("{\"status\":\"success\",\"countryCode\":\"JP\",\"city\":\"T\\u014dky\\u014d\"}")
        ))),
        (some("JP"), some("Tōkyō"))
    );
    assert_eq!(
        fetch_geo(Some((ok, body("{\"status\":\"success\",\"city\":7}")))),
        (None, None)
    );
    assert_eq!(
        fetch_geo(Some((ok, body("{\"status\":\"fail\",\"city\":\"x\"}")))),
        (None, None)
    );
    assert_eq!(fetch_geo(Some((ok, body("[\"status\"]")))), (None, None));
    assert_eq!(fetch_geo(Some((ok, body("not json")))), (None, None));
    let bad = HttpStatus::new(429).unwrap();
    assert_eq!(
        fetch_geo(Some((bad, body("{\"status\":\"success\",\"city\":\"x\"}")))),
        (None, None)
    );
    assert_eq!(fetch_geo(None), (None, None));
}

#[test]
fn geo_place_needs_success() {
    assert_eq!(geo_place(some("success"), some("JP"), None), (some("JP"), None));
    assert_eq!(geo_place(some("fail"), some("JP"), some("x")), (None, None));
    assert_eq!(geo_place(None, some("JP"), some("x")), (None, None));
}

#[test]
fn disk_of_the_root() {
    let d = |mount_point: &str, total, available| DiskSpace {
        mount_point: mount_point.to_string(),
        total,
        available,
    };
    assert_eq!(disk_space(&vec![]), (0, 0));
    assert_eq!(disk_space(&vec![d("/data", 9, 1), d("/", 100, 30), d("/", 7, 7)]), (100, 70));
    assert_eq!(disk_space(&vec![d("/data", 9, 1), d("/data", 5, 1)]), (9, 8));
    assert_eq!(disk_space(&vec![d("/data", 9, 1), d("/", 0, 0)]), (9, 8));
    assert_eq!(disk_space(&vec![d("/", 5, 9)]), (5, 0));
}

#[test]
fn counters_of_real_interfaces() {
    let all = vec![iface("lo", 1, 2), iface("eth0", 10, 20), iface("ens18", 100, 200)];
    let c = config(None);
    assert_eq!(total_counters(&c, &all), Some(Counters { rx: 110, tx: 220 }));
    let c = config(Some(vec!["lo".to_string(), "eth0".to_string()]));
    assert_eq!(total_counters(&c, &all), Some(Counters { rx: 11, tx: 22 }));
    let c = config(Some(vec![]));
    assert_eq!(total_counters(&c, &all), Some(Counters { rx: 0, tx: 0 }));
    let c = config(None);
    let full = vec![iface("eth0", u64::MAX, 0), iface("eth1", 1, 0)];
    assert_eq!(total_counters(&c, &full), None);
}

#[test]
fn metrics_of_a_sample() {
    let c = config(None);
    let mut previous = Counters { rx: 0, tx: 0 };
    let r = collect_metrics(&mut previous, &sample(vec![iface("eth0", 1000, 500)]), &some("JP"), &None, &c)
        .unwrap();
    assert_eq!((r.net_rx, r.net_tx), (0, 0));
    assert_eq!((r.traffic_in, r.traffic_out), (1000, 500));
    assert_eq!(previous, Counters { rx: 1000, tx: 500 });
    assert_eq!((r.id.as_str(), r.name.as_deref()), ("box", Some("box")));
    assert_eq!((r.country.as_deref(), r.city.as_deref()), (Some("JP"), None));
    assert_eq!((r.disk_total, r.disk_used), (100, 70));
    assert_eq!((r.mem_total, r.mem_used), (4 << 30, 1 << 30));
    assert_eq!((r.interval_secs, r.uptime), (20, 77));
    assert_eq!(r.cpu, Quantity::ninety());
    assert_eq!(r.load[2], Quantity::hundred());
    assert!(r.latency.is_none() && r.loss.is_none());
    let r = collect_metrics(&mut previous, &sample(vec![iface("eth0", 3048, 400)]), &None, &None, &c)
        .unwrap();
    assert_eq!((r.net_rx, r.net_tx), (2048, 0));
    assert_eq!(previous, Counters { rx: 3048, tx: 400 });
}

#[test]
fn metrics_interval_is_at_least_a_second() {
    let mut c = config(None);
    c.interval_secs = 0;
    let mut previous = Counters { rx: 0, tx: 0 };
    let r = collect_metrics(&mut previous, &sample(vec![]), &None, &None, &c).unwrap();
    assert_eq!(r.interval_secs, 1);
}

#[test]
fn metrics_beyond_64_bits() {
    let c = config(None);
    let mut previous = Counters { rx: 5, tx: 6 };
    let s = sample(vec![iface("eth0", u64::MAX, 0), iface("eth1", 1, 0)]);
    assert!(collect_metrics(&mut previous, &s, &None, &None, &c).is_none());
    assert_eq!(previous, Counters { rx: 5, tx: 6 });
}

#[test]
fn report_answers() {
    let ok = HttpStatus::new(200).unwrap();
    let no = HttpStatus::new(401).unwrap();
    assert_eq!(send_report(Some((ok, String::new()))), Ok(()));
    assert_eq!(
        send_report(Some((no, "unauthorized".to_string()))),
        Err("server returned 401 Unauthorized: unauthorized".to_string())
    );
    assert_eq!(send_report(None), Err("send failed".to_string()));
    assert_eq!(report_outcome(no, "401", "x"), Err("server returned 401: x".to_string()));
}
