//! The agent: its configuration, what it samples, and how it reports.
use crate::db::Latency;
use crate::http::HttpStatus;
use crate::quantity::Quantity;
use crate::text;
use vstd::prelude::*;
use vstd::string::*;

verus! {

// Configuration

/// How an agent is set up.
#[derive(Debug)]
pub struct Config {
    pub server_url: String,
    pub agent_id: String,
    pub agent_name: String,
    pub secret: String,
    pub interval_secs: u64,
    /// The network interfaces to count; all but virtual ones when there is no list.
    pub net_ifaces: Option<Vec<String>>,
}

/// The contents of a [`Config`].
#[verifier::ext_equal]
pub struct ConfigView {
    pub server_url: Seq<char>,
    pub agent_id: Seq<char>,
    pub agent_name: Seq<char>,
    pub secret: Seq<char>,
    pub interval_secs: u64,
    pub net_ifaces: Option<Seq<Seq<char>>>,
}

impl View for Config {
    type V = ConfigView;

    open spec fn view(&self) -> ConfigView {
        ConfigView {
            server_url: self.server_url@,
            agent_id: self.agent_id@,
            agent_name: self.agent_name@,
            secret: self.secret@,
            interval_secs: self.interval_secs,
            net_ifaces: match self.net_ifaces {
                Some(list) => Some(text::texts(list@)),
                None => None,
            },
        }
    }
}

/// The environment of an agent, as far as it sets the agent up.
#[derive(Debug)]
pub struct AgentEnv {
    /// The name of the host.
    pub host: String,
    /// `AGENT_ID`
    pub agent_id: Option<String>,
    /// `AGENT_NAME`
    pub agent_name: Option<String>,
    /// `MONITOR_URL`
    pub monitor_url: Option<String>,
    /// `REPORT_SECRET`
    pub report_secret: Option<String>,
    /// `INTERVAL_SECS`
    pub interval_secs: Option<String>,
    /// `NET_IFACES`
    pub net_ifaces: Option<String>,
}

/// What an agent cannot do without.
#[derive(Clone, Copy, Debug, PartialEq, Eq, Structural)]
pub enum ConfigError {
    MonitorUrl,
    ReportSecret,
}

impl ConfigError {
    /// The error in words.
    pub fn message(self) -> (res: &'static str)
        ensures
            self == ConfigError::MonitorUrl ==> res@ == "MONITOR_URL required"@,
            self == ConfigError::ReportSecret ==> res@ == "REPORT_SECRET required"@,
    {
        match self {
            ConfigError::MonitorUrl => "MONITOR_URL required",
            ConfigError::ReportSecret => "REPORT_SECRET required",
        }
    }
}

/// The name of a host: its name file without surrounding white space, else one of two
/// variables, else a fixed name; empty ones do not count.
pub open spec fn host_name(
    file: Option<Seq<char>>,
    hostname_var: Option<Seq<char>>,
    host_var: Option<Seq<char>>,
) -> Seq<char> {
    if file is Some && text::trimmed(file.unwrap()).len() > 0 {
        text::trimmed(file.unwrap())
    } else if hostname_var is Some && hostname_var.unwrap().len() > 0 {
        hostname_var.unwrap()
    } else if host_var is Some && host_var.unwrap().len() > 0 {
        host_var.unwrap()
    } else {
        "unknown-host"@
    }
}

/// The name of the host, from what `/etc/hostname`, `HOSTNAME` and `HOST` hold.
pub fn hostname(
    file: Option<String>,
    hostname_var: Option<String>,
    host_var: Option<String>,
) -> (res: String)
    ensures
        res@ == host_name(
            text::opt_text(file),
            text::opt_text(hostname_var),
            text::opt_text(host_var),
        ),
{
    match file {
        Some(content) => {
            let name = text::trim(content.as_str());
            if !name.as_str().is_empty() {
                return name;
            }
        },
        None => {},
    }
    match hostname_var {
        Some(name) => if !name.as_str().is_empty() {
            return name;
        },
        None => {},
    }
    match host_var {
        Some(name) => if !name.as_str().is_empty() {
            return name;
        },
        None => {},
    }
    "unknown-host".to_owned()
}

/// A value that is there and holds more than white space, else another.
pub open spec fn set_or(value: Option<Seq<char>>, other: Seq<char>) -> Seq<char> {
    match value {
        Some(v) => if text::blank(v) {
            other
        } else {
            v
        },
        None => other,
    }
}

/// The interval that a variable asks for; 20 seconds when it holds no number.
pub open spec fn interval_of(value: Option<Seq<char>>) -> u64 {
    match value {
        Some(v) => match text::unsigned_number(v) {
            Some(secs) => secs,
            None => 20,
        },
        None => 20,
    }
}

/// The interfaces that a variable lists. A blank variable is like one that is not set, and
/// means no list rather than an empty one.
pub open spec fn ifaces_of(value: Option<Seq<char>>) -> Option<Seq<Seq<char>>> {
    match value {
        Some(v) => if text::blank(v) {
            None
        } else {
            Some(text::names_in(text::comma_fields(v)))
        },
        None => None,
    }
}

/// The configuration that an environment describes.
pub open spec fn config_of(env: AgentEnv) -> ConfigView {
    let agent_id = set_or(text::opt_text(env.agent_id), env.host@);
    ConfigView {
        server_url: env.monitor_url.unwrap()@,
        agent_id,
        agent_name: set_or(text::opt_text(env.agent_name), agent_id),
        secret: env.report_secret.unwrap()@,
        interval_secs: interval_of(text::opt_text(env.interval_secs)),
        net_ifaces: ifaces_of(text::opt_text(env.net_ifaces)),
    }
}

fn value_or(value: Option<String>, other: &str) -> (res: String)
    ensures
        res@ == set_or(text::opt_text(value), other@),
{
    match value {
        Some(v) => if text::is_blank(v.as_str()) {
            other.to_owned()
        } else {
            v
        },
        None => other.to_owned(),
    }
}

/// Reads the configuration from the environment. The address of the server and the secret
/// have to be there; everything else has a default.
pub fn load_config(env: AgentEnv) -> (res: Result<Config, ConfigError>)
    ensures
        match res {
            Ok(config) => env.monitor_url is Some && env.report_secret is Some && config@
                == config_of(env),
            Err(ConfigError::MonitorUrl) => env.monitor_url is None,
            Err(ConfigError::ReportSecret) => env.monitor_url is Some && env.report_secret is None,
        },
{
    let agent_id = value_or(env.agent_id, env.host.as_str());
    let agent_name = value_or(env.agent_name, agent_id.as_str());
    let server_url = match env.monitor_url {
        Some(url) => url,
        None => return Err(ConfigError::MonitorUrl),
    };
    let secret = match env.report_secret {
        Some(secret) => secret,
        None => return Err(ConfigError::ReportSecret),
    };
    let interval_secs: u64 = match env.interval_secs {
        Some(v) => match text::parse_unsigned(v.as_str()) {
            Some(secs) => secs,
            None => 20,
        },
        None => 20,
    };
    let net_ifaces = match env.net_ifaces {
        Some(v) => if text::is_blank(v.as_str()) {
            None
        } else {
            Some(text::name_list(v.as_str()))
        },
        None => None,
    };
    Ok(Config { server_url, agent_id, agent_name, secret, interval_secs, net_ifaces })
}

/// The address to which reports are posted.
pub fn report_url(server_url: &str) -> (res: String)
    ensures
        res@ == text::without_slashes(server_url@) + "/api/report"@,
{
    let mut url = text::trim_slashes(server_url);
    url.append("/api/report");
    url
}

// Place

/// The text under a key of a JSON object, as `serde_json` reads it; nothing when the bytes are
/// no JSON, no object, or hold no text under the key.
pub uninterp spec fn json_text(body: Seq<u8>, key: Seq<char>) -> Option<Seq<char>>;

/// Calls `serde_json::from_slice`, `serde_json::Value::get` and `serde_json::Value::as_str`.
///
/// Claims that the result depends on the bytes and the key alone.
#[verifier::external_body]
fn serde_json_text(body: &[u8], key: &str) -> (res: Option<String>)
    ensures
        text::opt_text(res) == json_text(body@, key@),
{
    let value = serde_json::from_slice::<serde_json::Value>(body).ok()?;
    Some(value.get(key)?.as_str()?.to_string())
}

/// The country and city of a lookup, which count only if the lookup succeeded.
pub open spec fn place_of(
    status: Option<Seq<char>>,
    country: Option<Seq<char>>,
    city: Option<Seq<char>>,
) -> (Option<Seq<char>>, Option<Seq<char>>) {
    if status == Some("success"@) {
        (country, city)
    } else {
        (None, None)
    }
}

/// The country and city of a lookup, given the texts of its answer.
pub fn geo_place(status: Option<String>, country: Option<String>, city: Option<String>) -> (res: (
    Option<String>,
    Option<String>,
))
    ensures
        (text::opt_text(res.0), text::opt_text(res.1)) == place_of(
            text::opt_text(status),
            text::opt_text(country),
            text::opt_text(city),
        ),
{
    let succeeded = match status {
        Some(s) => s == "success".to_owned(),
        None => false,
    };
    if succeeded {
        (country, city)
    } else {
        (None, None)
    }
}

/// The country and city of this machine, from the answer of the lookup service. Without an
/// answer, or with one that is not a success, the place is unknown.
pub fn fetch_geo(answer: Option<(HttpStatus, Vec<u8>)>) -> (res: (Option<String>, Option<String>))
    ensures
        (text::opt_text(res.0), text::opt_text(res.1)) == match answer {
            Some((status, body)) => if status.success() {
                place_of(
                    json_text(body@, "status"@),
                    json_text(body@, "countryCode"@),
                    json_text(body@, "city"@),
                )
            } else {
                (None, None)
            },
            None => (None, None),
        },
{
    match answer {
        Some((status, body)) => if status.is_success() {
            geo_place(
                serde_json_text(body.as_slice(), "status"),
                serde_json_text(body.as_slice(), "countryCode"),
                serde_json_text(body.as_slice(), "city"),
            )
        } else {
            (None, None)
        },
        None => (None, None),
    }
}

// Samples

/// The space on a disk, in bytes.
#[derive(Debug)]
pub struct DiskSpace {
    /// Where the disk is mounted.
    pub mount_point: String,
    pub total: u64,
    pub available: u64,
}

/// The counters of a network interface since the host started, in bytes.
#[derive(Debug)]
pub struct Interface {
    pub name: String,
    pub received: u64,
    pub transmitted: u64,
}

/// What is read from the host at one time.
#[derive(Debug)]
pub struct Sample {
    /// CPU use in percent.
    pub cpu: Quantity,
    /// Load averages over 1, 5 and 15 minutes.
    pub load: [Quantity; 3],
    pub mem_used: u64,
    pub mem_total: u64,
    pub disks: Vec<DiskSpace>,
    pub interfaces: Vec<Interface>,
    pub uptime: i64,
}

/// The counters of the last sample; zero before the first one.
#[derive(Clone, Copy, Debug, PartialEq, Eq, Structural)]
pub struct Counters {
    pub rx: u64,
    pub tx: u64,
}

/// A report in the units of the host: bytes, and bytes per interval.
#[derive(Debug)]
pub struct Report {
    pub id: String,
    pub name: Option<String>,
    pub secret: String,
    pub country: Option<String>,
    pub city: Option<String>,
    pub cpu: Quantity,
    pub load: [Quantity; 3],
    pub mem_used: u64,
    pub mem_total: u64,
    pub disk_used: u64,
    pub disk_total: u64,
    /// Bytes received within the interval.
    pub net_rx: u64,
    /// Bytes sent within the interval.
    pub net_tx: u64,
    /// The interval in seconds.
    pub interval_secs: u64,
    /// Bytes received since the host started.
    pub traffic_in: u64,
    /// Bytes sent since the host started.
    pub traffic_out: u64,
    pub uptime: i64,
    pub latency: Option<Latency>,
    pub loss: Option<Quantity>,
}

/// The contents of a [`Report`].
#[verifier::ext_equal]
pub struct ReportContents {
    pub id: Seq<char>,
    pub name: Option<Seq<char>>,
    pub secret: Seq<char>,
    pub country: Option<Seq<char>>,
    pub city: Option<Seq<char>>,
    pub cpu: Quantity,
    pub load: Seq<Quantity>,
    pub mem_used: u64,
    pub mem_total: u64,
    pub disk_used: u64,
    pub disk_total: u64,
    pub net_rx: u64,
    pub net_tx: u64,
    pub interval_secs: u64,
    pub traffic_in: u64,
    pub traffic_out: u64,
    pub uptime: i64,
    pub latency: Option<Latency>,
    pub loss: Option<Quantity>,
}

impl View for Report {
    type V = ReportContents;

    open spec fn view(&self) -> ReportContents {
        ReportContents {
            id: self.id@,
            name: text::opt_text(self.name),
            secret: self.secret@,
            country: text::opt_text(self.country),
            city: text::opt_text(self.city),
            cpu: self.cpu,
            load: self.load@,
            mem_used: self.mem_used,
            mem_total: self.mem_total,
            disk_used: self.disk_used,
            disk_total: self.disk_total,
            net_rx: self.net_rx,
            net_tx: self.net_tx,
            interval_secs: self.interval_secs,
            traffic_in: self.traffic_in,
            traffic_out: self.traffic_out,
            uptime: self.uptime,
            latency: self.latency,
            loss: self.loss,
        }
    }
}

/// The name of an interface that carries no traffic of its own to the outside: loopback,
/// bridges, container and tunnel interfaces.
pub open spec fn virtual_name(name: Seq<char>) -> bool {
    ||| "lo"@.is_prefix_of(name)
    ||| "docker"@.is_prefix_of(name)
    ||| "br-"@.is_prefix_of(name)
    ||| "veth"@.is_prefix_of(name)
    ||| "virbr"@.is_prefix_of(name)
    ||| "tailscale"@.is_prefix_of(name)
    ||| "wg"@.is_prefix_of(name)
    ||| "cni"@.is_prefix_of(name)
    ||| "flannel"@.is_prefix_of(name)
    ||| "cali"@.is_prefix_of(name)
}

/// Tells whether an interface is left out unless it is asked for by name. The counters of such
/// interfaces show traffic within the host, or come and go with containers.
pub fn is_virtual_iface(name: &str) -> (res: bool)
    ensures
        res == virtual_name(name@),
{
    text::starts_with(name, "lo") || text::starts_with(name, "docker") || text::starts_with(
        name,
        "br-",
    ) || text::starts_with(name, "veth") || text::starts_with(name, "virbr") || text::starts_with(
        name,
        "tailscale",
    ) || text::starts_with(name, "wg") || text::starts_with(name, "cni") || text::starts_with(
        name,
        "flannel",
    ) || text::starts_with(name, "cali")
}

/// The traffic of an interface counts: it is on the list, or there is no list and it is not
/// virtual.
pub open spec fn counted(ifaces: Option<Seq<Seq<char>>>, name: Seq<char>) -> bool {
    match ifaces {
        Some(list) => list.contains(name),
        None => !virtual_name(name),
    }
}

/// The bytes received on the interfaces that count.
pub open spec fn received(ifaces: Option<Seq<Seq<char>>>, interfaces: Seq<Interface>) -> nat
    decreases interfaces.len(),
{
    if interfaces.len() == 0 {
        0
    } else {
        let last = interfaces.last();
        received(ifaces, interfaces.drop_last()) + if counted(ifaces, last.name@) {
            last.received as nat
        } else {
            0
        }
    }
}

/// The bytes sent on the interfaces that count.
pub open spec fn transmitted(ifaces: Option<Seq<Seq<char>>>, interfaces: Seq<Interface>) -> nat
    decreases interfaces.len(),
{
    if interfaces.len() == 0 {
        0
    } else {
        let last = interfaces.last();
        transmitted(ifaces, interfaces.drop_last()) + if counted(ifaces, last.name@) {
            last.transmitted as nat
        } else {
            0
        }
    }
}

proof fn lemma_sums_grow(ifaces: Option<Seq<Seq<char>>>, interfaces: Seq<Interface>, n: int)
    requires
        0 <= n <= interfaces.len(),
    ensures
        received(ifaces, interfaces.take(n)) <= received(ifaces, interfaces),
        transmitted(ifaces, interfaces.take(n)) <= transmitted(ifaces, interfaces),
    decreases interfaces.len() - n,
{
    if n < interfaces.len() {
        lemma_sums_grow(ifaces, interfaces, n + 1);
        assert(interfaces.take(n + 1).drop_last() =~= interfaces.take(n));
    } else {
        assert(interfaces.take(n) =~= interfaces);
    }
}

fn is_counted(config: &Config, name: &String) -> (res: bool)
    ensures
        res == counted(config@.net_ifaces, name@),
{
    match &config.net_ifaces {
        Some(list) => {
            let ghost names = text::texts(list@);
            let mut i: usize = 0;
            while i < list.len()
                invariant
                    i <= list.len(),
                    names == text::texts(list@),
                    config@.net_ifaces == Some(names),
                    forall|j: int| 0 <= j < i ==> names[j] != name@,
                decreases list.len() - i,
            {
                if list[i] == *name {
                    assert(names[i as int] == name@);
                    return true;
                }
                i = i + 1;
            }
            false
        },
        None => !is_virtual_iface(name.as_str()),
    }
}

/// Adds up the counters of the interfaces that count, received and sent; nothing when a sum is
/// beyond 64 bits.
pub fn total_counters(config: &Config, interfaces: &Vec<Interface>) -> (res: Option<Counters>)
    ensures
        res is Some <==> received(config@.net_ifaces, interfaces@) <= u64::MAX && transmitted(
            config@.net_ifaces,
            interfaces@,
        ) <= u64::MAX,
        res matches Some(c) ==> c.rx == received(config@.net_ifaces, interfaces@) && c.tx
            == transmitted(config@.net_ifaces, interfaces@),
{
    let mut rx: u64 = 0;
    let mut tx: u64 = 0;
    let mut i: usize = 0;
    while i < interfaces.len()
        invariant
            i <= interfaces.len(),
            rx == received(config@.net_ifaces, interfaces@.take(i as int)),
            tx == transmitted(config@.net_ifaces, interfaces@.take(i as int)),
        decreases interfaces.len() - i,
    {
        let interface = &interfaces[i];
        proof {
            assert(interfaces@.take(i as int + 1).drop_last() =~= interfaces@.take(i as int));
            assert(interfaces@.take(i as int + 1).last() == *interface);
            lemma_sums_grow(config@.net_ifaces, interfaces@, i as int + 1);
        }
        if is_counted(config, &interface.name) {
            if interface.received > u64::MAX - rx || interface.transmitted > u64::MAX - tx {
                return None;
            }
            rx = rx + interface.received;
            tx = tx + interface.transmitted;
        }
        i = i + 1;
    }
    assert(interfaces@.take(interfaces.len() as int) =~= interfaces@);
    Some(Counters { rx, tx })
}

/// The used space of a disk.
pub open spec fn used_space(disk: DiskSpace) -> u64 {
    if disk.total >= disk.available {
        (disk.total - disk.available) as u64
    } else {
        0
    }
}

/// The first disk that is mounted at the root.
pub open spec fn root_disk(disks: Seq<DiskSpace>) -> Option<DiskSpace>
    decreases disks.len(),
{
    if disks.len() == 0 {
        None
    } else if text::root_path(disks[0].mount_point@) {
        Some(disks[0])
    } else {
        root_disk(disks.drop_first())
    }
}

/// The space to report, total and used: that of the root disk, or of the first disk when no
/// root disk of any size is found.
pub open spec fn reported_space(disks: Seq<DiskSpace>) -> (u64, u64) {
    let root = match root_disk(disks) {
        Some(disk) => (disk.total, used_space(disk)),
        None => (0u64, 0u64),
    };
    if root.0 == 0 && disks.len() > 0 {
        (disks[0].total, used_space(disks[0]))
    } else {
        root
    }
}

fn used_of(disk: &DiskSpace) -> (res: u64)
    ensures
        res == used_space(*disk),
{
    if disk.total >= disk.available {
        disk.total - disk.available
    } else {
        0
    }
}

/// The disk space to report, total and used.
pub fn disk_space(disks: &Vec<DiskSpace>) -> (res: (u64, u64))
    ensures
        res == reported_space(disks@),
{
    let mut total: u64 = 0;
    let mut used: u64 = 0;
    let mut i: usize = 0;
    assert(disks@.skip(0) =~= disks@);
    while i < disks.len() && !text::is_root_path(disks[i].mount_point.as_str())
        invariant
            i <= disks.len(),
            root_disk(disks@) == root_disk(disks@.skip(i as int)),
        decreases disks.len() - i,
    {
        assert(disks@.skip(i as int).drop_first() =~= disks@.skip(i as int + 1));
        i = i + 1;
    }
    if i < disks.len() {
        total = disks[i].total;
        used = used_of(&disks[i]);
    }
    if total == 0 && disks.len() > 0 {
        total = disks[0].total;
        used = used_of(&disks[0]);
    }
    (total, used)
}

/// The bytes that a counter went on by since the last sample; none before the first sample and
/// when the counter fell.
pub open spec fn gain(previous: u64, current: u64) -> u64 {
    if previous > 0 && current >= previous {
        (current - previous) as u64
    } else {
        0
    }
}

fn gain_of(previous: u64, current: u64) -> (res: u64)
    ensures
        res == gain(previous, current),
{
    if previous > 0 && current >= previous {
        current - previous
    } else {
        0
    }
}

/// The report on a sample with the given counters.
pub open spec fn report_of(
    previous: Counters,
    totals: Counters,
    sample: Sample,
    country: Option<Seq<char>>,
    city: Option<Seq<char>>,
    config: ConfigView,
) -> ReportContents {
    ReportContents {
        id: config.agent_id,
        name: Some(config.agent_name),
        secret: config.secret,
        country,
        city,
        cpu: sample.cpu,
        load: sample.load@,
        mem_used: sample.mem_used,
        mem_total: sample.mem_total,
        disk_used: reported_space(sample.disks@).1,
        disk_total: reported_space(sample.disks@).0,
        net_rx: gain(previous.rx, totals.rx),
        net_tx: gain(previous.tx, totals.tx),
        interval_secs: if config.interval_secs == 0 {
            1
        } else {
            config.interval_secs
        },
        traffic_in: totals.rx,
        traffic_out: totals.tx,
        uptime: sample.uptime,
        latency: None,
        loss: None,
    }
}

/// Makes a report of a sample and notes its counters for the next one. There is no report, and
/// nothing is noted, when the counters add up to more than 64 bits.
pub fn collect_metrics(
    previous: &mut Counters,
    sample: &Sample,
    country: &Option<String>,
    city: &Option<String>,
    config: &Config,
) -> (res: Option<Report>)
    ensures
        ({
            let rx = received(config@.net_ifaces, sample.interfaces@);
            let tx = transmitted(config@.net_ifaces, sample.interfaces@);
            if rx <= u64::MAX && tx <= u64::MAX {
                let totals = Counters { rx: rx as u64, tx: tx as u64 };
                &&& *final(previous) == totals
                &&& res matches Some(report) && report@ == report_of(
                    *old(previous),
                    totals,
                    *sample,
                    text::opt_text(*country),
                    text::opt_text(*city),
                    config@,
                )
            } else {
                *final(previous) == *old(previous) && res is None
            }
        }),
{
    let (disk_total, disk_used) = disk_space(&sample.disks);
    let totals = match total_counters(config, &sample.interfaces) {
        Some(totals) => totals,
        None => return None,
    };
    let interval_secs: u64 = if config.interval_secs == 0 {
        1
    } else {
        config.interval_secs
    };
    let net_rx: u64 = gain_of(previous.rx, totals.rx);
    let net_tx: u64 = gain_of(previous.tx, totals.tx);
    *previous = totals;
    Some(
        Report {
            id: config.agent_id.clone(),
            name: Some(config.agent_name.clone()),
            secret: config.secret.clone(),
            country: text::clone_option(country),
            city: text::clone_option(city),
            cpu: sample.cpu,
            load: sample.load,
            mem_used: sample.mem_used,
            mem_total: sample.mem_total,
            disk_used,
            disk_total,
            net_rx,
            net_tx,
            interval_secs,
            traffic_in: totals.rx,
            traffic_out: totals.tx,
            uptime: sample.uptime,
            latency: None,
            loss: None,
        },
    )
}

// Reporting

/// What came of posting a report, given the answer of the server: its status, the wording of
/// that, and the body.
pub fn report_outcome(status: HttpStatus, phrase: &str, body: &str) -> (res: Result<(), String>)
    ensures
        res is Ok <==> status.success(),
        res matches Err(e) ==> e@ == "server returned "@ + phrase@ + ": "@ + body@,
{
    if status.is_success() {
        return Ok(());
    }
    let mut error = "server returned ".to_owned();
    error.append(phrase);
    error.append(": ");
    error.append(body);
    Err(error)
}

/// What came of posting a report: `answer` holds the status and the body, if there was an
/// answer at all.
pub fn send_report(answer: Option<(HttpStatus, String)>) -> (res: Result<(), String>)
    ensures
        match answer {
            Some((status, body)) => {
                &&& res is Ok <==> status.success()
                &&& res matches Err(e) ==> e@ == "server returned "@ + crate::http::status_phrase(
                    status.spec_code(),
                ) + ": "@ + body@
            },
            None => res matches Err(e) && e@ == "send failed"@,
        },
{
    match answer {
        Some((status, body)) => {
            let phrase = status.text();
            report_outcome(status, phrase.as_str(), body.as_str())
        },
        None => Err("send failed".to_owned()),
    }
}

// Laws

/// A host always has a name.
pub proof fn law_host_has_a_name(
    file: Option<Seq<char>>,
    hostname_var: Option<Seq<char>>,
    host_var: Option<Seq<char>>,
)
    ensures
        host_name(file, hostname_var, host_var).len() > 0,
{
    reveal_strlit("unknown-host");
}

/// On a host with a name, an agent has an id and a display name.
pub proof fn law_agent_has_a_name(env: AgentEnv)
    requires
        env.host@.len() > 0,
    ensures
        config_of(env).agent_id.len() > 0,
        config_of(env).agent_name.len() > 0,
{
    lemma_set_or_is_not_empty(text::opt_text(env.agent_id), env.host@);
    lemma_set_or_is_not_empty(text::opt_text(env.agent_name), config_of(env).agent_id);
}

proof fn lemma_set_or_is_not_empty(value: Option<Seq<char>>, other: Seq<char>)
    requires
        other.len() > 0,
    ensures
        set_or(value, other).len() > 0,
{
    match value {
        Some(v) => {
            if v.len() == 0 {
                assert(text::blank(v));
            }
        },
        None => {},
    }
}

/// A list of interfaces that is left blank counts every interface that is not virtual, as if
/// it were not set.
pub proof fn law_blank_list_is_no_list(value: Seq<char>, name: Seq<char>)
    requires
        text::blank(value),
    ensures
        ifaces_of(Some(value)) == ifaces_of(None),
        counted(ifaces_of(Some(value)), name) == !virtual_name(name),
{
}

/// A virtual interface that is asked for by name is counted.
pub proof fn law_list_overrides(list: Seq<Seq<char>>, name: Seq<char>)
    requires
        list.contains(name),
    ensures
        counted(Some(list), name),
{
}

/// The first sample shows no rate, and neither does one after the counters fell.
pub proof fn law_no_rate_without_basis(previous: u64, current: u64)
    ensures
        gain(0, current) == 0,
        current < previous ==> gain(previous, current) == 0,
{
}

/// Over two samples with rising counters the gains add up to the gain over both.
pub proof fn law_gains_add_up(a: u64, b: u64, c: u64)
    requires
        0 < a <= b <= c,
    ensures
        gain(a, b) + gain(b, c) == gain(a, c),
{
}

/// The contents of a configuration are its fields, each under its own name.
pub proof fn law_config_contents(config: Config)
    ensures
        config@.server_url == config.server_url@,
        config@.agent_id == config.agent_id@,
        config@.agent_name == config.agent_name@,
        config@.secret == config.secret@,
        config@.interval_secs == config.interval_secs,
        config@.net_ifaces is Some <==> config.net_ifaces is Some,
        config.net_ifaces matches Some(list) ==> config@.net_ifaces.unwrap().len() == list@.len() && forall|i: int|
            0 <= i < list@.len() ==> #[trigger] config@.net_ifaces.unwrap()[i] == list@[i]@,
{
}

/// The contents of a report are its fields, each under its own name.
pub proof fn law_report_contents(report: Report)
    ensures
        report@.id == report.id@,
        report@.name is Some <==> report.name is Some,
        report.name matches Some(t) ==> report@.name == Some(t@),
        report@.secret == report.secret@,
        report@.country is Some <==> report.country is Some,
        report.country matches Some(t) ==> report@.country == Some(t@),
        report@.city is Some <==> report.city is Some,
        report.city matches Some(t) ==> report@.city == Some(t@),
        report@.cpu == report.cpu,
        report@.load == report.load@,
        report@.mem_used == report.mem_used,
        report@.mem_total == report.mem_total,
        report@.disk_used == report.disk_used,
        report@.disk_total == report.disk_total,
        report@.net_rx == report.net_rx,
        report@.net_tx == report.net_tx,
        report@.interval_secs == report.interval_secs,
        report@.traffic_in == report.traffic_in,
        report@.traffic_out == report.traffic_out,
        report@.uptime == report.uptime,
        report@.latency == report.latency,
        report@.loss == report.loss,
{
}

/// The name file of a host comes first, without the white space around its text, if it holds
/// anything else. Then come `HOSTNAME` and `HOST`, each as it is, if it is not empty.
pub proof fn law_host_name(
    file: Option<Seq<char>>,
    hostname_var: Option<Seq<char>>,
    host_var: Option<Seq<char>>,
)
    ensures
        ({
            let name = host_name(file, hostname_var, host_var);
            let in_file = file is Some && exists|k: int|
                0 <= k < file.unwrap().len() && !text::white_space(#[trigger] file.unwrap()[k]);
            let in_hostname = hostname_var is Some && hostname_var.unwrap().len() > 0;
            let in_host = host_var is Some && host_var.unwrap().len() > 0;
            &&& in_file ==> name == text::trimmed(file.unwrap())
            &&& !in_file && in_hostname ==> Some(name) == hostname_var
            &&& !in_file && !in_hostname && in_host ==> Some(name) == host_var
            &&& !in_file && !in_hostname && !in_host ==> name == "unknown-host"@
        }),
{
    if file is Some {
        text::law_blank(file.unwrap());
    }
}

/// The address and the secret are taken as they are. The id is `AGENT_ID` as it is, if that holds
/// more than white space, else the name of the host; the name is `AGENT_NAME` as it is, by the
/// same rule, else the id.
pub proof fn law_config_texts(env: AgentEnv)
    requires
        env.monitor_url is Some,
        env.report_secret is Some,
    ensures
        ({
            let config = config_of(env);
            let has_id = env.agent_id is Some && exists|k: int|
                0 <= k < env.agent_id.unwrap()@.len() && !text::white_space(
                    #[trigger] env.agent_id.unwrap()@[k],
                );
            let has_name = env.agent_name is Some && exists|k: int|
                0 <= k < env.agent_name.unwrap()@.len() && !text::white_space(
                    #[trigger] env.agent_name.unwrap()@[k],
                );
            &&& config.server_url == env.monitor_url.unwrap()@
            &&& config.secret == env.report_secret.unwrap()@
            &&& config.agent_id == if has_id {
                env.agent_id.unwrap()@
            } else {
                env.host@
            }
            &&& config.agent_name == if has_name {
                env.agent_name.unwrap()@
            } else {
                config.agent_id
            }
        }),
{
    if env.agent_id is Some {
        text::law_blank(env.agent_id.unwrap()@);
    }
    if env.agent_name is Some {
        text::law_blank(env.agent_name.unwrap()@);
    }
}

/// The interval is the number that `INTERVAL_SECS` holds, whatever it is, and 20 seconds if there
/// is none.
pub proof fn law_config_interval(env: AgentEnv, secs: u64)
    ensures
        env.interval_secs is None ==> config_of(env).interval_secs == 20,
        env.interval_secs matches Some(v) ==> (text::unsigned_number(v@) is None
            ==> config_of(env).interval_secs == 20) && (text::unsigned_number(v@) == Some(secs)
            ==> config_of(env).interval_secs == secs) && (v@ == text::decimal(secs as nat)
            ==> config_of(env).interval_secs == secs),
{
    text::law_decimal_is_read_back(secs);
}

/// There is a list of interfaces exactly when `NET_IFACES` holds more than white space, and it
/// holds the names between the commas.
pub proof fn law_config_interfaces(env: AgentEnv)
    ensures
        ({
            let list = config_of(env).net_ifaces;
            &&& list is Some <==> env.net_ifaces is Some && exists|k: int|
                0 <= k < env.net_ifaces.unwrap()@.len() && !text::white_space(
                    #[trigger] env.net_ifaces.unwrap()@[k],
                )
            &&& list is Some ==> list.unwrap() == text::names_in(
                text::comma_fields(env.net_ifaces.unwrap()@),
            )
        }),
{
    if env.net_ifaces is Some {
        text::law_blank(env.net_ifaces.unwrap()@);
    }
}

/// A lookup that says `success` gives the country and the city as they are, each on its own; any
/// other gives neither.
pub proof fn law_place_of_lookup(
    status: Option<Seq<char>>,
    country: Option<Seq<char>>,
    city: Option<Seq<char>>,
)
    ensures
        status == Some("success"@) ==> place_of(status, country, city).0 == country && place_of(
            status,
            country,
            city,
        ).1 == city,
        status != Some("success"@) ==> place_of(status, country, city).0 is None && place_of(
            status,
            country,
            city,
        ).1 is None,
{
}

/// An interface is virtual exactly when its name is one of ten beginnings with anything, or
/// nothing, after it.
pub proof fn law_virtual_names(name: Seq<char>, rest: Seq<char>, i: int)
    ensures
        ({
            let beginnings = seq![
                "lo"@,
                "docker"@,
                "br-"@,
                "veth"@,
                "virbr"@,
                "tailscale"@,
                "wg"@,
                "cni"@,
                "flannel"@,
                "cali"@,
            ];
            &&& 0 <= i < 10 ==> virtual_name(beginnings[i] + rest)
            &&& virtual_name(name) ==> exists|k: int|
                0 <= k < 10 && (#[trigger] beginnings[k]).is_prefix_of(name)
        }),
{
    let beginnings = seq![
        "lo"@,
        "docker"@,
        "br-"@,
        "veth"@,
        "virbr"@,
        "tailscale"@,
        "wg"@,
        "cni"@,
        "flannel"@,
        "cali"@,
    ];
    if 0 <= i < 10 {
        let whole = beginnings[i] + rest;
        assert(whole.subrange(0, beginnings[i].len() as int) =~= beginnings[i]);
        assert(beginnings[i].is_prefix_of(whole));
    }
    if virtual_name(name) {
        assert(beginnings[0].is_prefix_of(name) || beginnings[1].is_prefix_of(name)
            || beginnings[2].is_prefix_of(name) || beginnings[3].is_prefix_of(name)
            || beginnings[4].is_prefix_of(name) || beginnings[5].is_prefix_of(name)
            || beginnings[6].is_prefix_of(name) || beginnings[7].is_prefix_of(name)
            || beginnings[8].is_prefix_of(name) || beginnings[9].is_prefix_of(name));
    }
}

/// With a list, an interface counts exactly when its name is on it, in full; without one, exactly
/// when it is not virtual.
pub proof fn law_counted(list: Seq<Seq<char>>, name: Seq<char>)
    ensures
        counted(Some(list), name) <==> exists|i: int|
            0 <= i < list.len() && #[trigger] list[i] == name,
        counted(None, name) != virtual_name(name),
{
}

/// The bytes of interfaces are those of its parts together; a single one gives its own bytes if
/// it counts and none otherwise.
pub proof fn law_bytes_add_up(
    ifaces: Option<Seq<Seq<char>>>,
    a: Seq<Interface>,
    b: Seq<Interface>,
    single: Interface,
)
    ensures
        received(ifaces, a + b) == received(ifaces, a) + received(ifaces, b),
        transmitted(ifaces, a + b) == transmitted(ifaces, a) + transmitted(ifaces, b),
        counted(ifaces, single.name@) ==> received(ifaces, seq![single]) == single.received
            && transmitted(ifaces, seq![single]) == single.transmitted,
        !counted(ifaces, single.name@) ==> received(ifaces, seq![single]) == 0 && transmitted(
            ifaces,
            seq![single],
        ) == 0,
    decreases b.len(),
{
    let alone = seq![single];
    assert(alone.drop_last() =~= Seq::<Interface>::empty());
    assert(received(ifaces, alone.drop_last()) == 0);
    assert(transmitted(ifaces, alone.drop_last()) == 0);
    if b.len() == 0 {
        assert(a + b =~= a);
    } else {
        assert((a + b).drop_last() =~= a + b.drop_last());
        assert((a + b).last() == b.last());
        law_bytes_add_up(ifaces, a, b.drop_last(), single);
    }
}

/// The used and the available space make up the total; where more is available than there is,
/// nothing is used.
pub proof fn law_used_space(disk: DiskSpace)
    ensures
        disk.available <= disk.total ==> used_space(disk) + disk.available == disk.total,
        disk.available > disk.total ==> used_space(disk) == 0,
{
}

proof fn lemma_root_disk(disks: Seq<DiskSpace>, i: int)
    requires
        0 <= i <= disks.len(),
        forall|k: int| 0 <= k < i ==> !text::root_path((#[trigger] disks[k]).mount_point@),
    ensures
        i < disks.len() && text::root_path(disks[i].mount_point@) ==> root_disk(disks) == Some(
            disks[i],
        ),
        i == disks.len() ==> root_disk(disks) is None,
    decreases i,
{
    if i > 0 {
        assert(!text::root_path(disks[0].mount_point@));
        let rest = disks.drop_first();
        assert forall|k: int| 0 <= k < i - 1 implies !text::root_path(
            (#[trigger] rest[k]).mount_point@,
        ) by {
            assert(rest[k] == disks[k + 1]);
        }
        lemma_root_disk(rest, i - 1);
        if i < disks.len() {
            assert(rest[i - 1] == disks[i]);
        }
    }
}

/// The first disk that is mounted at the root is the one to report, whatever other disks there
/// are and however large they are, if it has any size.
pub proof fn law_root_disk_is_reported(disks: Seq<DiskSpace>, i: int)
    requires
        0 <= i < disks.len(),
        text::root_path(disks[i].mount_point@),
        forall|k: int| 0 <= k < i ==> !text::root_path((#[trigger] disks[k]).mount_point@),
        disks[i].total > 0,
    ensures
        reported_space(disks).0 == disks[i].total,
        disks[i].available <= disks[i].total ==> reported_space(disks).1 + disks[i].available
            == disks[i].total,
        disks[i].available > disks[i].total ==> reported_space(disks).1 == 0,
{
    lemma_root_disk(disks, i);
}

/// Where no disk is mounted at the root, or the first that is has no size, the first disk of all
/// is the one to report. Without disks there is no space.
pub proof fn law_first_disk_is_reported_otherwise(disks: Seq<DiskSpace>, i: int)
    requires
        0 <= i <= disks.len(),
        forall|k: int| 0 <= k < i ==> !text::root_path((#[trigger] disks[k]).mount_point@),
        i < disks.len() ==> text::root_path(disks[i].mount_point@) && disks[i].total == 0,
    ensures
        disks.len() == 0 ==> reported_space(disks).0 == 0 && reported_space(disks).1 == 0,
        disks.len() > 0 ==> {
            &&& reported_space(disks).0 == disks[0].total
            &&& disks[0].available <= disks[0].total ==> reported_space(disks).1
                + disks[0].available == disks[0].total
            &&& disks[0].available > disks[0].total ==> reported_space(disks).1 == 0
        },
{
    lemma_root_disk(disks, i);
}

/// A counter that was read before and did not fall has gained what is missing from the last
/// reading to this one.
pub proof fn law_gain(previous: u64, current: u64)
    ensures
        0 < previous <= current ==> previous + gain(previous, current) == current,
        previous == 0 || current < previous ==> gain(previous, current) == 0,
{
}

/// A report is that of the configured agent and of the place that was found, and shows what was
/// sampled, each measurement under its own name: what the counters gained and what they stand at,
/// the space of the disk, and an interval of at least a second.
pub proof fn law_report_shows_sample(
    previous: Counters,
    totals: Counters,
    sample: Sample,
    country: Option<Seq<char>>,
    city: Option<Seq<char>>,
    config: ConfigView,
)
    ensures
        ({
            let report = report_of(previous, totals, sample, country, city, config);
            &&& report.id == config.agent_id && report.name == Some(config.agent_name)
            &&& report.secret == config.secret
            &&& report.country == country && report.city == city
            &&& report.cpu == sample.cpu && report.load == sample.load@
            &&& report.mem_used == sample.mem_used && report.mem_total == sample.mem_total
            &&& (report.disk_total, report.disk_used) == reported_space(sample.disks@)
            &&& report.traffic_in == totals.rx && report.traffic_out == totals.tx
            &&& 0 < previous.rx <= totals.rx ==> previous.rx + report.net_rx == totals.rx
            &&& 0 < previous.tx <= totals.tx ==> previous.tx + report.net_tx == totals.tx
            &&& previous.rx == 0 || totals.rx < previous.rx ==> report.net_rx == 0
            &&& previous.tx == 0 || totals.tx < previous.tx ==> report.net_tx == 0
            &&& config.interval_secs > 0 ==> report.interval_secs == config.interval_secs
            &&& config.interval_secs == 0 ==> report.interval_secs == 1
            &&& report.uptime == sample.uptime
            &&& report.latency is None && report.loss is None
        }),
{
}

} // verus!
