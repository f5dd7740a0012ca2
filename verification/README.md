# vps_monitor

Monitoring for a handful of servers. An agent on each machine samples its CPU, memory, disk and
network and reports to a central server. The server keeps one row per machine, carries traffic
totals across reboots, and raises alerts through Telegram or a webhook.

The rules are a library verified with Verus:

- `src/text.rs`: clipping, trimming, lists and numbers
- `src/quantity.rs`: measured quantities and their comparison
- `src/clock.rs`: points in time
- `src/http.rs`: HTTP statuses and the headers of the server
- `src/db.rs`: the rows of the machines, traffic totals, administration
- `src/notify.rs`: notification settings, the alerts of a report, cooldown
- `src/delivery.rs`: sending an alert
- `src/offline.rs`: watching for silent machines
- `src/agent.rs`: the configuration and the reports of an agent

`app/` holds the two programs, `vps_monitor agent` and `vps_monitor server`: sockets, files, the
database, the clocks, and the native arithmetic on measured quantities.
