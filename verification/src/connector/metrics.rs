//! Counters of the Connector, rendered in the Prometheus text format.
//! Times are milliseconds since the Unix epoch.
use vstd::prelude::*;
use crate::clock::{elapsed, elapsed_ms, now_ms};
use crate::metrics_text::{metric_text, push_metric};

verus! {

/// Counters of the Connector.
#[derive(Debug)]
pub struct Metrics {
    /// Packets forwarded to backend services
    pub forwarded_packets_total: u64,
    /// Bytes forwarded to backend services
    pub forwarded_bytes_total: u64,
    /// TCP proxy sessions created
    pub tcp_sessions_total: u64,
    /// TCP errors (connect failures, read and write errors)
    pub tcp_errors_total: u64,
    /// Reconnections to the relay server
    pub reconnections_total: u64,
    /// When the Connector started
    pub start_time: u64,
}

/// The rendered text of the counters with the given uptime in seconds.
pub open spec fn metrics_text(m: Metrics, uptime: u64) -> Seq<char> {
    metric_text("ztna_connector_forwarded_packets_total"@, "Total packets forwarded to backend"@, "counter"@, m.forwarded_packets_total)
        + metric_text("ztna_connector_forwarded_bytes_total"@, "Total bytes forwarded to backend"@, "counter"@, m.forwarded_bytes_total)
        + metric_text("ztna_connector_tcp_sessions_total"@, "Total TCP proxy sessions created"@, "counter"@, m.tcp_sessions_total)
        + metric_text("ztna_connector_tcp_errors_total"@, "Total TCP errors"@, "counter"@, m.tcp_errors_total)
        + metric_text("ztna_connector_reconnections_total"@, "Total reconnections to Intermediate Server"@, "counter"@, m.reconnections_total)
        + metric_text("ztna_connector_uptime_seconds"@, "Connector uptime in seconds"@, "gauge"@, uptime)
}

impl Metrics {
    /// All counters at zero, started now.
    pub fn new() -> (m: Metrics)
        ensures
            m.forwarded_packets_total == 0 && m.forwarded_bytes_total == 0 && m.tcp_sessions_total == 0
                && m.tcp_errors_total == 0 && m.reconnections_total == 0,
    {
        Self::new_at(now_ms())
    }

    /// All counters at zero, started at `now`.
    pub fn new_at(now: u64) -> (m: Metrics)
        ensures
            m.forwarded_packets_total == 0 && m.forwarded_bytes_total == 0 && m.tcp_sessions_total == 0
                && m.tcp_errors_total == 0 && m.reconnections_total == 0,
            m.start_time == now,
    {
        Metrics {
            forwarded_packets_total: 0,
            forwarded_bytes_total: 0,
            tcp_sessions_total: 0,
            tcp_errors_total: 0,
            reconnections_total: 0,
            start_time: now,
        }
    }

    /// The counters in the Prometheus text format, with the uptime now.
    pub fn render(&self) -> (s: String)
        ensures
            exists|now: u64| s@ == metrics_text(*self, elapsed(self.start_time, now) / 1000),
    {
        self.render_at(now_ms())
    }

    /// The counters in the Prometheus text format, with the uptime at `now`
    /// in whole seconds.
    pub fn render_at(&self, now: u64) -> (s: String)
        ensures
            s@ == metrics_text(*self, elapsed(self.start_time, now) / 1000),
    {
        let uptime = elapsed_ms(self.start_time, now) / 1000;
        let mut s = String::new();
        push_metric(&mut s, "ztna_connector_forwarded_packets_total", "Total packets forwarded to backend", "counter", self.forwarded_packets_total);
        push_metric(&mut s, "ztna_connector_forwarded_bytes_total", "Total bytes forwarded to backend", "counter", self.forwarded_bytes_total);
        push_metric(&mut s, "ztna_connector_tcp_sessions_total", "Total TCP proxy sessions created", "counter", self.tcp_sessions_total);
        push_metric(&mut s, "ztna_connector_tcp_errors_total", "Total TCP errors", "counter", self.tcp_errors_total);
        push_metric(&mut s, "ztna_connector_reconnections_total", "Total reconnections to Intermediate Server", "counter", self.reconnections_total);
        push_metric(&mut s, "ztna_connector_uptime_seconds", "Connector uptime in seconds", "gauge", uptime);
        assert(s@ =~= metrics_text(*self, uptime));
        s
    }
}

} // verus!
