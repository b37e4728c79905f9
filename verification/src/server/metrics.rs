//! Counters of the relay server, rendered in the Prometheus text format.
//! Times are milliseconds since the Unix epoch.
use vstd::prelude::*;
use crate::clock::{elapsed, elapsed_ms, now_ms};
use crate::metrics_text::{metric_text, push_metric};

verus! {

/// Counters of the relay server.
#[derive(Debug)]
pub struct Metrics {
    /// Active QUIC connections (gauge)
    pub active_connections: u64,
    /// Bytes relayed in datagrams
    pub relay_bytes_total: u64,
    /// Successful registrations of Agents and Connectors
    pub registrations_total: u64,
    /// Refused registrations
    pub registration_rejections_total: u64,
    /// Datagrams relayed
    pub datagrams_relayed_total: u64,
    /// Signaling sessions created
    pub signaling_sessions_total: u64,
    /// Retry tokens validated
    pub retry_tokens_validated: u64,
    /// Retry tokens refused
    pub retry_token_failures: u64,
    /// When the server started
    pub start_time: u64,
}

/// The rendered text of the counters with the given uptime in seconds.
pub open spec fn metrics_text(m: Metrics, uptime: u64) -> Seq<char> {
    metric_text("ztna_active_connections"@, "Current number of active QUIC connections"@, "gauge"@, m.active_connections)
        + metric_text("ztna_relay_bytes_total"@, "Total bytes relayed via DATAGRAMs"@, "counter"@, m.relay_bytes_total)
        + metric_text("ztna_registrations_total"@, "Total successful service registrations"@, "counter"@, m.registrations_total)
        + metric_text("ztna_registration_rejections_total"@, "Total registration rejections (NACK)"@, "counter"@, m.registration_rejections_total)
        + metric_text("ztna_datagrams_relayed_total"@, "Total DATAGRAMs relayed"@, "counter"@, m.datagrams_relayed_total)
        + metric_text("ztna_signaling_sessions_total"@, "Total P2P signaling sessions created"@, "counter"@, m.signaling_sessions_total)
        + metric_text("ztna_retry_tokens_validated"@, "Total retry tokens successfully validated"@, "counter"@, m.retry_tokens_validated)
        + metric_text("ztna_retry_token_failures"@, "Total retry token validation failures"@, "counter"@, m.retry_token_failures)
        + metric_text("ztna_uptime_seconds"@, "Server uptime in seconds"@, "gauge"@, uptime)
}

impl Metrics {
    /// All counters at zero, started now.
    pub fn new() -> (m: Metrics)
        ensures
            m.active_connections == 0 && m.relay_bytes_total == 0 && m.registrations_total == 0
                && m.registration_rejections_total == 0 && m.datagrams_relayed_total == 0
                && m.signaling_sessions_total == 0 && m.retry_tokens_validated == 0 && m.retry_token_failures == 0,
    {
        Self::new_at(now_ms())
    }

    /// All counters at zero, started at `now`.
    pub fn new_at(now: u64) -> (m: Metrics)
        ensures
            m.active_connections == 0 && m.relay_bytes_total == 0 && m.registrations_total == 0
                && m.registration_rejections_total == 0 && m.datagrams_relayed_total == 0
                && m.signaling_sessions_total == 0 && m.retry_tokens_validated == 0 && m.retry_token_failures == 0,
            m.start_time == now,
    {
        Metrics {
            active_connections: 0,
            relay_bytes_total: 0,
            registrations_total: 0,
            registration_rejections_total: 0,
            datagrams_relayed_total: 0,
            signaling_sessions_total: 0,
            retry_tokens_validated: 0,
            retry_token_failures: 0,
            start_time: now,
        }
    }

    /// The counters in the Prometheus text format, with the uptime now.
    pub fn render(&self) -> (s: String)
        ensures
            exists|now: u64| s@ == metrics_text(*self, elapsed(self.start_time, now) / 1000),
    {
        self.render_at(now_ms())
    }

    /// The counters in the Prometheus text format, with the uptime at `now`
    /// in whole seconds.
    pub fn render_at(&self, now: u64) -> (s: String)
        ensures
            s@ == metrics_text(*self, elapsed(self.start_time, now) / 1000),
    {
        let uptime = elapsed_ms(self.start_time, now) / 1000;
        let mut s = String::new();
        push_metric(&mut s, "ztna_active_connections", "Current number of active QUIC connections", "gauge", self.active_connections);
        push_metric(&mut s, "ztna_relay_bytes_total", "Total bytes relayed via DATAGRAMs", "counter", self.relay_bytes_total);
        push_metric(&mut s, "ztna_registrations_total", "Total successful service registrations", "counter", self.registrations_total);
        push_metric(&mut s, "ztna_registration_rejections_total", "Total registration rejections (NACK)", "counter", self.registration_rejections_total);
        push_metric(&mut s, "ztna_datagrams_relayed_total", "Total DATAGRAMs relayed", "counter", self.datagrams_relayed_total);
        push_metric(&mut s, "ztna_signaling_sessions_total", "Total P2P signaling sessions created", "counter", self.signaling_sessions_total);
        push_metric(&mut s, "ztna_retry_tokens_validated", "Total retry tokens successfully validated", "counter", self.retry_tokens_validated);
        push_metric(&mut s, "ztna_retry_token_failures", "Total retry token validation failures", "counter", self.retry_token_failures);
        push_metric(&mut s, "ztna_uptime_seconds", "Server uptime in seconds", "gauge", uptime);
        assert(s@ =~= metrics_text(*self, uptime));
        s
    }
}

} // verus!
