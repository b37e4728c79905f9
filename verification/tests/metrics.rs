use ztna::connector::metrics::Metrics as ConnectorMetrics;
use ztna::server::metrics::Metrics as ServerMetrics;

#[test]
fn metrics_test_metrics_render_format() {
    let mut m = ServerMetrics::new();
    m.registrations_total += 5;
    m.relay_bytes_total += 1024;
    let output = m.render();
    assert!(output.contains("ztna_registrations_total 5"));
    assert!(output.contains("ztna_relay_bytes_total 1024"));
    assert!(output.contains("ztna_active_connections 0"));
    assert!(output.contains("# TYPE ztna_uptime_seconds gauge"));
}

#[test]
fn metrics_test_metrics_default_zero() {
    let m = ServerMetrics::new();
    assert_eq!(m.active_connections, 0);
    assert_eq!(m.relay_bytes_total, 0);
    assert_eq!(m.registrations_total, 0);
    assert_eq!(m.registration_rejections_total, 0);
    assert_eq!(m.datagrams_relayed_total, 0);
    assert_eq!(m.signaling_sessions_total, 0);
    assert_eq!(m.retry_tokens_validated, 0);
    assert_eq!(m.retry_token_failures, 0);
}

#[test]
fn metrics_test_metrics_counter_increments() {
    let mut m = ServerMetrics::new();
    m.active_connections += 3;
    m.datagrams_relayed_total += 100;
    m.retry_tokens_validated += 10;
    m.retry_token_failures += 2;
    let output = m.render();
    assert!(output.contains("ztna_active_connections 3"));
    assert!(output.contains("ztna_datagrams_relayed_total 100"));
    assert!(output.contains("ztna_retry_tokens_validated 10"));
    assert!(output.contains("ztna_retry_token_failures 2"));
}

#[test]
fn metrics_test_metrics_uptime_present() {
    let m = ServerMetrics::new();
    let output = m.render();
    assert!(output.contains("ztna_uptime_seconds 0"));
}

#[test]
fn metrics_test_metrics_render_prometheus_format() {
    let m = ServerMetrics::new();
    let output = m.render();
    assert!(output.contains("# HELP ztna_active_connections"));
    assert!(output.contains("# TYPE ztna_active_connections gauge"));
    assert!(output.contains("# HELP ztna_relay_bytes_total"));
    assert!(output.contains("# TYPE ztna_relay_bytes_total counter"));
    assert!(output.contains("# HELP ztna_registrations_total"));
    assert!(output.contains("# TYPE ztna_registrations_total counter"));
    assert!(output.contains("# HELP ztna_registration_rejections_total"));
    assert!(output.contains("# TYPE ztna_registration_rejections_total counter"));
    assert!(output.contains("# HELP ztna_datagrams_relayed_total"));
    assert!(output.contains("# TYPE ztna_datagrams_relayed_total counter"));
    assert!(output.contains("# HELP ztna_signaling_sessions_total"));
    assert!(output.contains("# TYPE ztna_signaling_sessions_total counter"));
    assert!(output.contains("# HELP ztna_retry_tokens_validated"));
    assert!(output.contains("# TYPE ztna_retry_tokens_validated counter"));
    assert!(output.contains("# HELP ztna_retry_token_failures"));
    assert!(output.contains("# TYPE ztna_retry_token_failures counter"));
    assert!(output.contains("# HELP ztna_uptime_seconds"));
    assert!(output.contains("# TYPE ztna_uptime_seconds gauge"));
}

#[test]
fn test_metrics_render_format() {
    let mut m = ConnectorMetrics::new();
    m.forwarded_packets_total += 42;
    m.forwarded_bytes_total += 8192;
    m.tcp_sessions_total += 3;
    let output = m.render();
    assert!(output.contains("ztna_connector_forwarded_packets_total 42"));
    assert!(output.contains("ztna_connector_forwarded_bytes_total 8192"));
    assert!(output.contains("ztna_connector_tcp_sessions_total 3"));
    assert!(output.contains("ztna_connector_tcp_errors_total 0"));
    assert!(output.contains("ztna_connector_reconnections_total 0"));
}

#[test]
fn test_metrics_default_zero() {
    let m = ConnectorMetrics::new();
    assert_eq!(m.forwarded_packets_total, 0);
    assert_eq!(m.forwarded_bytes_total, 0);
    assert_eq!(m.tcp_sessions_total, 0);
    assert_eq!(m.tcp_errors_total, 0);
    assert_eq!(m.reconnections_total, 0);
}

#[test]
fn test_metrics_counter_increments() {
    let mut m = ConnectorMetrics::new();
    m.tcp_errors_total += 5;
    m.reconnections_total += 2;
    let output = m.render();
    assert!(output.contains("ztna_connector_tcp_errors_total 5"));
    assert!(output.contains("ztna_connector_reconnections_total 2"));
}

#[test]
fn test_metrics_uptime_present() {
    let m = ConnectorMetrics::new();
    let output = m.render();
    assert!(output.lines().any(|l| l.starts_with("ztna_connector_uptime_seconds ")));
}

#[test]
fn test_metrics_render_prometheus_format() {
    let m = ConnectorMetrics::new();
    let output = m.render();
    assert!(output.contains("# HELP ztna_connector_forwarded_packets_total"));
    assert!(output.contains("# TYPE ztna_connector_forwarded_packets_total counter"));
    assert!(output.contains("# HELP ztna_connector_forwarded_bytes_total"));
    assert!(output.contains("# TYPE ztna_connector_forwarded_bytes_total counter"));
    assert!(output.contains("# HELP ztna_connector_tcp_sessions_total"));
    assert!(output.contains("# TYPE ztna_connector_tcp_sessions_total counter"));
    assert!(output.contains("# HELP ztna_connector_tcp_errors_total"));
    assert!(output.contains("# TYPE ztna_connector_tcp_errors_total counter"));
    assert!(output.contains("# HELP ztna_connector_reconnections_total"));
    assert!(output.contains("# TYPE ztna_connector_reconnections_total counter"));
    assert!(output.contains("# HELP ztna_connector_uptime_seconds"));
    assert!(output.contains("# TYPE ztna_connector_uptime_seconds gauge"));
}

#[test]
fn metrics_uptime_at_fixed_times() {
    let m = ServerMetrics::new_at(10_000);
    assert!(m.render_at(75_500).contains("ztna_uptime_seconds 65\n"));
    let c = ConnectorMetrics::new_at(0);
    let text = c.render_at(3_999);
    assert!(text.contains("ztna_connector_uptime_seconds 3\n"));
    assert!(text.starts_with(
        "# HELP ztna_connector_forwarded_packets_total Total packets forwarded to backend\n# TYPE ztna_connector_forwarded_packets_total counter\nztna_connector_forwarded_packets_total 0\n"
    ));
}
