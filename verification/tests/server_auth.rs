use ztna::server::auth::{extract_authorized_services, extract_identity, is_authorized_for_service, parse_ztna_san, AuthError, ClientIdentity};
use ztna::server::registry::ClientType;
use ztna::net::SockAddr;
use ztna::server::client::Client;
use ztna::server::router::RelayState;
use rcgen::{CertificateParams, DistinguishedName, DnType, KeyPair, SanType};

fn build_test_cert(cn: &str, san_dns: &[&str]) -> Vec<u8> {
    let mut params = CertificateParams::default();
    params.distinguished_name.push(DnType::CommonName, cn);

    for dns in san_dns {
        params.subject_alt_names.push(SanType::DnsName(dns.to_string().try_into().unwrap()));
    }

    let key_pair = KeyPair::generate().unwrap();
    let cert = params.self_signed(&key_pair).unwrap();
    cert.der().to_vec()
}

fn build_cert_no_cn(san_dns: &[&str]) -> Vec<u8> {
    let mut params = CertificateParams::default();
    let mut dn = DistinguishedName::new();
    dn.push(DnType::OrganizationName, "TestOrg");
    params.distinguished_name = dn;

    for dns in san_dns {
        params.subject_alt_names.push(SanType::DnsName(dns.to_string().try_into().unwrap()));
    }

    let key_pair = KeyPair::generate().unwrap();
    let cert = params.self_signed(&key_pair).unwrap();
    cert.der().to_vec()
}

fn has(services: &[String], s: &str) -> bool {
    services.iter().any(|x| x == s)
}

fn identity(cn: &str, services: Option<&[&str]>) -> ClientIdentity {
    ClientIdentity {
        common_name: cn.to_string(),
        authorized_services: services.map(|s| s.iter().map(|x| x.to_string()).collect()),
    }
}

#[test]
fn test_extract_identity_with_agent_san() {
    let der = build_test_cert("test-agent", &["agent.myservice.ztna"]);
    let identity = extract_identity(&der).unwrap();

    assert_eq!(identity.common_name, "test-agent");
    let services = identity.authorized_services.as_ref().unwrap();
    assert!(has(services, "agent:myservice"));
    assert_eq!(services.len(), 1);
}

#[test]
fn test_extract_identity_with_connector_san() {
    let der = build_test_cert("test-connector", &["connector.web-app.ztna"]);
    let identity = extract_identity(&der).unwrap();

    assert_eq!(identity.common_name, "test-connector");
    let services = identity.authorized_services.as_ref().unwrap();
    assert!(has(services, "connector:web-app"));
}

#[test]
fn test_extract_identity_with_multiple_sans() {
    let der = build_test_cert("multi-service-agent", &["agent.svc-a.ztna", "agent.svc-b.ztna", "connector.svc-c.ztna"]);
    let identity = extract_identity(&der).unwrap();

    let services = identity.authorized_services.as_ref().unwrap();
    assert!(has(services, "agent:svc-a"));
    assert!(has(services, "agent:svc-b"));
    assert!(has(services, "connector:svc-c"));
    assert_eq!(services.len(), 3);
}

#[test]
fn test_extract_identity_with_wildcard() {
    let der = build_test_cert("wildcard-agent", &["agent.*.ztna"]);
    let identity = extract_identity(&der).unwrap();

    let services = identity.authorized_services.as_ref().unwrap();
    assert!(has(services, "agent:*"));
}

#[test]
fn test_extract_identity_no_ztna_san_backward_compat() {
    let der = build_test_cert("legacy-client", &["www.example.com"]);
    let identity = extract_identity(&der).unwrap();

    assert_eq!(identity.common_name, "legacy-client");
    assert!(identity.authorized_services.is_none());
}

#[test]
fn test_extract_identity_no_san_at_all() {
    let der = build_test_cert("no-san-client", &[]);
    let identity = extract_identity(&der).unwrap();

    assert_eq!(identity.common_name, "no-san-client");
    assert!(identity.authorized_services.is_none());
}

#[test]
fn test_extract_identity_missing_cn() {
    let der = build_cert_no_cn(&["agent.svc.ztna"]);
    let result = extract_identity(&der);
    assert!(matches!(result, Err(AuthError::MissingCommonName)));
}

#[test]
fn test_extract_identity_invalid_der() {
    let result = extract_identity(b"not a certificate");
    assert!(matches!(result, Err(AuthError::ParseError(_))));
}

#[test]
fn duplicate_sans_are_kept_once() {
    let der = build_test_cert("dup", &["agent.a.ztna", "Agent.A.ztna", "agent.b.ztna"]);
    let identity = extract_identity(&der).unwrap();
    assert_eq!(identity.authorized_services, Some(vec!["agent:a".to_string(), "agent:b".to_string()]));
}

#[test]
fn authorized_services_from_names() {
    assert_eq!(extract_authorized_services(None), None);
    assert_eq!(extract_authorized_services(Some(vec!["www.example.com".to_string()])), None);
    assert_eq!(
        extract_authorized_services(Some(vec!["connector.x.ztna".to_string(), "agent.y.ztna".to_string()])),
        Some(vec!["connector:x".to_string(), "agent:y".to_string()])
    );
}

#[test]
fn auth_error_messages() {
    assert_eq!(AuthError::MissingCommonName.to_string(), "certificate has no Common Name");
}

#[test]
fn test_parse_ztna_san_agent() {
    assert_eq!(parse_ztna_san("agent.myservice.ztna"), Some("agent:myservice".to_string()));
}

#[test]
fn test_parse_ztna_san_connector() {
    assert_eq!(parse_ztna_san("connector.web-app.ztna"), Some("connector:web-app".to_string()));
}

#[test]
fn test_parse_ztna_san_wildcard() {
    assert_eq!(parse_ztna_san("agent.*.ztna"), Some("agent:*".to_string()));
}

#[test]
fn test_parse_ztna_san_case_insensitive() {
    assert_eq!(parse_ztna_san("Agent.MyService.ZTNA"), Some("agent:myservice".to_string()));
}

#[test]
fn test_parse_ztna_san_non_ztna() {
    assert_eq!(parse_ztna_san("www.example.com"), None);
}

#[test]
fn test_parse_ztna_san_unknown_role() {
    assert_eq!(parse_ztna_san("admin.myservice.ztna"), None);
}

#[test]
fn test_parse_ztna_san_empty_service() {
    assert_eq!(parse_ztna_san("agent..ztna"), None);
}

#[test]
fn test_parse_ztna_san_no_role() {
    assert_eq!(parse_ztna_san("myservice.ztna"), None);
}

#[test]
fn test_authorized_exact_match() {
    let identity = identity("test", Some(&["agent:myservice"]));

    assert!(is_authorized_for_service(&identity, "myservice", &ClientType::Agent));
    assert!(!is_authorized_for_service(&identity, "other", &ClientType::Agent));
    assert!(!is_authorized_for_service(&identity, "myservice", &ClientType::Connector));
}

#[test]
fn test_authorized_wildcard() {
    let identity = identity("test", Some(&["agent:*"]));

    assert!(is_authorized_for_service(&identity, "any-service", &ClientType::Agent));
    assert!(is_authorized_for_service(&identity, "another", &ClientType::Agent));
    assert!(!is_authorized_for_service(&identity, "any-service", &ClientType::Connector));
}

#[test]
fn test_authorized_backward_compat_no_san() {
    let identity = identity("legacy", None);

    assert!(is_authorized_for_service(&identity, "any", &ClientType::Agent));
    assert!(is_authorized_for_service(&identity, "any", &ClientType::Connector));
}

#[test]
fn test_authorized_connector_exact() {
    let identity = identity("test-connector", Some(&["connector:web-app"]));

    assert!(is_authorized_for_service(&identity, "web-app", &ClientType::Connector));
    assert!(!is_authorized_for_service(&identity, "web-app", &ClientType::Agent));
    assert!(!is_authorized_for_service(&identity, "other", &ClientType::Connector));
}

#[test]
fn test_authorized_multiple_services() {
    let identity = identity("multi", Some(&["agent:svc-a", "agent:svc-b"]));

    assert!(is_authorized_for_service(&identity, "svc-a", &ClientType::Agent));
    assert!(is_authorized_for_service(&identity, "svc-b", &ClientType::Agent));
    assert!(!is_authorized_for_service(&identity, "svc-c", &ClientType::Agent));
}

#[test]
fn test_authorized_empty_services_set_denies_all() {
    let identity = identity("empty", Some(&[]));

    assert!(!is_authorized_for_service(&identity, "any", &ClientType::Agent));
    assert!(!is_authorized_for_service(&identity, "any", &ClientType::Connector));
}

#[test]
fn connections_are_authenticated_by_client_certificate() {
    let conn = vec![1u8];
    let mut strict = RelayState::new(true);
    strict.add_client(conn.clone(), Client::new(SockAddr::v4(10, 0, 0, 1, 5000)));
    assert_eq!(strict.authenticate(&conn, None), Some("client cert required"));
    assert_eq!(strict.authenticate(&conn, Some(&[0x30, 0x03, 0x02, 0x01, 0x01])), Some("invalid client cert"));
    assert_eq!(strict.authenticate(&conn, Some(&build_cert_no_cn(&["agent.web.ztna"]))), Some("invalid client cert"));
    assert!(strict.clients.get(&conn).unwrap().authenticated_identity.is_none());
    let der = build_test_cert("agent-7", &["agent.web.ztna"]);
    assert_eq!(strict.authenticate(&conn, Some(&der)), None);
    assert_eq!(strict.clients.get(&conn).unwrap().authenticated_identity.as_deref(), Some("agent-7"));

    let mut lenient = RelayState::new(false);
    lenient.add_client(conn.clone(), Client::new(SockAddr::v4(10, 0, 0, 1, 5000)));
    assert_eq!(lenient.authenticate(&conn, None), None);
    assert_eq!(lenient.authenticate(&conn, Some(&[0xff])), None);
    assert!(lenient.clients.get(&conn).unwrap().authenticated_identity.is_none());
}
