use ztna::server::registry::{ClientType, Registry};

fn make_conn_id(id: u8) -> Vec<u8> {
    vec![id]
}

#[test]
fn test_agent_to_connector_routing() {
    let mut registry = Registry::new();
    let connector_id = make_conn_id(1);
    let agent_id = make_conn_id(2);

    registry.register(connector_id.clone(), ClientType::Connector, "web-app".to_string());
    registry.register(agent_id.clone(), ClientType::Agent, "web-app".to_string());

    assert_eq!(registry.find_destination(&agent_id), Some(connector_id.clone()));
    assert_eq!(registry.find_destination(&connector_id), Some(agent_id.clone()));
}

#[test]
fn test_no_matching_service() {
    let mut registry = Registry::new();
    let connector_id = make_conn_id(1);
    let agent_id = make_conn_id(2);

    registry.register(connector_id.clone(), ClientType::Connector, "web-app".to_string());
    registry.register(agent_id.clone(), ClientType::Agent, "database".to_string());

    assert_eq!(registry.find_destination(&agent_id), None);
}

#[test]
fn test_unregister_connector() {
    let mut registry = Registry::new();
    let connector_id = make_conn_id(1);
    let agent_id = make_conn_id(2);

    registry.register(connector_id.clone(), ClientType::Connector, "web-app".to_string());
    registry.register(agent_id.clone(), ClientType::Agent, "web-app".to_string());

    registry.unregister(&connector_id);

    assert_eq!(registry.find_destination(&agent_id), None);
    assert_eq!(registry.connector_count(), 0);
}

#[test]
fn test_unregister_agent() {
    let mut registry = Registry::new();
    let connector_id = make_conn_id(1);
    let agent_id = make_conn_id(2);

    registry.register(connector_id.clone(), ClientType::Connector, "web-app".to_string());
    registry.register(agent_id.clone(), ClientType::Agent, "web-app".to_string());

    registry.unregister(&agent_id);

    assert_eq!(registry.find_destination(&connector_id), None);
    assert_eq!(registry.agent_count(), 0);
}

#[test]
fn test_multi_service_agent() {
    let mut registry = Registry::new();
    let echo_connector_id = make_conn_id(1);
    let web_connector_id = make_conn_id(2);
    let agent_id = make_conn_id(3);

    registry.register(echo_connector_id.clone(), ClientType::Connector, "echo-service".to_string());
    registry.register(web_connector_id.clone(), ClientType::Connector, "web-app".to_string());

    registry.register(agent_id.clone(), ClientType::Agent, "echo-service".to_string());
    registry.register(agent_id.clone(), ClientType::Agent, "web-app".to_string());

    assert_eq!(registry.find_connector_for_service("echo-service"), Some(echo_connector_id.clone()));
    assert_eq!(registry.find_connector_for_service("web-app"), Some(web_connector_id.clone()));

    assert_eq!(registry.find_destination(&echo_connector_id), Some(agent_id.clone()));
    assert_eq!(registry.find_destination(&web_connector_id), Some(agent_id.clone()));

    assert_eq!(registry.agent_count(), 1);
}

#[test]
fn test_find_agent_for_service() {
    let mut registry = Registry::new();
    let agent_id = make_conn_id(1);
    registry.register(agent_id.clone(), ClientType::Agent, "echo-service".to_string());
    registry.register(agent_id.clone(), ClientType::Agent, "web-app".to_string());

    assert_eq!(registry.find_agent_for_service("echo-service"), Some(agent_id.clone()));
    assert_eq!(registry.find_agent_for_service("web-app"), Some(agent_id.clone()));
    assert_eq!(registry.find_agent_for_service("nonexistent"), None);
}

#[test]
fn test_is_agent_for_service() {
    let mut registry = Registry::new();
    let agent_id = make_conn_id(1);
    let non_agent_id = make_conn_id(2);

    registry.register(agent_id.clone(), ClientType::Agent, "web-app".to_string());

    assert!(registry.is_agent_for_service(&agent_id, "web-app"));
    assert!(!registry.is_agent_for_service(&agent_id, "database"));
    assert!(!registry.is_agent_for_service(&non_agent_id, "web-app"));
}

#[test]
fn test_connector_replacement_warns() {
    let mut registry = Registry::new();
    let old_connector = make_conn_id(1);
    let new_connector = make_conn_id(2);

    registry.register(old_connector.clone(), ClientType::Connector, "echo-service".to_string());
    registry.register(new_connector.clone(), ClientType::Connector, "echo-service".to_string());

    assert_eq!(registry.find_connector_for_service("echo-service"), Some(new_connector));
}

#[test]
fn test_connector_replacement_preserves_registration() {
    let mut registry = Registry::new();
    let old_connector = make_conn_id(1);
    let new_connector = make_conn_id(2);
    let agent_id = make_conn_id(3);

    registry.register(old_connector.clone(), ClientType::Connector, "echo-service".to_string());
    registry.register(agent_id.clone(), ClientType::Agent, "echo-service".to_string());

    assert_eq!(registry.find_connector_for_service("echo-service"), Some(old_connector.clone()));

    registry.register(new_connector.clone(), ClientType::Connector, "echo-service".to_string());

    assert_eq!(registry.find_connector_for_service("echo-service"), Some(new_connector.clone()));

    registry.unregister(&old_connector);

    assert_eq!(registry.find_connector_for_service("echo-service"), Some(new_connector.clone()));
    assert_eq!(registry.connector_count(), 1);

    assert_eq!(registry.find_destination(&agent_id), Some(new_connector.clone()));
}

#[test]
fn unregister_unknown_connection_changes_nothing() {
    let mut registry = Registry::new();
    registry.register(make_conn_id(1), ClientType::Connector, "svc".to_string());
    registry.unregister(&make_conn_id(9));
    assert_eq!(registry.find_connector_for_service("svc"), Some(make_conn_id(1)));
    assert_eq!(registry.connector_count(), 1);
    assert_eq!(registry.agent_count(), 0);
}
