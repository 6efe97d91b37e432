use onion_controller::models::Component;
use onion_controller::numbers::parse_unsigned;
use onion_controller::service;
use onion_controller::settings::{
    get_connection_settings, get_controller_connection_settings, get_controller_domain_name,
    get_credentials, get_domain_name, get_next_ping_duration, get_service_endpoint,
    log_file_name, ClientSession, ComponentDescriptor, DescriptorBuilder, RepositoryType,
};

#[test]
fn get_from_no_env_returns_default_repository_type() {
    let repo_type = RepositoryType::get_from_env(None);
    assert_eq!(repo_type, RepositoryType::default());
}

#[test]
fn default_repository_type_returns_inmemory() {
    let default_repo = RepositoryType::default();
    assert_eq!(default_repo, RepositoryType::InMemory);
}

#[test]
fn from_u8_to_redis_repository_type() {
    let repo_type = RepositoryType::from(1);
    assert_eq!(repo_type, RepositoryType::Redis);
}

#[test]
fn from_u8_to_inmemory_repository_type() {
    let repo_type = RepositoryType::from(0);
    assert_eq!(repo_type, RepositoryType::InMemory);
}

#[test]
fn repository_setting_is_parsed() {
    assert_eq!(RepositoryType::get_from_env(Some("1")), RepositoryType::Redis);
    assert_eq!(RepositoryType::get_from_env(Some("+1")), RepositoryType::Redis);
    assert_eq!(RepositoryType::get_from_env(Some("0")), RepositoryType::InMemory);
    assert_eq!(RepositoryType::get_from_env(Some("256")), RepositoryType::InMemory);
    assert_eq!(RepositoryType::get_from_env(Some("x")), RepositoryType::InMemory);
}

#[test]
fn parse_unsigned_reads_numerals() {
    assert_eq!(parse_unsigned("8080", 65535), Some(8080));
    assert_eq!(parse_unsigned("65535", 65535), Some(65535));
    assert_eq!(parse_unsigned("65536", 65535), None);
    assert_eq!(parse_unsigned("", 65535), None);
    assert_eq!(parse_unsigned("+", 65535), None);
    assert_eq!(parse_unsigned("-1", 65535), None);
    assert_eq!(parse_unsigned("12a", 65535), None);
    assert_eq!(parse_unsigned("007", 255), Some(7));
}

#[test]
fn get_controller_endpoint_valid() {
    let result = get_service_endpoint(Some("192.168.1.1".to_string()), Some("8080".to_string()));
    assert!(result.is_ok());
    let (ip, port) = result.unwrap();
    assert_eq!(ip, "192.168.1.1");
    assert_eq!(port, 8080);
}

#[test]
fn get_controller_connection_settings_missing_ip() {
    let result = get_controller_connection_settings(None, Some("8080".to_string()));
    assert!(result.is_err());
    assert_eq!(result.err().unwrap(), "Controller IP not set");
}

#[test]
fn get_controller_connection_settings_invalid_port() {
    let result = get_controller_connection_settings(
        Some("192.168.1.1".to_string()),
        Some("invalid_port".to_string()),
    );
    assert!(result.is_err());
    assert_eq!(result.err().unwrap(), "Invalid port number");
}

#[test]
fn get_controller_domain_name_valid() {
    let result = get_controller_domain_name(Some("example.com".to_string()));
    assert!(result.is_ok());
    assert_eq!(result.unwrap(), "example.com");
}

#[test]
fn get_controller_domain_name_missing() {
    let result = get_domain_name(None);
    assert!(result.is_err());
}

#[test]
fn get_credentials_valid() {
    let result = get_credentials(Some("user".to_string()), Some("password".to_string()));
    assert!(result.is_ok());
    let credentials = result.ok().unwrap();
    assert_eq!(credentials.uid, "user");
    assert_eq!(credentials.pwd, "password");
}

#[test]
fn get_credentials_missing_uid() {
    let result = get_credentials(None, Some("password".to_string()));
    assert_eq!(result.err().unwrap(), "UID not set");
}

#[test]
fn get_credentials_missing_pwd() {
    let result = get_credentials(Some("user".to_string()), None);
    assert_eq!(result.err().unwrap(), "PWD not set");
}

#[test]
fn get_credentials_missing_both() {
    let result = get_credentials(None, None);
    assert!(result.is_err());
}

#[test]
fn get_service_endpoint_valid() {
    let result = get_connection_settings(
        Some("127.0.0.1".to_string()),
        Some("9090".to_string()),
        Some("localhost".to_string()),
        Some(b"certificate".to_vec()),
    );
    let settings = result.ok().unwrap();
    assert_eq!(settings.ip, "127.0.0.1");
    assert_eq!(settings.port, 9090);
    assert_eq!(settings.domain_name, "localhost");
    assert_eq!(settings.certificate, b"certificate".to_vec());
}

#[test]
fn connection_settings_errors_in_order() {
    let no_port = get_connection_settings(Some("127.0.0.1".to_string()), None, None, None);
    assert_eq!(no_port.err().unwrap(), "port not set");
    let no_domain = get_connection_settings(
        Some("127.0.0.1".to_string()),
        Some("9090".to_string()),
        None,
        None,
    );
    assert_eq!(no_domain.err().unwrap(), "Domain name not set");
    let no_cert = get_connection_settings(
        Some("127.0.0.1".to_string()),
        Some("9090".to_string()),
        Some("localhost".to_string()),
        None,
    );
    assert_eq!(no_cert.err().unwrap(), "Certificate not readable");
}

#[test]
fn controller_falls_back_to_listening_settings() {
    let listening = get_connection_settings(
        Some("10.0.0.1".to_string()),
        Some("7000".to_string()),
        Some("node".to_string()),
        Some(vec![1]),
    );
    let chosen = Component::Controller.get_connection_settings(Err("missing".to_string()), listening);
    assert_eq!(chosen.ok().unwrap().port, 7000);
}

#[test]
fn descriptor_load_keeps_parts() {
    let settings = get_connection_settings(
        Some("10.0.0.1".to_string()),
        Some("7000".to_string()),
        Some("node".to_string()),
        Some(vec![1, 2]),
    );
    let credentials = get_credentials(Some("u".to_string()), Some("p".to_string()));
    let descriptor = ComponentDescriptor::load(Component::Controller, settings, credentials)
        .ok()
        .unwrap();
    assert_eq!(descriptor.get_connection_settings().ip, "10.0.0.1");
    assert_eq!(descriptor.get_credentials().uid, "u");
    match descriptor {
        ComponentDescriptor::Controller { version, .. } => assert_eq!(version, "1.0.0"),
        _ => panic!("expected a Controller descriptor"),
    }
}

#[test]
fn descriptor_builder_requires_component_type() {
    let credentials = get_credentials(Some("u".to_string()), Some("p".to_string()));
    let mut builder =
        DescriptorBuilder::load(Ok(("10.0.0.1".to_string(), 7000)), credentials).ok().unwrap();
    assert_eq!(builder.build().err().unwrap(), "Provide the component type first");
    builder.with_component_type(1);
    let descriptor = builder.build().ok().unwrap();
    assert_eq!(descriptor.version, "0.0.0");
    assert_eq!(descriptor.component_type, 1);
    builder.with_version("2.1.0");
    assert_eq!(builder.build().ok().unwrap().version, "2.1.0");
}

#[test]
fn log_file_name_joins_host_and_kind() {
    assert_eq!(log_file_name("host", "controller"), "host-controller.log");
}

#[test]
fn client_session_is_authenticated_after_set() {
    let mut session = ClientSession::default();
    assert!(!session.is_authenticated());
    session.set_session("alice".to_string(), "key".to_string());
    assert!(session.is_authenticated());
}

#[test]
fn next_ping_duration_counts_down() {
    assert_eq!(get_next_ping_duration(0), 5000);
    assert_eq!(get_next_ping_duration(1200), 3800);
    assert_eq!(get_next_ping_duration(5000), 0);
    assert_eq!(get_next_ping_duration(9000), 0);
}

#[test]
fn from_byte_to_component_type() {
    assert_eq!(Component::from_code(0), Some(Component::Controller));
    assert_eq!(Component::from_code(1), Some(Component::Proxy));
    assert_eq!(Component::from_code(2), Some(Component::Client));
    assert_eq!(Component::from_code(3), None);
    assert_eq!(Component::Proxy.code(), 1);
    assert_eq!(Component::Client.name(), "Client");
}

#[test]
fn get_controller_connection_settings_valid() {
    let result = service::get_controller_connection_settings(
        Some("127.0.0.1".to_string()),
        Some("9090".to_string()),
        Some("localhost".to_string()),
        Some(b"ca".to_vec()),
    );
    let settings = result.ok().unwrap();
    assert_eq!(settings.ip, "127.0.0.1");
    assert_eq!(settings.port, 9090);
    assert_eq!(settings.domain_name, "localhost");
    assert_eq!(settings.certificate, b"ca".to_vec());
}

#[test]
fn full_controller_settings_errors() {
    let missing_ip = service::get_controller_connection_settings(
        None,
        Some("8080".to_string()),
        Some("d".to_string()),
        Some(vec![]),
    );
    assert_eq!(missing_ip.err().unwrap(), "IP not set");
    let bad_port = service::get_controller_connection_settings(
        Some("192.168.1.1".to_string()),
        Some("invalid_port".to_string()),
        Some("d".to_string()),
        Some(vec![]),
    );
    assert_eq!(bad_port.err().unwrap(), "Invalid port number");
    let no_cert_file = service::get_controller_connection_settings(
        Some("192.168.1.1".to_string()),
        Some("8080".to_string()),
        Some("d".to_string()),
        None,
    );
    assert_eq!(no_cert_file.err().unwrap(), "Controller certificate file not set");
    let unreadable = service::get_controller_connection_settings(
        Some("192.168.1.1".to_string()),
        Some("8080".to_string()),
        Some("d".to_string()),
        Some(vec![]),
    );
    assert!(unreadable.ok().unwrap().certificate.is_empty());
}
