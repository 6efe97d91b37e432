use onion_controller::controller::{Code, Controller, ServiceError};
use onion_controller::membership::MemberManager;
use onion_controller::models::Member;
use onion_controller::routing::RouteManager;
use onion_controller::session::SessionManager;

const EXPECTED_UID: &str = "L.KD<FCjkSA6AEg@";
const EXPECTED_PWD: &str = "w8(PR&-HCJ*ersZV";
const EXPECTED_IP: &str = "127.0.0.1";
const EXPECTED_PORT: u32 = 8080;
const PEER: &str = "127.0.0.1:8080";
const CLIENT: i32 = 2;
const PROXY: i32 = 1;

fn create_service() -> Controller {
    let mut members = MemberManager::new();
    members.set_members(&vec![
        Member::new(EXPECTED_UID.to_string(), EXPECTED_PWD.to_string()),
        Member::new("proxy".to_string(), "proxy_pwd".to_string()),
        Member::new("test_target".to_string(), "target_pwd".to_string()),
    ]);
    Controller::new(members, "1.0.0".to_string())
}

fn login_as(c: &mut Controller, kind: i32, uid: &str, pwd: &str, port: u32) -> String {
    c.login(
        kind,
        &uid.to_string(),
        &pwd.to_string(),
        Some(PEER.to_string()),
        EXPECTED_IP.to_string(),
        port,
        b"test_public_key".to_vec(),
        "test_domain_name".to_string(),
        0,
    )
    .ok()
    .unwrap()
    .access_key
}

fn login(c: &mut Controller) -> String {
    login_as(c, CLIENT, EXPECTED_UID, EXPECTED_PWD, EXPECTED_PORT)
}

#[test]
fn new_creates_member_manager() {
    let manager = MemberManager::new();
    assert!(manager.get_member(&"anyone".to_string()).is_none());
}

#[test]
fn get_member_returns_none_if_no_member_with_uid() {
    let manager = MemberManager::new();
    assert!(manager.get_member(&"1234567890".to_string()).is_none());
}

#[test]
fn get_member_returns_member_if_exists() {
    let mut manager = MemberManager::new();
    manager.set_member(Member::new("1234567890".to_string(), "password".to_string()));
    let member = manager.get_member(&"1234567890".to_string()).unwrap();
    assert_eq!(member.uid, "1234567890");
    assert_eq!(member.pwd, "password");
}

#[test]
fn new_creates_session_manager() {
    let manager = SessionManager::new();
    assert_eq!(manager.count_clients(), 0);
}

#[test]
fn new_creates_route_manager_with_routing_strategies() {
    let manager = RouteManager::new();
    assert_eq!(manager.get_routing_id(&"from".to_string(), &"to".to_string()), 1);
}

#[test]
fn given_existing_member_when_login_is_called_then_login_is_successful() {
    let mut c = create_service();
    let response = c.login(
        CLIENT,
        &EXPECTED_UID.to_string(),
        &EXPECTED_PWD.to_string(),
        Some(PEER.to_string()),
        EXPECTED_IP.to_string(),
        EXPECTED_PORT,
        vec![],
        String::new(),
        0,
    );
    assert!(response.is_ok());
    let login_response = response.ok().unwrap();
    assert_eq!(login_response.message, "Login successful");
    assert!(!login_response.access_key.is_empty());
}

#[test]
fn given_non_existing_member_when_login_is_called_then_login_is_unsuccessful() {
    let mut c = Controller::new(MemberManager::new(), "1.0.0".to_string());
    let response = c.login(
        CLIENT,
        &EXPECTED_UID.to_string(),
        &EXPECTED_PWD.to_string(),
        Some(PEER.to_string()),
        EXPECTED_IP.to_string(),
        EXPECTED_PORT,
        vec![],
        String::new(),
        0,
    );
    assert!(response.is_err());
    let status = response.err().unwrap();
    assert_eq!(status.code(), Code::Unauthenticated);
    assert_eq!(status.message(), "Invalid credentials");
}

#[test]
fn given_existing_session_when_logout_is_called_then_logout_is_successful() {
    let mut c = create_service();
    let key = login(&mut c);
    assert!(c.logout(&key).is_ok());
}

#[test]
fn given_non_existing_session_when_logout_is_called_then_logout_is_unsuccessful() {
    let mut c = create_service();
    let response = c.logout(&"some_invalid_key".to_string());
    assert!(response.is_err());
    let status = response.err().unwrap();
    assert_eq!(status.code(), Code::Unauthenticated);
    assert_eq!(status.message(), "Invalid access key");
}

#[test]
fn given_existing_session_when_ping_is_called_then_ping_is_successful() {
    let mut c = create_service();
    let key = login(&mut c);
    let response = c.ping(&key, Some(PEER.to_string()), 0, 0);
    assert!(response.is_ok());
    assert_eq!(response.ok().unwrap().status, "PONG");
}

#[test]
fn given_non_existing_session_when_ping_is_called_then_ping_is_unsuccessful() {
    let mut c = create_service();
    let response = c.ping(&"some_invalid_key".to_string(), Some(PEER.to_string()), 0, 0);
    assert!(response.is_err());
    let status = response.err().unwrap();
    assert_eq!(status.code(), Code::Unauthenticated);
    assert_eq!(status.message(), "Invalid access key");
}

#[test]
fn given_client_session_when_getting_status_then_returns_expected_status() {
    let mut c = create_service();
    let key = login(&mut c);
    let status = c.status(&key, 0).ok().unwrap();
    assert_eq!(status.version, "1.0.0");
    assert_eq!(status.connected_clients, 1);
    assert_eq!(status.connected_proxies, 0);
    assert_eq!(status.connected_controllers, 0);
}

#[test]
fn given_invalid_access_key_when_checking_session_then_returns_error() {
    let mut c = create_service();
    let result = c.check_session(&"invalid_access_key".to_string(), 0);
    assert!(result.is_err());
    let status = result.err().unwrap();
    assert_eq!(status.code(), Code::Unauthenticated);
    assert_eq!(status.message(), "Invalid access key");
}

#[test]
fn given_valid_access_key_when_checking_session_then_returns_ok() {
    let mut c = create_service();
    let key = login(&mut c);
    assert!(c.check_session(&key, 0).is_ok());
}

#[test]
fn given_non_existing_conversation_when_checking_conversation_then_returns_error() {
    let c = create_service();
    let result = c.check_conversation(&"conversation_id".to_string());
    assert!(result.is_err());
    let status = result.err().unwrap();
    assert_eq!(status.code(), Code::NotFound);
    assert_eq!(status.message(), "Invalid conversation");
}

#[test]
fn given_existing_conversation_when_checking_conversation_then_returns_ok() {
    let mut c = create_service();
    let key = login(&mut c);
    let id = c.init_conversation(&key, &"to_uid".to_string(), 0).ok().unwrap();
    assert!(c.check_conversation(&id).is_ok());
}

#[test]
fn given_non_existing_session_when_initializing_conversation_then_returns_error() {
    let mut c = create_service();
    let result = c.init_conversation(&"test_access_key".to_string(), &"test_target".to_string(), 0);
    assert!(result.is_err());
    assert_eq!(result.err().unwrap().code(), Code::Unauthenticated);
}

#[test]
fn given_existing_session_when_initializing_conversation_then_returns_ok() {
    let mut c = create_service();
    let key = login(&mut c);
    let result = c.init_conversation(&key, &"test_target".to_string(), 0);
    assert!(result.is_ok());
}

#[test]
fn given_non_existing_session_when_routing_then_returns_error() {
    let mut c = create_service();
    let result = c.route(&"test_access_key".to_string(), &"test_conversation_id".to_string(), 0);
    assert!(result.is_err());
    assert_eq!(result.err().unwrap().code(), Code::Unauthenticated);
}

#[test]
fn given_existing_session_but_conversation_when_routing_then_returns_error() {
    let mut c = create_service();
    let key = login(&mut c);
    let result = c.route(&key, &"test_conversation_id".to_string(), 0);
    assert!(result.is_err());
    assert_eq!(result.err().unwrap().code(), Code::NotFound);
}

#[test]
fn given_existing_session_and_conversation_but_proxies_when_routing_then_returns_error() {
    let mut c = create_service();
    let key = login(&mut c);
    let id = c.init_conversation(&key, &"test_target".to_string(), 0).ok().unwrap();
    let result = c.route(&key, &id, 0);
    assert!(result.is_err());
    assert_eq!(result.err().unwrap().code(), Code::NotFound);
}

#[test]
fn given_existing_session_and_conversation_and_proxies_when_routing_then_returns_ok() {
    let mut c = create_service();
    login_as(&mut c, PROXY, "proxy", "proxy_pwd", 9000);
    let key = login(&mut c);
    let id = c.init_conversation(&key, &"test_target".to_string(), 0).ok().unwrap();
    let result = c.route(&key, &id, 0);
    assert!(result.is_ok());
    let hop = result.ok().unwrap();
    assert_eq!(hop.port_number, 9000);
    assert_eq!(hop.public_key, b"test_public_key".to_vec());
    assert_eq!(hop.domain_name, "test_domain_name");
}

#[test]
fn given_non_existing_session_when_redeeming_then_returns_error() {
    let mut c = create_service();
    let result = c.redeem(
        &"test_access_key".to_string(),
        &"test_conversation_id".to_string(),
        &"nonce".to_string(),
        0,
    );
    assert!(result.is_err());
    assert_eq!(result.err().unwrap().code(), Code::Unauthenticated);
}

#[test]
fn given_existing_session_but_conversation_when_redeeming_then_returns_error() {
    let mut c = create_service();
    let key = login(&mut c);
    let result = c.redeem(&key, &"test_conversation_id".to_string(), &"nonce".to_string(), 0);
    assert!(result.is_err());
    assert_eq!(result.err().unwrap().code(), Code::NotFound);
}

#[test]
fn given_existing_session_and_conversation_but_route_when_redeeming_then_returns_error() {
    let mut c = create_service();
    let key = login(&mut c);
    let id = c.init_conversation(&key, &"test_target".to_string(), 0).ok().unwrap();
    let result = c.redeem(&key, &id, &"nonce".to_string(), 0);
    assert!(result.is_err());
    let status = result.err().unwrap();
    assert_eq!(status, ServiceError::RedeemFailed);
    assert_eq!(status.code(), Code::Internal);
}

#[test]
fn given_existing_session_and_conversation_and_route_when_redeeming_then_returns_ok() {
    let mut c = create_service();
    login_as(&mut c, PROXY, "proxy", "proxy_pwd", 9000);
    let key = login(&mut c);
    let id = c.init_conversation(&key, &"test_target".to_string(), 0).ok().unwrap();
    let hop = c.route(&key, &id, 0).ok().unwrap();
    let result = c.redeem(&key, &id, &hop.nonce, 0);
    assert!(result.is_ok());
    assert_eq!(result.ok().unwrap().source_info, None);
    assert!(c.get_conversation(&id).is_some());
}
