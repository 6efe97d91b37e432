use onion_controller::controller::{Code, Controller, ServiceError};
use onion_controller::membership::{parse_members, MemberManager};
use onion_controller::models::{Component, Member};

const CLIENT: i32 = 2;
const PROXY: i32 = 1;
const CONTROLLER: i32 = 0;

fn members() -> MemberManager {
    let mut manager = MemberManager::new();
    manager.set_members(&parse_members("alice;pw\nbob;pw2\np1;s1\np2;s2\n"));
    manager
}

fn controller() -> Controller {
    Controller::new(members(), "1.0.0".to_string())
}

fn login(c: &mut Controller, kind: i32, uid: &str, pwd: &str, peer: &str, ip: &str, port: u32, now: u64) -> String {
    c.login(
        kind,
        &uid.to_string(),
        &pwd.to_string(),
        Some(peer.to_string()),
        ip.to_string(),
        port,
        b"cert".to_vec(),
        format!("{}.local", uid),
        now,
    )
    .ok()
    .unwrap()
    .access_key
}

#[test]
fn login_ping_logout() {
    let mut c = controller();
    let response = c
        .login(
            CLIENT,
            &"alice".to_string(),
            &"pw".to_string(),
            Some("10.0.0.2:41000".to_string()),
            "10.0.0.2".to_string(),
            5000,
            vec![],
            "alice.local".to_string(),
            0,
        )
        .ok()
        .unwrap();
    assert_eq!(response.message, "Login successful");
    let key = response.access_key;
    assert_eq!(key.len(), 36);

    let pong = c.ping(&key, Some("10.0.0.2:41000".to_string()), 1000, 77).ok().unwrap();
    assert_eq!(pong.status, "PONG");
    assert_eq!(pong.timestamp, 77);

    assert!(c.logout(&key).is_ok());
    let err = c.ping(&key, Some("10.0.0.2:41000".to_string()), 2000, 78).err().unwrap();
    assert_eq!(err, ServiceError::InvalidAccessKey);
    assert_eq!(err.code(), Code::Unauthenticated);
    assert_eq!(err.message(), "Invalid access key");
}

#[test]
fn three_hop_routing() {
    let mut c = controller();
    let p1 = login(&mut c, PROXY, "p1", "s1", "10.0.0.10:1", "10.0.0.10", 9000, 0);
    let p2 = login(&mut c, PROXY, "p2", "s2", "10.0.0.11:1", "10.0.0.11", 9000, 0);
    login(&mut c, CLIENT, "bob", "pw2", "10.0.0.20:1", "10.0.0.20", 5000, 0);
    let ka = login(&mut c, CLIENT, "alice", "pw", "10.0.0.2:1", "10.0.0.2", 5000, 0);
    assert_ne!(p1, p2);

    let conversation = c.init_conversation(&ka, &"bob".to_string(), 10).ok().unwrap();
    assert_eq!(conversation.len(), 32);

    let first = c.route(&ka, &conversation, 20).ok().unwrap();
    assert!(!first.end_route);
    assert!(first.ip_address == "10.0.0.10" || first.ip_address == "10.0.0.11");
    assert_eq!(first.port_number, 9000);

    let second = c.route(&ka, &conversation, 30).ok().unwrap();
    assert!(!second.end_route);
    assert!(second.ip_address == "10.0.0.10" || second.ip_address == "10.0.0.11");
    assert_ne!(first.nonce, second.nonce);

    let third = c.route(&ka, &conversation, 40).ok().unwrap();
    assert!(third.end_route);
    assert_eq!(third.ip_address, "10.0.0.20");
    assert_eq!(third.port_number, 5000);
    assert_eq!(third.domain_name, "bob.local");

    let hops = c.get_conversation(&conversation).unwrap().routes;
    assert_eq!(hops.len(), 3);
    assert!(hops[2].end_route);

    let redeemed = c.redeem(&ka, &conversation, &third.nonce, 50).ok().unwrap();
    assert_eq!(redeemed.source_info, Some("alice".to_string()));
    assert!(c.get_conversation(&conversation).is_none());
}

#[test]
fn nonce_single_use() {
    let mut c = controller();
    login(&mut c, PROXY, "p1", "s1", "10.0.0.10:1", "10.0.0.10", 9000, 0);
    login(&mut c, PROXY, "p2", "s2", "10.0.0.11:1", "10.0.0.11", 9000, 0);
    login(&mut c, CLIENT, "bob", "pw2", "10.0.0.20:1", "10.0.0.20", 5000, 0);
    let ka = login(&mut c, CLIENT, "alice", "pw", "10.0.0.2:1", "10.0.0.2", 5000, 0);
    let conversation = c.init_conversation(&ka, &"bob".to_string(), 0).ok().unwrap();
    let n1 = c.route(&ka, &conversation, 0).ok().unwrap().nonce;
    c.route(&ka, &conversation, 0).ok().unwrap();
    let n3 = c.route(&ka, &conversation, 0).ok().unwrap().nonce;

    // An intermediate hop is redeemed once, and reports no sender.
    let first = c.redeem(&ka, &conversation, &n1, 0).ok().unwrap();
    assert_eq!(first.source_info, None);
    let again = c.redeem(&ka, &conversation, &n1, 0).err().unwrap();
    assert_eq!(again, ServiceError::RedeemFailed);
    assert_eq!(again.code(), Code::Internal);
    assert_eq!(again.message(), "Failed to redeem route");

    assert!(c.redeem(&ka, &conversation, &n3, 0).is_ok());
    let err = c.redeem(&ka, &conversation, &n3, 0).err().unwrap();
    assert_eq!(err, ServiceError::InvalidConversation);
    assert_eq!(err.code(), Code::NotFound);
    assert_eq!(err.message(), "Invalid conversation");
}

#[test]
fn proxy_starvation() {
    let mut c = controller();
    login(&mut c, CLIENT, "bob", "pw2", "10.0.0.20:1", "10.0.0.20", 5000, 0);
    let ka = login(&mut c, CLIENT, "alice", "pw", "10.0.0.2:1", "10.0.0.2", 5000, 0);
    let conversation = c.init_conversation(&ka, &"bob".to_string(), 0).ok().unwrap();
    let err = c.route(&ka, &conversation, 0).err().unwrap();
    assert_eq!(err, ServiceError::NoProxiesFound);
    assert_eq!(err.code(), Code::NotFound);
    assert_eq!(err.message(), "No proxies found");
}

#[test]
fn self_proxy_exclusion() {
    let mut c = controller();
    let kp = login(&mut c, PROXY, "p1", "s1", "10.0.0.10:1", "10.0.0.10", 9000, 0);
    let ka = login(&mut c, CLIENT, "alice", "pw", "10.0.0.2:1", "10.0.0.2", 5000, 0);
    let conversation = c.init_conversation(&ka, &"bob".to_string(), 0).ok().unwrap();
    let hop = c.route(&ka, &conversation, 0).ok().unwrap();
    assert_eq!(hop.ip_address, "10.0.0.10");
    assert!(!hop.end_route);

    let own = c.init_conversation(&kp, &"bob".to_string(), 0).ok().unwrap();
    let err = c.route(&kp, &own, 0).err().unwrap();
    assert_eq!(err, ServiceError::NoProxiesFound);
}

#[test]
fn session_refresh_under_load() {
    let mut c = controller();
    let peer = "10.0.0.2:41000".to_string();
    let key = login(&mut c, CLIENT, "alice", "pw", "10.0.0.2:41000", "10.0.0.2", 5000, 0);
    let mut now: u64 = 0;
    let mut next_sweep: u64 = 5000;
    while now < 60000 {
        now += 3000;
        while next_sweep <= now {
            c.kill_expired_sessions(next_sweep);
            next_sweep += 5000;
        }
        assert!(c.ping(&key, Some(peer.clone()), now, 0).is_ok());
    }
    let idle_until = now + 15000;
    while next_sweep <= idle_until {
        c.kill_expired_sessions(next_sweep);
        next_sweep += 5000;
    }
    let err = c.ping(&key, Some(peer), idle_until, 0).err().unwrap();
    assert_eq!(err, ServiceError::InvalidAccessKey);
}

#[test]
fn ping_from_other_address_is_refused() {
    let mut c = controller();
    let key = login(&mut c, CLIENT, "alice", "pw", "10.0.0.2:41000", "10.0.0.2", 5000, 0);
    let err = c.ping(&key, Some("10.0.0.9:41000".to_string()), 0, 0).err().unwrap();
    assert_eq!(err, ServiceError::InvalidConnection);
    assert_eq!(err.code(), Code::Unauthenticated);
    let no_peer = c.ping(&key, None, 0, 0).err().unwrap();
    assert_eq!(no_peer, ServiceError::NoPeerAddress);
}

#[test]
fn login_refusals() {
    let mut c = controller();
    let refuse = |c: &mut Controller, kind: i32, uid: &str, pwd: &str| {
        c.login(
            kind,
            &uid.to_string(),
            &pwd.to_string(),
            Some("10.0.0.2:1".to_string()),
            "10.0.0.2".to_string(),
            1,
            vec![],
            String::new(),
            0,
        )
        .err()
        .unwrap()
    };
    let err = refuse(&mut c, CONTROLLER, "alice", "pw");
    assert_eq!(err, ServiceError::InvalidComponentType);
    assert_eq!(err.code(), Code::InvalidArgument);
    assert_eq!(refuse(&mut c, 7, "alice", "pw"), ServiceError::InvalidComponentType);
    assert_eq!(refuse(&mut c, CLIENT, "", "pw"), ServiceError::EmptyCredentials);
    let bad = refuse(&mut c, CLIENT, "alice", "wrong");
    assert_eq!(bad, ServiceError::InvalidCredentials);
    assert_eq!(bad.message(), "Invalid credentials");
    assert_eq!(refuse(&mut c, CLIENT, "mallory", "pw"), ServiceError::InvalidCredentials);
}

#[test]
fn status_counts_sessions() {
    let mut c = controller();
    let ka = login(&mut c, CLIENT, "alice", "pw", "10.0.0.2:1", "10.0.0.2", 5000, 0);
    login(&mut c, PROXY, "p1", "s1", "10.0.0.10:1", "10.0.0.10", 9000, 0);
    login(&mut c, PROXY, "p2", "s2", "10.0.0.11:1", "10.0.0.11", 9000, 0);
    let status = c.status(&ka, 0).ok().unwrap();
    assert_eq!(status.version, "1.0.0");
    assert_eq!(status.connected_clients, 1);
    assert_eq!(status.connected_proxies, 2);
    assert_eq!(status.connected_controllers, 0);
    assert_eq!(
        c.status(&"some_invalid_key".to_string(), 0).err().unwrap(),
        ServiceError::InvalidAccessKey
    );
}

#[test]
fn relogin_keeps_both_keys_until_sweep() {
    let mut c = controller();
    let first = login(&mut c, CLIENT, "alice", "pw", "10.0.0.2:1", "10.0.0.2", 5000, 0);
    let second = login(&mut c, CLIENT, "alice", "pw", "10.0.0.2:1", "10.0.0.2", 5000, 8000);
    assert!(c.ping(&first, Some("10.0.0.2:1".to_string()), 9000, 0).is_ok());
    let status = c.status(&second, 9000).ok().unwrap();
    assert_eq!(status.connected_clients, 1);
    // Neither was looked up since 9000: both lapse after 19000.
    c.kill_expired_sessions(19001);
    assert!(c.ping(&first, Some("10.0.0.2:1".to_string()), 19001, 0).is_err());
    assert!(c.ping(&second, Some("10.0.0.2:1".to_string()), 19001, 0).is_err());
}

#[test]
fn init_conversation_to_controller_when_empty() {
    let mut c = controller();
    let ka = login(&mut c, CLIENT, "alice", "pw", "10.0.0.2:1", "10.0.0.2", 5000, 0);
    let id = c.init_conversation(&ka, &String::new(), 0).ok().unwrap();
    let conversation = c.get_conversation(&id).unwrap();
    assert_eq!(conversation.to, "controller_uid");
    assert_eq!(conversation.from, "alice");
    assert_eq!(conversation.routing_id, 1);
    assert!(c.init_conversation(&"nope".to_string(), &String::new(), 0).is_err());
}

#[test]
fn terminal_hop_needs_client_session() {
    let mut c = controller();
    login(&mut c, PROXY, "p1", "s1", "10.0.0.10:1", "10.0.0.10", 9000, 0);
    login(&mut c, PROXY, "p2", "s2", "10.0.0.11:1", "10.0.0.11", 9000, 0);
    let ka = login(&mut c, CLIENT, "alice", "pw", "10.0.0.2:1", "10.0.0.2", 5000, 0);
    let conversation = c.init_conversation(&ka, &"bob".to_string(), 0).ok().unwrap();
    c.route(&ka, &conversation, 0).ok().unwrap();
    c.route(&ka, &conversation, 0).ok().unwrap();
    let err = c.route(&ka, &conversation, 0).err().unwrap();
    assert_eq!(err, ServiceError::NoClientFound);
    login(&mut c, CLIENT, "bob", "pw2", "10.0.0.20:1", "10.0.0.20", 5000, 0);
    assert!(c.route(&ka, &conversation, 0).ok().unwrap().end_route);
    assert_eq!(c.route(&ka, &conversation, 0).err().unwrap(), ServiceError::RouteComplete);
}

#[test]
fn route_refusals() {
    let mut c = controller();
    let ka = login(&mut c, CLIENT, "alice", "pw", "10.0.0.2:1", "10.0.0.2", 5000, 0);
    assert_eq!(
        c.route(&"bad".to_string(), &"x".to_string(), 0).err().unwrap(),
        ServiceError::InvalidAccessKey
    );
    assert_eq!(
        c.route(&ka, &"x".to_string(), 0).err().unwrap(),
        ServiceError::InvalidConversation
    );
    assert_eq!(
        c.redeem(&"bad".to_string(), &"x".to_string(), &"n".to_string(), 0).err().unwrap(),
        ServiceError::InvalidAccessKey
    );
}

#[test]
fn members_feed_is_parsed() {
    let members = parse_members("alice;pw\r\n\nbad line\na;b;c\nbob;\n;x");
    let pairs: Vec<(String, String)> =
        members.iter().map(|m| (m.uid.clone(), m.pwd.clone())).collect();
    assert_eq!(
        pairs,
        vec![
            ("alice".to_string(), "pw".to_string()),
            ("bob".to_string(), String::new()),
            (String::new(), "x".to_string()),
        ]
    );
}

#[test]
fn member_manager_keeps_last_member_per_uid() {
    let mut manager = MemberManager::new();
    manager.set_members(&vec![
        Member::new("u".to_string(), "1".to_string()),
        Member::new("u".to_string(), "2".to_string()),
    ]);
    assert_eq!(manager.get_member(&"u".to_string()).unwrap().pwd, "2");
    assert!(manager.get_member(&"v".to_string()).is_none());
}

#[test]
fn component_names() {
    assert_eq!(Component::Proxy.name(), "Proxy");
}

#[test]
fn controller_session_is_counted_and_renewed() {
    let mut c = controller();
    let own = c
        .open_controller_session(
            &"controller".to_string(),
            "10.0.0.1:7000".to_string(),
            "10.0.0.1".to_string(),
            7000,
            vec![],
            "controller.local".to_string(),
            0,
        )
        .unwrap();
    assert_eq!(own.len(), 36);
    let ka = login(&mut c, CLIENT, "alice", "pw", "10.0.0.2:1", "10.0.0.2", 5000, 0);
    assert_eq!(c.status(&ka, 0).ok().unwrap().connected_controllers, 1);
    assert!(c.check_session(&own, 8000).is_ok());
    c.kill_expired_sessions(15000);
    assert!(c.check_session(&own, 15000).is_ok());
    assert_eq!(ServiceError::SessionNotOpened.code(), Code::Internal);
    assert_eq!(ServiceError::SessionNotOpened.message(), "Failed to open session");
}

#[test]
fn route_sweep_through_controller() {
    let mut c = controller();
    let ka = login(&mut c, CLIENT, "alice", "pw", "10.0.0.2:1", "10.0.0.2", 5000, 0);
    let id = c.init_conversation(&ka, &"bob".to_string(), 0).ok().unwrap();
    c.kill_expired_routes(60000);
    assert!(c.get_conversation(&id).is_some());
    c.kill_expired_routes(60001);
    assert!(c.get_conversation(&id).is_none());
}
