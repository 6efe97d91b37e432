use onion_controller::models::{
    Component, ConnectionSettings, Conversation, ExpirationWrapper, Route, SessionInfo,
};
use onion_controller::routing::{RouteManager, RouteStrategy};
use onion_controller::session::SessionManager;
use onion_controller::settings::get_default_log_file_name;

fn settings(ip: &str, port: u16) -> ConnectionSettings {
    ConnectionSettings {
        ip: ip.to_string(),
        port,
        domain_name: "test_domain_name".to_string(),
        certificate: b"test_public_key".to_vec(),
    }
}

fn open(m: &mut SessionManager, kind: Component, uid: &str, now: u64) -> String {
    m.set_session(
        kind,
        &uid.to_string(),
        "127.0.0.1:8080".to_string(),
        "127.0.0.1".to_string(),
        8080,
        vec![],
        String::new(),
        now,
    )
    .unwrap()
}

fn session(uid: &str, key: &str, kind: Component) -> SessionInfo {
    SessionInfo {
        access_key: key.to_string(),
        uid: uid.to_string(),
        peer_address: "127.0.0.1:8080".to_string(),
        component: kind,
        on_ip_address: "127.0.0.1".to_string(),
        on_port_number: 8080,
        public_key: vec![],
        domain_name: String::new(),
    }
}

#[test]
fn set_session_creates_and_stores_session_returning_access_key() {
    let mut m = SessionManager::new();
    let key = open(&mut m, Component::Client, "1234567890", 0);
    let s = m.get_session(&key, 0).unwrap();
    assert_eq!(s.uid, "1234567890");
    assert_eq!(s.component, Component::Client);
    assert_eq!(s.access_key, key);
    assert_eq!(key.len(), 36);
}

#[test]
fn set_session_keeps_every_live_session() {
    let mut m = SessionManager::new();
    let keys: Vec<String> = (0..5).map(|i| open(&mut m, Component::Client, &format!("c{}", i), 0)).collect();
    for (i, k) in keys.iter().enumerate() {
        assert_eq!(m.get_session(k, 0).unwrap().uid, format!("c{}", i));
        for other in keys.iter().skip(i + 1) {
            assert_ne!(k, other);
        }
    }
}

#[test]
fn get_session_returns_session_info() {
    let mut m = SessionManager::new();
    m.insert_session(session("1234567890", "test_access_key", Component::Proxy), 0);
    let s = m.get_session(&"test_access_key".to_string(), 0).unwrap();
    assert_eq!(s.uid, "1234567890");
    assert!(m.get_session(&"other".to_string(), 0).is_none());
}

#[test]
fn remove_session_removes_session() {
    let mut m = SessionManager::new();
    let key = open(&mut m, Component::Client, "alice", 0);
    m.remove_session(&key);
    assert!(m.get_session(&key, 0).is_none());
    assert!(m.get_client(&"alice".to_string()).is_none());
    assert_eq!(m.count_clients(), 0);
}

#[test]
fn get_proxies_returns_proxies() {
    let mut m = SessionManager::new();
    m.insert_session(session("uid", "key", Component::Proxy), 0);
    m.insert_session(session("other uid", "other key", Component::Proxy), 0);
    let proxies = m.get_proxies(&"key".to_string());
    assert_eq!(proxies.len(), 1);
    assert_eq!(proxies[0].access_key, "other key");
    assert_eq!(proxies[0].uid, "other uid");
    assert_eq!(m.get_proxies(&"nobody".to_string()).len(), 2);
}

#[test]
fn get_client_returns_client() {
    let mut m = SessionManager::new();
    let key = open(&mut m, Component::Client, "1234567890", 0);
    let c = m.get_client(&"1234567890".to_string()).unwrap();
    assert_eq!(c.access_key, key);
    assert!(m.get_client(&"nobody".to_string()).is_none());
}

#[test]
fn count_proxies_returns_count() {
    let mut m = SessionManager::new();
    open(&mut m, Component::Proxy, "p1", 0);
    open(&mut m, Component::Proxy, "p2", 0);
    assert_eq!(m.count_proxies(), 2);
}

#[test]
fn count_clients_returns_count() {
    let mut m = SessionManager::new();
    for i in 0..10 {
        open(&mut m, Component::Client, &format!("c{}", i), 0);
    }
    assert_eq!(m.count_clients(), 10);
}

#[test]
fn count_controllers_returns_count() {
    let mut m = SessionManager::new();
    open(&mut m, Component::Controller, "ctrl", 0);
    assert_eq!(m.count_controllers(), 1);
    assert_eq!(m.count_proxies(), 0);
}

#[test]
fn sweep_removes_lapsed_sessions_and_their_index_entries() {
    let mut m = SessionManager::new();
    let old_proxy = open(&mut m, Component::Proxy, "p1", 0);
    let live_proxy = open(&mut m, Component::Proxy, "p2", 6000);
    let client = open(&mut m, Component::Client, "alice", 0);
    // Lapse at 10000 and 16000; a sweep at 12000 takes the first ones only.
    m.kill_expired_sessions(12000);
    assert!(m.get_session(&old_proxy, 12000).is_none());
    assert!(m.get_session(&client, 12000).is_none());
    assert!(m.get_client(&"alice".to_string()).is_none());
    assert_eq!(m.count_proxies(), 1);
    assert_eq!(m.count_clients(), 0);
    let proxies = m.get_proxies(&String::new());
    assert_eq!(proxies.len(), 1);
    assert_eq!(proxies[0].access_key, live_proxy);
}

#[test]
fn sweep_keeps_session_until_after_its_deadline() {
    let mut m = SessionManager::new();
    let key = open(&mut m, Component::Client, "alice", 0);
    m.kill_expired_sessions(10000);
    assert!(m.get_session(&key, 10000).is_some());
    m.kill_expired_sessions(20001);
    assert!(m.get_session(&key, 20001).is_none());
}

#[test]
fn orphaned_session_leaves_newer_index_entry() {
    let mut m = SessionManager::new();
    let first = open(&mut m, Component::Proxy, "p1", 0);
    let second = open(&mut m, Component::Proxy, "p1", 8000);
    assert_eq!(m.count_proxies(), 1);
    m.kill_expired_sessions(12000);
    assert!(m.get_session(&first, 12000).is_none());
    assert_eq!(m.count_proxies(), 1);
    assert_eq!(m.get_proxies(&String::new())[0].access_key, second);
}

#[test]
fn initialize_calls_set_conversation() {
    let mut r = RouteManager::new();
    let id = r.initialize(&"from".to_string(), &"to".to_string(), 0).unwrap();
    let c = r.get_conversation(&id).unwrap();
    assert_eq!(c.from, "from");
    assert_eq!(c.to, "to");
    assert_eq!(c.routing_id, 1);
    assert!(c.routes.is_empty());
}

#[test]
fn set_conversation_refuses_taken_id() {
    let mut r = RouteManager::new();
    let c = Conversation::new("id".to_string(), "a".to_string(), "b".to_string(), 1);
    assert_eq!(r.set_conversation(c, 0), Some("id".to_string()));
    let again = Conversation::new("id".to_string(), "x".to_string(), "y".to_string(), 1);
    assert_eq!(r.set_conversation(again, 0), None);
    assert_eq!(r.get_conversation(&"id".to_string()).unwrap().from, "a");
}

#[test]
fn store_route_calls_set_route() {
    let mut r = RouteManager::new();
    let id = r.initialize(&"from".to_string(), &"to".to_string(), 0).unwrap();
    let nonce = r.store_route(&id, &settings("127.0.0.1", 8080), false, 0).unwrap();
    assert_eq!(nonce.len(), 36);
    let c = r.get_conversation(&id).unwrap();
    assert_eq!(c.routes.len(), 1);
    assert_eq!(c.routes[0].nonce, nonce);
    assert_eq!(c.routes[0].on_port_number, 8080);
    assert_eq!(c.routes[0].domain_name, "test_domain_name");
    assert!(r.store_route(&"missing".to_string(), &settings("127.0.0.1", 8080), false, 0).is_none());
}

#[test]
fn set_route_refuses_taken_nonce() {
    let mut r = RouteManager::new();
    let id = r.initialize(&"from".to_string(), &"to".to_string(), 0).unwrap();
    let route = |n: &str| Route {
        on_ip_address: "127.0.0.1".to_string(),
        on_port_number: 1,
        public_key: vec![],
        domain_name: String::new(),
        nonce: n.to_string(),
        end_route: false,
    };
    assert_eq!(r.set_route(&id, route("test_nonce"), 0), Some("test_nonce".to_string()));
    assert_eq!(r.set_route(&id, route("test_nonce"), 0), None);
    assert_eq!(r.get_conversation(&id).unwrap().routes.len(), 1);
}

#[test]
fn redeem_route_calls_get_route_and_remove_route() {
    let mut r = RouteManager::new();
    let id = r.initialize(&"from".to_string(), &"to".to_string(), 0).unwrap();
    let nonce = r.store_route(&id, &settings("127.0.0.1", 8080), true, 0).unwrap();
    let route = r.redeem_route(&id, &nonce).unwrap();
    assert_eq!(route.nonce, nonce);
    assert!(route.end_route);
    assert!(r.redeem_route(&id, &nonce).is_none());
}

#[test]
fn redeem_route_avoids_removing_route_when_get_route_returns_none() {
    let mut r = RouteManager::new();
    assert!(r.redeem_route(&"test_conversation_id".to_string(), &"test_nonce".to_string()).is_none());
}

#[test]
fn finalize_removes_conversation() {
    let mut r = RouteManager::new();
    let id = r.initialize(&"from".to_string(), &"to".to_string(), 0).unwrap();
    r.finalize(&id);
    assert!(r.get_conversation(&id).is_none());
}

#[test]
fn route_sweep_removes_lapsed_routes_and_conversations() {
    let mut r = RouteManager::new();
    let id = r.initialize(&"from".to_string(), &"to".to_string(), 0).unwrap();
    let nonce = r.store_route(&id, &settings("127.0.0.1", 8080), false, 30000).unwrap();
    // The conversation lives as long as its route: until 90000.
    r.kill_expired_routes(70000);
    assert!(r.get_conversation(&id).is_some());
    r.kill_expired_routes(90001);
    assert!(r.get_conversation(&id).is_none());
    assert!(r.redeem_route(&id, &nonce).is_none());
}

#[test]
fn check_for_final_route_calls_has_reached_final_route_on_strategy() {
    let mut r = RouteManager::new();
    let id = r.initialize(&"from".to_string(), &"to".to_string(), 0).unwrap();
    assert!(!r.check_for_final_route(&r.get_conversation(&id).unwrap()));
    r.store_route(&id, &settings("127.0.0.1", 1), false, 0).unwrap();
    assert!(!r.check_for_final_route(&r.get_conversation(&id).unwrap()));
    r.store_route(&id, &settings("127.0.0.1", 2), false, 0).unwrap();
    assert!(r.check_for_final_route(&r.get_conversation(&id).unwrap()));
    let unknown = Conversation::new("c".to_string(), "a".to_string(), "b".to_string(), 9);
    assert!(!r.check_for_final_route(&unknown));
}

#[test]
fn get_next_route_calls_get_next_route_on_strategy() {
    let r = RouteManager::new();
    let c = Conversation::new("c".to_string(), "a".to_string(), "b".to_string(), 1);
    assert!(r.get_next_route(&c, &vec![]).is_none());
    let one = vec![session("p1", "k1", Component::Proxy)];
    assert_eq!(r.get_next_route(&c, &one).unwrap().uid, "p1");
    // The last proxy of the list is never drawn.
    let two = vec![session("p1", "k1", Component::Proxy), session("p2", "k2", Component::Proxy)];
    for _ in 0..20 {
        assert_eq!(r.get_next_route(&c, &two).unwrap().uid, "p1");
    }
    let unknown = Conversation::new("c".to_string(), "a".to_string(), "b".to_string(), 9);
    assert!(r.get_next_route(&unknown, &one).is_none());
}

#[test]
fn random_strategy_selects_drawn_index() {
    let s = RouteStrategy::Random;
    let list = vec![session("p1", "k1", Component::Proxy), session("p2", "k2", Component::Proxy)];
    assert_eq!(s.select(&list, Some(1)).unwrap().uid, "p2");
    assert_eq!(s.select(&list, None).unwrap().uid, "p1");
    assert!(s.select(&list, Some(2)).is_none());
    assert!(s.select(&vec![], None).is_none());
    assert_eq!(s.get_id(), 1);
    assert_eq!(s.terminal_hops(), 3);
    assert_eq!(RouteStrategy::from_id(1), Some(RouteStrategy::Random));
    assert_eq!(RouteStrategy::from_id(2), None);
}

#[test]
fn expiration_wrapper_lapses_and_renews() {
    let mut w = ExpirationWrapper::new(5u8, 10000, 1000);
    assert_eq!(w.expires_at, 11000);
    assert!(!w.is_expired(11000));
    assert!(w.is_expired(11001));
    w.renew(20000);
    assert_eq!(w.expires_at, 30000);
    let capped = ExpirationWrapper::new(0u8, 10000, u64::MAX - 5);
    assert_eq!(capped.expires_at, u64::MAX);
}

#[test]
fn default_log_file_name_ends_with_kind() {
    let name = get_default_log_file_name("client");
    assert!(name.ends_with("-client.log"));
    assert!(name.len() > "-client.log".len());
}

#[test]
fn session_to_connection_settings_copies_endpoint() {
    let s = session("u", "k", Component::Client);
    let c = s.to_connection_settings();
    assert_eq!(c.ip, "127.0.0.1");
    assert_eq!(c.port, 8080);
}
