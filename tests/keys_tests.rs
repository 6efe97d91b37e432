use onion_controller::keys::{
    get_conversation_key, get_member_session_key, get_routes_key, get_session_key,
};
use onion_controller::models::Component;

#[test]
fn store_keys_carry_their_prefix() {
    assert_eq!(get_conversation_key("abc"), "cs:abc");
    assert_eq!(get_routes_key("abc"), "rs:abc");
    assert_eq!(get_session_key("k"), "ss:k");
    assert_eq!(get_member_session_key(&Component::Client, "alice"), "c_ss:alice");
    assert_eq!(get_member_session_key(&Component::Proxy, "*"), "p_ss:*");
    assert_eq!(get_member_session_key(&Component::Controller, "c1"), "ctrl_ss:c1");
}
