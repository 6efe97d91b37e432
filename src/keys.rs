use vstd::prelude::*;
use vstd::string::StringExecFns;
use crate::models::Component;

verus! {

/// The key prefix of the session index of each component kind.
pub open spec fn index_prefix(c: Component) -> Seq<char> {
    match c {
        Component::Controller => "ctrl_ss"@,
        Component::Client => "c_ss"@,
        Component::Proxy => "p_ss"@,
    }
}

fn prefixed(prefix: &str, id: &str) -> (r: String)
    ensures
        r@ == prefix@ + ":"@ + id@,
{
    String::from_str(prefix).concat(":").concat(id)
}

/// The key of a conversation in a key-value store.
pub fn get_conversation_key(conversation_id: &str) -> (r: String)
    ensures
        r@ == "cs"@ + ":"@ + conversation_id@,
{
    prefixed("cs", conversation_id)
}

/// The key of a conversation's routes in a key-value store.
pub fn get_routes_key(conversation_id: &str) -> (r: String)
    ensures
        r@ == "rs"@ + ":"@ + conversation_id@,
{
    prefixed("rs", conversation_id)
}

/// The key of a session in a key-value store.
pub fn get_session_key(key: &str) -> (r: String)
    ensures
        r@ == "ss"@ + ":"@ + key@,
{
    prefixed("ss", key)
}

/// The key of the index entry of `uid` among the sessions of kind
/// `component_type` in a key-value store.
pub fn get_member_session_key(component_type: &Component, uid: &str) -> (r: String)
    ensures
        r@ == index_prefix(*component_type) + ":"@ + uid@,
{
    let prefix = match component_type {
        Component::Controller => "ctrl_ss",
        Component::Client => "c_ss",
        Component::Proxy => "p_ss",
    };
    prefixed(prefix, uid)
}

} // verus!
