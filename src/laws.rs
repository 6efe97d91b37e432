use vstd::prelude::*;
use crate::models::{deadline, lapsed, Component, RouteView, SessionView};
use crate::routing::{
    after_finalize, after_redeem, after_store, conversation_lookup, redeemed, route_storable,
    RoutesView,
};
use crate::session::{
    after_insert, after_remove, after_renew, consistent, keep_live, lapsed_keys, swept,
    SessionsView,
};

verus! {

/// The session under `k`, if `before` holds one, is still held in `after`
/// with the same uid and kind.
pub open spec fn keeps_identity(before: SessionsView, after: SessionsView, k: Seq<char>) -> bool {
    before.sessions.contains_key(k) ==> {
        &&& after.sessions.contains_key(k)
        &&& after.session(k).uid == before.session(k).uid
        &&& after.session(k).component == before.session(k).component
    }
}

/// A login opens a session under the access key it returns, with the uid and
/// kind it was given.
pub proof fn login_opens_session(v: SessionsView, s: SessionView, now: u64)
    ensures
        after_insert(v, s, now).sessions.contains_key(s.access_key),
        after_insert(v, s, now).session(s.access_key).uid == s.uid,
        after_insert(v, s, now).session(s.access_key).component == s.component,
{
}

/// A lookup keeps every session's uid and kind.
pub proof fn lookup_keeps_identity(v: SessionsView, looked_up: Seq<char>, now: u64, k: Seq<char>)
    ensures
        keeps_identity(v, after_renew(v, looked_up, now), k),
{
}

/// A login under another access key keeps a session's uid and kind.
pub proof fn other_login_keeps_identity(v: SessionsView, s: SessionView, now: u64, k: Seq<char>)
    requires
        s.access_key != k,
    ensures
        keeps_identity(v, after_insert(v, s, now), k),
{
}

/// A logout of another access key keeps a session's uid and kind.
pub proof fn other_logout_keeps_identity(v: SessionsView, gone: Seq<char>, k: Seq<char>)
    requires
        gone != k,
    ensures
        keeps_identity(v, after_remove(v, gone), k),
{
}

/// A sweep at an instant when the session has not lapsed keeps its uid and kind.
pub proof fn live_sweep_keeps_identity(v: SessionsView, now: u64, k: Seq<char>)
    requires
        v.sessions.contains_key(k) ==> !lapsed(v.sessions[k].expires_at, now),
    ensures
        keeps_identity(v, swept(v, now), k),
{
    if v.sessions.contains_key(k) {
        assert(!lapsed_keys(v, now).contains(k));
    }
}

/// Until its key is logged out or it is swept once lapsed, a session that a
/// login opened answers every lookup with the uid and kind it was opened
/// with: along any run of states in which each step keeps its identity, as
/// every other step does, the last state still holds it unchanged.
pub proof fn session_identity_persists(
    states: Seq<SessionsView>,
    k: Seq<char>,
    uid: Seq<char>,
    kind: Component,
)
    requires
        states.len() >= 1,
        states[0].sessions.contains_key(k),
        states[0].session(k).uid == uid,
        states[0].session(k).component == kind,
        forall|i: int| 0 <= i < states.len() - 1 ==> keeps_identity(#[trigger] states[i], states[i + 1], k),
    ensures
        states.last().sessions.contains_key(k),
        states.last().session(k).uid == uid,
        states.last().session(k).component == kind,
    decreases states.len(),
{
    if states.len() > 1 {
        let prefix = states.drop_last();
        assert forall|i: int| 0 <= i < prefix.len() - 1 implies keeps_identity(
            #[trigger] prefix[i],
            prefix[i + 1],
            k,
        ) by {
            assert(prefix[i] == states[i]);
            assert(prefix[i + 1] == states[i + 1]);
        }
        session_identity_persists(prefix, k, uid, kind);
        assert(keeps_identity(states[states.len() - 2], states[states.len() - 1], k));
    }
}

/// A route that was stored is redeemed exactly once: the first redeem of its
/// nonce yields it, and every later redeem yields nothing and changes nothing.
pub proof fn nonce_redeemed_once(v: RoutesView, id: Seq<char>, route: RouteView, now: u64)
    requires
        route_storable(v, id, route),
    ensures
        redeemed(after_store(v, id, route, now), route.nonce) == Some(route),
        redeemed(after_redeem(after_store(v, id, route, now), route.nonce), route.nonce) is None,
        after_redeem(after_redeem(after_store(v, id, route, now), route.nonce), route.nonce)
            == after_redeem(after_store(v, id, route, now), route.nonce),
{
    let w = after_redeem(after_store(v, id, route, now), route.nonce);
    assert(w.routes.remove(route.nonce) =~= w.routes);
}

/// Once a conversation is finalized, looking it up yields nothing.
pub proof fn finalized_conversation_is_absent(v: RoutesView, id: Seq<char>)
    ensures
        conversation_lookup(after_finalize(v, id), id) is None,
{
}

/// After a sweep, no index entry names a session that was swept: every entry
/// names a live session of its uid and kind.
pub proof fn sweep_leaves_no_dangling_index(v: SessionsView, now: u64)
    requires
        consistent(v),
    ensures
        consistent(swept(v, now)),
        forall|c: Component, u: Seq<char>| #[trigger]
            swept(v, now).index(c).contains_key(u) ==> !lapsed(
                v.sessions[swept(v, now).index(c)[u]].expires_at,
                now,
            ),
{
    let w = swept(v, now);
    let gone = lapsed_keys(v, now);
    assert forall|c: Component, u: Seq<char>| #[trigger] w.index(c).contains_key(u) implies {
        let k = w.index(c)[u];
        &&& w.sessions.contains_key(k)
        &&& w.sessions[k].value.uid == u
        &&& w.sessions[k].value.component == c
        &&& !lapsed(v.sessions[k].expires_at, now)
    } by {
        assert(w.index(c) == keep_live(v.index(c), gone));
        assert(v.index(c).contains_key(u));
        let k = v.index(c)[u];
        assert(!gone.contains(k));
    }
}

/// A session looked up at `t` survives every sweep up to its renewed
/// deadline: lookups closer together than its lifetime keep it live.
pub proof fn renewed_session_survives_sweep(v: SessionsView, k: Seq<char>, t: u64, s: u64)
    requires
        v.sessions.contains_key(k),
        s <= deadline(t, v.sessions[k].expiration_time),
    ensures
        after_renew(v, k, t).sessions[k].expires_at == deadline(t, v.sessions[k].expiration_time),
        swept(after_renew(v, k, t), s).sessions.contains_key(k),
        swept(after_renew(v, k, t), s).session(k) == v.session(k),
{
    let w = after_renew(v, k, t);
    assert(!lapsed_keys(w, s).contains(k));
}

/// A sweep after a session's deadline removes it, so a later lookup of its
/// key finds nothing.
pub proof fn lapsed_session_is_swept(v: SessionsView, k: Seq<char>, s: u64)
    requires
        v.sessions.contains_key(k),
        lapsed(v.sessions[k].expires_at, s),
    ensures
        !swept(v, s).sessions.contains_key(k),
{
    assert(lapsed_keys(v, s).contains(k));
}

} // verus!
