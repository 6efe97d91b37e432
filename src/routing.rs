use vstd::prelude::*;
use crate::ids::{choose_below, random_uuid_simple_text, random_uuid_text};
use crate::models::{
    deadline, ConnectionSettings, Conversation, ConversationView, ExpirationWrapper, ExpiringView,
    Route, RouteView, SessionInfo, SessionView,
};
use crate::table::{unlapsed, Table};

verus! {

/// Lifetime of a route, in milliseconds.
pub const ROUTES_EXPIRATION_TIME: u64 = 60000;

/// Lifetime of a conversation, in milliseconds.
pub const CONVERSATIONS_EXPIRATION_TIME: u64 = 60000;

/// Identifier of the random routing strategy.
pub const RANDOM_STRATEGY_ID: u8 = 1;

/// Number of hops of a complete conversation under the random strategy:
/// two intermediate Proxies and the terminal Client.
pub const RANDOM_TERMINAL_HOPS: usize = 3;

/// A routing strategy, recovered from the identifier a conversation carries.
#[derive(Clone, Copy, PartialEq, Eq, Debug, Structural)]
pub enum RouteStrategy {
    /// Picks each intermediate hop at random among the candidate Proxies.
    Random,
}

/// The strategy with identifier `id`, if any.
pub open spec fn strategy_of(id: u8) -> Option<RouteStrategy> {
    if id == RANDOM_STRATEGY_ID {
        Some(RouteStrategy::Random)
    } else {
        None
    }
}

/// The candidates among `n` Proxies that the random strategy draws from: all
/// indexes below `n - 1`, the last Proxy being left out, and index 0 when
/// that range is empty.
pub open spec fn random_candidate(n: int, i: int) -> bool {
    if n > 1 {
        0 <= i < n - 1
    } else {
        i == 0
    }
}

/// What the random strategy selects among `proxies` given the index that was
/// drawn from its candidate range, or `None` when the range was empty.
pub open spec fn random_selection(proxies: Seq<SessionView>, drawn: Option<usize>) -> Option<SessionView> {
    let i: int = match drawn {
        Some(i) => i as int,
        None => 0,
    };
    if 0 <= i < proxies.len() {
        Some(proxies[i])
    } else {
        None
    }
}

impl RouteStrategy {
    /// The strategy with identifier `id`, if any.
    pub fn from_id(id: u8) -> (r: Option<RouteStrategy>)
        ensures
            r == strategy_of(id),
    {
        if id == RANDOM_STRATEGY_ID {
            Some(RouteStrategy::Random)
        } else {
            None
        }
    }

    /// The identifier embedded in the conversations that use this strategy.
    pub fn get_id(&self) -> (r: u8)
        ensures
            strategy_of(r) == Some(*self),
    {
        match self {
            RouteStrategy::Random => RANDOM_STRATEGY_ID,
        }
    }

    /// The number of hops of a complete conversation.
    pub fn terminal_hops(&self) -> (r: usize)
        ensures
            r == RANDOM_TERMINAL_HOPS,
    {
        match self {
            RouteStrategy::Random => RANDOM_TERMINAL_HOPS,
        }
    }

    /// Whether the next hop of `conversation` is its terminal one.
    pub fn has_reached_final_route(&self, conversation: &Conversation) -> (r: bool)
        ensures
            r == (conversation@.routes.len() + 1 == RANDOM_TERMINAL_HOPS),
    {
        match self {
            RouteStrategy::Random => conversation.routes.len() == RANDOM_TERMINAL_HOPS - 1,
        }
    }

    /// Selects the next intermediate hop among `proxies`, given the index that
    /// was drawn from the candidate range.
    pub fn select(&self, proxies: &Vec<SessionInfo>, drawn: Option<usize>) -> (r: Option<SessionInfo>)
        ensures
            r is Some <==> random_selection(proxies@.map_values(|s: SessionInfo| s@), drawn) is Some,
            r matches Some(s) ==> Some(s@) == random_selection(
                proxies@.map_values(|s: SessionInfo| s@),
                drawn,
            ),
    {
        let i = match drawn {
            Some(i) => i,
            None => 0,
        };
        if i < proxies.len() {
            Some(proxies[i].duplicate())
        } else {
            None
        }
    }

    /// Picks the next intermediate hop among `proxies`; `None` when there is
    /// none to pick.
    pub fn get_next_route(&self, proxies: &Vec<SessionInfo>) -> (r: Option<SessionInfo>)
        ensures
            r is None <==> proxies@.len() == 0,
            r matches Some(s) ==> exists|i: int|
                random_candidate(proxies@.len() as int, i) && s@ == proxies@[i]@,
    {
        if proxies.len() == 0 {
            return None;
        }
        let drawn = choose_below(proxies.len() - 1);
        let r = self.select(proxies, drawn);
        proof {
            let i: int = match drawn {
                Some(i) => i as int,
                None => 0,
            };
            assert(random_candidate(proxies@.len() as int, i));
        }
        r
    }
}

/// A conversation from `from` to `to` under `id`, with no hops yet.
pub open spec fn opened_conversation(id: Seq<char>, from: Seq<char>, to: Seq<char>) -> ConversationView {
    ConversationView { id, from, to, routing_id: RANDOM_STRATEGY_ID, routes: Seq::empty() }
}

/// The state after conversation `c` is stored at `now`.
pub open spec fn after_open(v: RoutesView, c: ConversationView, now: u64) -> RoutesView {
    RoutesView { conversations: v.conversations.insert(c.id, fresh_conversation(c, now)), ..v }
}

/// The hop to the endpoint of `cs` under `nonce`.
pub open spec fn route_to(cs: ConnectionSettings, nonce: Seq<char>, end_route: bool) -> RouteView {
    RouteView {
        on_ip_address: cs.ip@,
        on_port_number: cs.port,
        public_key: cs.certificate@,
        domain_name: cs.domain_name@,
        nonce,
        end_route,
    }
}

/// The conversations, each under its id, and the routes, each under its nonce.
pub struct RoutesView {
    pub conversations: Map<Seq<char>, ExpiringView<ConversationView>>,
    pub routes: Map<Seq<char>, ExpiringView<RouteView>>,
}

/// The record of a conversation just created at `now`.
pub open spec fn fresh_conversation(c: ConversationView, now: u64) -> ExpiringView<ConversationView> {
    ExpiringView {
        value: c,
        expires_at: deadline(now, CONVERSATIONS_EXPIRATION_TIME),
        expiration_time: CONVERSATIONS_EXPIRATION_TIME,
    }
}

/// The record of a route stored at `now`.
pub open spec fn fresh_route(r: RouteView, now: u64) -> ExpiringView<RouteView> {
    ExpiringView {
        value: r,
        expires_at: deadline(now, ROUTES_EXPIRATION_TIME),
        expiration_time: ROUTES_EXPIRATION_TIME,
    }
}

/// Whether `route` can be stored for conversation `id`: the conversation
/// exists and no live route holds the same nonce.
pub open spec fn route_storable(v: RoutesView, id: Seq<char>, route: RouteView) -> bool {
    v.conversations.contains_key(id) && !v.routes.contains_key(route.nonce)
}

/// The state after `route` is stored at `now` for conversation `id`: the
/// route sits under its nonce, is appended to the conversation's hops, and
/// the conversation lives at least as long as the route.
pub open spec fn after_store(v: RoutesView, id: Seq<char>, route: RouteView, now: u64) -> RoutesView {
    let c = v.conversations[id];
    let rexp = deadline(now, ROUTES_EXPIRATION_TIME);
    RoutesView {
        conversations: v.conversations.insert(
            id,
            ExpiringView {
                value: ConversationView { routes: c.value.routes.push(route), ..c.value },
                expires_at: if c.expires_at < rexp { rexp } else { c.expires_at },
                expiration_time: c.expiration_time,
            },
        ),
        routes: v.routes.insert(route.nonce, fresh_route(route, now)),
    }
}

/// What redeeming `nonce` yields: the route stored under it, if any.
pub open spec fn redeemed(v: RoutesView, nonce: Seq<char>) -> Option<RouteView> {
    if v.routes.contains_key(nonce) {
        Some(v.routes[nonce].value)
    } else {
        None
    }
}

/// The state after `nonce` is redeemed: its route is gone.
pub open spec fn after_redeem(v: RoutesView, nonce: Seq<char>) -> RoutesView {
    RoutesView { routes: v.routes.remove(nonce), ..v }
}

/// The state after conversation `id` is finalized.
pub open spec fn after_finalize(v: RoutesView, id: Seq<char>) -> RoutesView {
    RoutesView { conversations: v.conversations.remove(id), ..v }
}

/// What a lookup of conversation `id` yields.
pub open spec fn conversation_lookup(v: RoutesView, id: Seq<char>) -> Option<ConversationView> {
    if v.conversations.contains_key(id) {
        Some(v.conversations[id].value)
    } else {
        None
    }
}

/// Every conversation sits under its own id and every route under its own nonce.
pub open spec fn routes_consistent(v: RoutesView) -> bool {
    &&& forall|k: Seq<char>| #[trigger]
        v.conversations.contains_key(k) ==> v.conversations[k].value.id == k
    &&& forall|k: Seq<char>| #[trigger] v.routes.contains_key(k) ==> v.routes[k].value.nonce == k
}

proof fn lemma_consistent_conversations(
    v: RoutesView,
    w: RoutesView,
)
    requires
        routes_consistent(v),
        w.routes == v.routes,
        forall|k: Seq<char>| #[trigger]
            w.conversations.contains_key(k) ==> v.conversations.contains_key(k)
                || w.conversations[k].value.id == k,
        forall|k: Seq<char>| #[trigger]
            w.conversations.contains_key(k) && v.conversations.contains_key(k)
                ==> w.conversations[k].value.id == v.conversations[k].value.id,
    ensures
        routes_consistent(w),
{
}

proof fn lemma_consistent_routes(v: RoutesView, w: RoutesView)
    requires
        routes_consistent(v),
        w.conversations == v.conversations,
        forall|k: Seq<char>| #[trigger]
            w.routes.contains_key(k) ==> v.routes.contains_key(k) && w.routes[k] == v.routes[k],
    ensures
        routes_consistent(w),
{
}

/// Owns conversations and their hops, and mints and redeems single-use nonces.
pub struct RouteManager {
    conversations: Table<ExpirationWrapper<Conversation>>,
    routes: Table<ExpirationWrapper<Route>>,
}

impl View for RouteManager {
    type V = RoutesView;

    closed spec fn view(&self) -> RoutesView {
        RoutesView { conversations: self.conversations@, routes: self.routes@ }
    }
}

impl RouteManager {
    /// The manager is well formed.
    pub closed spec fn wf(&self) -> bool {
        &&& self.conversations.wf()
        &&& self.routes.wf()
        &&& routes_consistent(self@)
    }

    /// A manager with no conversations and no routes.
    pub fn new() -> (r: RouteManager)
        ensures
            r.wf(),
            r@.conversations.is_empty(),
            r@.routes.is_empty(),
    {
        RouteManager { conversations: Table::new(), routes: Table::new() }
    }

    /// The strategy for a conversation between `from` and `to`.
    pub fn get_routing_id(&self, from: &String, to: &String) -> (r: u8)
        ensures
            r == RANDOM_STRATEGY_ID,
    {
        RouteStrategy::Random.get_id()
    }

    /// Stores `conversation` at `now` and returns its id; `None`, with nothing
    /// changed, when a conversation with that id exists already.
    pub fn set_conversation(&mut self, conversation: Conversation, now: u64) -> (r: Option<String>)
        requires
            old(self).wf(),
        ensures
            final(self).wf(),
            r is None <==> old(self)@.conversations.contains_key(conversation@.id),
            r matches Some(id) ==> id@ == conversation@.id && final(self)@ == after_open(
                old(self)@,
                conversation@,
                now,
            ),
            r is None ==> final(self)@ == old(self)@,
    {
        let id = conversation.id.clone();
        if self.conversations.get(&id).is_some() {
            return None;
        }
        let ghost before = self@;
        self.conversations.insert(
            id.clone(),
            ExpirationWrapper::new(conversation, CONVERSATIONS_EXPIRATION_TIME, now),
        );
        proof {
            lemma_consistent_conversations(before, self@);
        }
        Some(id)
    }

    /// Opens a conversation from `from` to `to` under a fresh random id;
    /// `None`, with nothing changed, when that id is taken.
    pub fn initialize(&mut self, from: &String, to: &String, now: u64) -> (r: Option<String>)
        requires
            old(self).wf(),
        ensures
            final(self).wf(),
            r is None ==> final(self)@ == old(self)@,
            r is None ==> exists|k: Seq<char>| #[trigger] old(self)@.conversations.contains_key(k),
            r matches Some(id) ==> !old(self)@.conversations.contains_key(id@) && final(self)@
                == after_open(old(self)@, opened_conversation(id@, from@, to@), now),
    {
        let id = random_uuid_simple_text();
        let routing_id = self.get_routing_id(from, to);
        let conversation = Conversation::new(id, from.clone(), to.clone(), routing_id);
        proof {
            assert(conversation@.routes =~= Seq::<RouteView>::empty());
        }
        self.set_conversation(conversation, now)
    }

    /// Removes conversation `conversation_id`.
    pub fn finalize(&mut self, conversation_id: &String)
        requires
            old(self).wf(),
        ensures
            final(self).wf(),
            final(self)@ == after_finalize(old(self)@, conversation_id@),
    {
        let ghost before = self@;
        self.conversations.remove(conversation_id);
        proof {
            lemma_consistent_conversations(before, self@);
        }
    }

    /// The conversation under `conversation_id`, if any.
    pub fn get_conversation(&self, conversation_id: &String) -> (r: Option<Conversation>)
        requires
            self.wf(),
        ensures
            r is Some <==> conversation_lookup(self@, conversation_id@) is Some,
            r matches Some(c) ==> Some(c@) == conversation_lookup(self@, conversation_id@),
    {
        match self.conversations.get(conversation_id) {
            Some(w) => Some(w.value.duplicate()),
            None => None,
        }
    }

    /// Stores `route` at `now` for conversation `conversation_id` and returns
    /// its nonce; `None`, with nothing changed, when it cannot be stored.
    pub fn set_route(&mut self, conversation_id: &String, route: Route, now: u64) -> (r: Option<String>)
        requires
            old(self).wf(),
        ensures
            final(self).wf(),
            r is Some <==> route_storable(old(self)@, conversation_id@, route@),
            r matches Some(n) ==> n@ == route@.nonce && final(self)@ == after_store(
                old(self)@,
                conversation_id@,
                route@,
                now,
            ),
            r is None ==> final(self)@ == old(self)@,
    {
        let nonce = route.nonce.clone();
        if self.routes.get(&nonce).is_some() {
            return None;
        }
        let found = self.lookup(conversation_id);
        match found {
            Some(w) => {
                let mut w = w;
                let stored = ExpirationWrapper::new(route.duplicate(), ROUTES_EXPIRATION_TIME, now);
                if w.expires_at < stored.expires_at {
                    w.expires_at = stored.expires_at;
                }
                let ghost hops = w.value@.routes;
                w.value.routes.push(route);
                proof {
                    assert(w.value@.routes =~= hops.push(stored.value@));
                }
                let ghost before = self@;
                assert(w.value@.id == conversation_id@);
                self.conversations.insert(conversation_id.clone(), w);
                let ghost mid = self@;
                proof {
                    lemma_consistent_conversations(before, mid);
                }
                self.routes.insert(nonce.clone(), stored);
                proof {
                    assert forall|k: Seq<char>| #[trigger]
                        self@.routes.contains_key(k) implies self@.routes[k].value.nonce == k by {
                        if k != nonce@ {
                            assert(mid.routes.contains_key(k));
                        }
                    }
                }
                Some(nonce)
            },
            None => None,
        }
    }

    fn lookup(&self, conversation_id: &String) -> (r: Option<ExpirationWrapper<Conversation>>)
        requires
            self.wf(),
        ensures
            r is Some <==> self@.conversations.contains_key(conversation_id@),
            r matches Some(w) ==> w@ == self@.conversations[conversation_id@],
    {
        match self.conversations.get(conversation_id) {
            Some(w) => Some(
                ExpirationWrapper {
                    value: w.value.duplicate(),
                    expires_at: w.expires_at,
                    expiration_time: w.expiration_time,
                },
            ),
            None => None,
        }
    }

    /// Mints a fresh nonce and stores a route to `connection_settings` for
    /// conversation `conversation_id` at `now`; `None`, with nothing changed,
    /// when the conversation is unknown or the nonce is taken.
    pub fn store_route(
        &mut self,
        conversation_id: &String,
        connection_settings: &ConnectionSettings,
        end_route: bool,
        now: u64,
    ) -> (r: Option<String>)
        requires
            old(self).wf(),
        ensures
            final(self).wf(),
            r is None ==> final(self)@ == old(self)@,
            r matches Some(n) ==> route_storable(
                old(self)@,
                conversation_id@,
                route_to(*connection_settings, n@, end_route),
            ) && final(self)@ == after_store(
                old(self)@,
                conversation_id@,
                route_to(*connection_settings, n@, end_route),
                now,
            ),
            !old(self)@.conversations.contains_key(conversation_id@) ==> r is None,
            r matches Some(n) ==> n@.len() == 36,
            r is None ==> !old(self)@.conversations.contains_key(conversation_id@) || exists|
                n: Seq<char>,
            | #[trigger] old(self)@.routes.contains_key(n),
    {
        let route = Route {
            on_ip_address: connection_settings.ip.clone(),
            on_port_number: connection_settings.port,
            public_key: connection_settings.certificate.clone(),
            domain_name: connection_settings.domain_name.clone(),
            nonce: random_uuid_text(),
            end_route,
        };
        self.set_route(conversation_id, route, now)
    }

    /// Takes out the route under `nonce`: a route is redeemed at most once.
    pub fn redeem_route(&mut self, conversation_id: &String, nonce: &String) -> (r: Option<Route>)
        requires
            old(self).wf(),
        ensures
            final(self).wf(),
            r is Some <==> redeemed(old(self)@, nonce@) is Some,
            r matches Some(route) ==> Some(route@) == redeemed(old(self)@, nonce@),
            final(self)@ == after_redeem(old(self)@, nonce@),
    {
        let ghost before = self@;
        let r = self.routes.remove(nonce);
        proof {
            lemma_consistent_routes(before, self@);
        }
        match r {
            Some(w) => Some(w.value),
            None => None,
        }
    }

    /// The next intermediate hop of `conversation` among `proxies`, as its
    /// strategy picks it; `None` when there is none or the strategy is unknown.
    pub fn get_next_route(&self, conversation: &Conversation, proxies: &Vec<SessionInfo>) -> (r: Option<SessionInfo>)
        ensures
            strategy_of(conversation.routing_id) is None ==> r is None,
            strategy_of(conversation.routing_id) is Some ==> (r is None <==> proxies@.len() == 0),
            r matches Some(s) ==> exists|i: int|
                random_candidate(proxies@.len() as int, i) && s@ == proxies@[i]@,
    {
        match RouteStrategy::from_id(conversation.routing_id) {
            Some(strategy) => strategy.get_next_route(proxies),
            None => None,
        }
    }

    /// Whether the next hop of `conversation` is its terminal one; false when
    /// its strategy is unknown.
    pub fn check_for_final_route(&self, conversation: &Conversation) -> (r: bool)
        ensures
            r == (strategy_of(conversation.routing_id) is Some && conversation@.routes.len() + 1
                == RANDOM_TERMINAL_HOPS),
    {
        match RouteStrategy::from_id(conversation.routing_id) {
            Some(strategy) => strategy.has_reached_final_route(conversation),
            None => false,
        }
    }

    /// One pass of the route sweeper: removes every route and every
    /// conversation that has lapsed at `now`.
    pub fn kill_expired_routes(&mut self, now: u64)
        requires
            old(self).wf(),
        ensures
            final(self).wf(),
            final(self)@ == (RoutesView {
                conversations: unlapsed(old(self)@.conversations, now),
                routes: unlapsed(old(self)@.routes, now),
            }),
    {
        let ghost before = self@;
        self.routes.remove_lapsed(now);
        self.conversations.remove_lapsed(now);
        proof {
            assert forall|k: Seq<char>| #[trigger] self@.routes.contains_key(k) implies self@.routes[k].value.nonce == k by {
                assert(before.routes.contains_key(k));
            }
            assert forall|k: Seq<char>| #[trigger] self@.conversations.contains_key(k) implies self@.conversations[k].value.id == k by {
                assert(before.conversations.contains_key(k));
            }
        }
    }
}

} // verus!
