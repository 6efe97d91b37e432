use vstd::prelude::*;
use crate::membership::MemberManager;
use crate::models::{component_of_code, Component, Conversation, MemberView, SessionInfo, SessionView};
use crate::routing::{
    after_finalize, after_redeem, after_store, conversation_lookup, redeemed, route_to,
    strategy_of, RouteManager, RoutesView, RANDOM_TERMINAL_HOPS,
};
use crate::table::unlapsed;
use crate::session::{opened_session, after_insert, after_remove, after_renew, swept, SessionManager, SessionsView};

verus! {

/// The uid a conversation is addressed to when it is addressed to the
/// Controller itself.
pub const CONTROLLER_UID: &'static str = "controller_uid";

/// The status class under which an error reaches the caller.
#[derive(Clone, Copy, PartialEq, Eq, Debug, Structural)]
pub enum Code {
    Unauthenticated,
    InvalidArgument,
    NotFound,
    Internal,
}

/// Why a service request was refused.
#[derive(Clone, Copy, PartialEq, Eq, Debug, Structural)]
pub enum ServiceError {
    /// The caller's peer address is unknown.
    NoPeerAddress,
    /// No session holds the access key.
    InvalidAccessKey,
    /// The session was opened from another peer address.
    InvalidConnection,
    /// The uid is empty.
    EmptyCredentials,
    /// The component kind is unknown, or is Controller.
    InvalidComponentType,
    /// No member has this uid and secret.
    InvalidCredentials,
    /// No conversation has this id.
    InvalidConversation,
    /// Every hop of the conversation has been chosen.
    RouteComplete,
    /// The terminal hop is due but its Client has no session.
    NoClientFound,
    /// No Proxy other than the caller has a session.
    NoProxiesFound,
    /// The strategy picked no next hop.
    NextRouteNotFound,
    /// The route could not be stored.
    RouteNotStored,
    /// The conversation could not be opened.
    ConversationNotInitialized,
    /// No fresh access key could be drawn for the session.
    SessionNotOpened,
    /// No route holds the nonce.
    RedeemFailed,
}

impl ServiceError {
    /// The status class of this error.
    pub fn code(&self) -> (r: Code)
        ensures
            r == error_code(*self),
    {
        match self {
            ServiceError::NoPeerAddress => Code::Internal,
            ServiceError::InvalidAccessKey => Code::Unauthenticated,
            ServiceError::InvalidConnection => Code::Unauthenticated,
            ServiceError::EmptyCredentials => Code::InvalidArgument,
            ServiceError::InvalidComponentType => Code::InvalidArgument,
            ServiceError::InvalidCredentials => Code::Unauthenticated,
            ServiceError::InvalidConversation => Code::NotFound,
            ServiceError::RouteComplete => Code::NotFound,
            ServiceError::NoClientFound => Code::NotFound,
            ServiceError::NoProxiesFound => Code::NotFound,
            ServiceError::NextRouteNotFound => Code::NotFound,
            ServiceError::RouteNotStored => Code::Internal,
            ServiceError::ConversationNotInitialized => Code::Internal,
            ServiceError::SessionNotOpened => Code::Internal,
            ServiceError::RedeemFailed => Code::Internal,
        }
    }

    /// The message that accompanies this error.
    pub fn message(&self) -> (r: String)
        ensures
            r@ == error_message(*self),
    {
        match self {
            ServiceError::NoPeerAddress => String::from_str("Could not get client IP address"),
            ServiceError::InvalidAccessKey => String::from_str("Invalid access key"),
            ServiceError::InvalidConnection => String::from_str("Invalid connection"),
            ServiceError::EmptyCredentials => String::from_str("UID and PWD cannot be empty"),
            ServiceError::InvalidComponentType => String::from_str("Invalid component type"),
            ServiceError::InvalidCredentials => String::from_str("Invalid credentials"),
            ServiceError::InvalidConversation => String::from_str("Invalid conversation"),
            ServiceError::RouteComplete => String::from_str("Every hop of the conversation is chosen"),
            ServiceError::NoClientFound => String::from_str(
                "Reached final route, no more routes available as no client found",
            ),
            ServiceError::NoProxiesFound => String::from_str("No proxies found"),
            ServiceError::NextRouteNotFound => String::from_str(
                "Next route wasn't found, no more routes available",
            ),
            ServiceError::RouteNotStored => String::from_str("Failed to store route"),
            ServiceError::ConversationNotInitialized => String::from_str(
                "Failed to initialize conversation",
            ),
            ServiceError::SessionNotOpened => String::from_str("Failed to open session"),
            ServiceError::RedeemFailed => String::from_str("Failed to redeem route"),
        }
    }
}

/// The status class of each error.
pub open spec fn error_code(e: ServiceError) -> Code {
    match e {
        ServiceError::NoPeerAddress => Code::Internal,
        ServiceError::InvalidAccessKey => Code::Unauthenticated,
        ServiceError::InvalidConnection => Code::Unauthenticated,
        ServiceError::EmptyCredentials => Code::InvalidArgument,
        ServiceError::InvalidComponentType => Code::InvalidArgument,
        ServiceError::InvalidCredentials => Code::Unauthenticated,
        ServiceError::InvalidConversation => Code::NotFound,
        ServiceError::RouteComplete => Code::NotFound,
        ServiceError::NoClientFound => Code::NotFound,
        ServiceError::NoProxiesFound => Code::NotFound,
        ServiceError::NextRouteNotFound => Code::NotFound,
        ServiceError::RouteNotStored => Code::Internal,
        ServiceError::ConversationNotInitialized => Code::Internal,
        ServiceError::SessionNotOpened => Code::Internal,
        ServiceError::RedeemFailed => Code::Internal,
    }
}

/// The message of each error.
pub open spec fn error_message(e: ServiceError) -> Seq<char> {
    match e {
        ServiceError::NoPeerAddress => "Could not get client IP address"@,
        ServiceError::InvalidAccessKey => "Invalid access key"@,
        ServiceError::InvalidConnection => "Invalid connection"@,
        ServiceError::EmptyCredentials => "UID and PWD cannot be empty"@,
        ServiceError::InvalidComponentType => "Invalid component type"@,
        ServiceError::InvalidCredentials => "Invalid credentials"@,
        ServiceError::InvalidConversation => "Invalid conversation"@,
        ServiceError::RouteComplete => "Every hop of the conversation is chosen"@,
        ServiceError::NoClientFound => "Reached final route, no more routes available as no client found"@,
        ServiceError::NoProxiesFound => "No proxies found"@,
        ServiceError::NextRouteNotFound => "Next route wasn't found, no more routes available"@,
        ServiceError::RouteNotStored => "Failed to store route"@,
        ServiceError::ConversationNotInitialized => "Failed to initialize conversation"@,
        ServiceError::SessionNotOpened => "Failed to open session"@,
        ServiceError::RedeemFailed => "Failed to redeem route"@,
    }
}

/// Answer to a successful login.
pub struct LoginResponse {
    pub access_key: String,
    pub message: String,
}

/// Answer to a successful ping.
pub struct PingResponse {
    pub status: String,
    pub timestamp: i64,
}

/// The next hop handed to the caller.
pub struct RouteResponse {
    pub ip_address: String,
    pub port_number: u32,
    pub public_key: Vec<u8>,
    pub domain_name: String,
    pub nonce: String,
    pub end_route: bool,
}

/// Answer to a successful redeem: the sender, when the terminal hop was redeemed.
pub struct RedeemResponse {
    pub source_info: Option<String>,
}

/// Answer to a status request.
pub struct StatusResponse {
    pub version: String,
    pub connected_clients: u32,
    pub connected_proxies: u32,
    pub connected_controllers: u32,
}

/// The state of the Controller: its sessions, conversations and members.
pub struct ControllerView {
    pub sessions: SessionsView,
    pub routes: RoutesView,
    pub members: Map<Seq<char>, MemberView>,
    pub version: Seq<char>,
}

/// Every conversation has at most as many hops as a complete one, and only
/// its last possible hop, the terminal one, is marked as the end.
pub open spec fn hops_well_shaped(v: RoutesView) -> bool {
    forall|id: Seq<char>| #[trigger]
        v.conversations.contains_key(id) ==> {
            let hops = v.conversations[id].value.routes;
            &&& hops.len() <= RANDOM_TERMINAL_HOPS
            &&& forall|i: int|
                0 <= i < hops.len() ==> (#[trigger] hops[i].end_route <==> i
                    == RANDOM_TERMINAL_HOPS - 1)
        }
}

/// The characters of an optional text.
pub open spec fn text_view(t: Option<String>) -> Option<Seq<char>> {
    match t {
        Some(s) => Some(s@),
        None => None,
    }
}

/// Why a login is refused, if it is.
pub open spec fn login_refusal(
    members: Map<Seq<char>, MemberView>,
    component_type: i32,
    uid: Seq<char>,
    pwd: Seq<char>,
    peer_address: Option<Seq<char>>,
) -> Option<ServiceError> {
    if peer_address is None {
        Some(ServiceError::NoPeerAddress)
    } else if uid.len() == 0 {
        Some(ServiceError::EmptyCredentials)
    } else if component_of_code(component_type as i64) is None || component_of_code(
        component_type as i64,
    ) == Some(Component::Controller) {
        Some(ServiceError::InvalidComponentType)
    } else if !(members.contains_key(uid) && members[uid].pwd == pwd) {
        Some(ServiceError::InvalidCredentials)
    } else {
        None
    }
}

/// Why a ping is refused, if it is.
pub open spec fn ping_refusal(
    v: SessionsView,
    access_key: Seq<char>,
    peer_address: Option<Seq<char>>,
) -> Option<ServiceError> {
    if peer_address is None {
        Some(ServiceError::NoPeerAddress)
    } else if !v.sessions.contains_key(access_key) {
        Some(ServiceError::InvalidAccessKey)
    } else if v.session(access_key).peer_address != peer_address->0 {
        Some(ServiceError::InvalidConnection)
    } else {
        None
    }
}

/// Why a route request is refused before any hop is drawn, if it is.
pub open spec fn route_refusal(v: ControllerView, access_key: Seq<char>, id: Seq<char>) -> Option<ServiceError> {
    if !v.sessions.sessions.contains_key(access_key) {
        Some(ServiceError::InvalidAccessKey)
    } else if !v.routes.conversations.contains_key(id) {
        Some(ServiceError::InvalidConversation)
    } else {
        let c = v.routes.conversations[id].value;
        if c.routes.len() >= RANDOM_TERMINAL_HOPS {
            Some(ServiceError::RouteComplete)
        } else if terminal_due(c.routing_id, c.routes.len()) {
            if !v.sessions.clients.contains_key(c.to) {
                Some(ServiceError::NoClientFound)
            } else {
                None
            }
        } else if !has_other_proxy(v.sessions, access_key) {
            Some(ServiceError::NoProxiesFound)
        } else if strategy_of(c.routing_id) is None {
            Some(ServiceError::NextRouteNotFound)
        } else {
            None
        }
    }
}

/// Whether the next hop of a conversation with `n` hops is its terminal one.
pub open spec fn terminal_due(routing_id: u8, n: nat) -> bool {
    strategy_of(routing_id) is Some && n + 1 == RANDOM_TERMINAL_HOPS
}

/// Some Proxy other than the one under `access_key` is indexed.
pub open spec fn has_other_proxy(v: SessionsView, access_key: Seq<char>) -> bool {
    exists|u: Seq<char>| #[trigger] v.proxies.contains_key(u) && v.proxies[u] != access_key
}

/// `s` is a live, indexed Proxy session other than the caller's.
pub open spec fn eligible_proxy(v: SessionsView, access_key: Seq<char>, s: SessionView) -> bool {
    &&& v.proxies.contains_key(s.uid)
    &&& v.proxies[s.uid] == s.access_key
    &&& s.access_key != access_key
    &&& v.sessions.contains_key(s.access_key)
    &&& v.session(s.access_key) == s
    &&& s.component == Component::Proxy
}

/// `r` hands out the advertised endpoint of session `s`.
pub open spec fn points_to(r: RouteResponse, s: SessionView) -> bool {
    &&& r.ip_address@ == s.on_ip_address
    &&& r.port_number == s.on_port_number as u32
    &&& r.public_key@ == s.public_key
    &&& r.domain_name@ == s.domain_name
}

/// The route that a response describes.
pub open spec fn response_route(r: RouteResponse) -> crate::models::RouteView {
    crate::models::RouteView {
        on_ip_address: r.ip_address@,
        on_port_number: r.port_number as u16,
        public_key: r.public_key@,
        domain_name: r.domain_name@,
        nonce: r.nonce@,
        end_route: r.end_route,
    }
}

/// The session opened by a login.
pub open spec fn login_session(
    access_key: Seq<char>,
    component_type: i32,
    uid: Seq<char>,
    peer_address: Seq<char>,
    on_ip: Seq<char>,
    on_port: u32,
    public_key: Seq<u8>,
    domain_name: Seq<char>,
) -> SessionView {
    SessionView {
        access_key,
        uid,
        peer_address,
        component: component_of_code(component_type as i64)->0,
        on_ip_address: on_ip,
        on_port_number: on_port as u16,
        public_key,
        domain_name,
    }
}

/// The count reported for `n` sessions: zero when it does not fit.
pub open spec fn reported_count(n: nat) -> u32 {
    if n <= u32::MAX {
        n as u32
    } else {
        0
    }
}

/// The uid a conversation requested with `to` is addressed to.
pub open spec fn addressee(to: Seq<char>) -> Seq<char> {
    if to.len() == 0 {
        "controller_uid"@
    } else {
        to
    }
}

/// The count reported for `n` sessions: zero when it does not fit.
pub fn report(n: usize) -> (r: u32)
    ensures
        r == reported_count(n as nat),
{
    if n <= u32::MAX as usize {
        n as u32
    } else {
        0
    }
}

/// Why a redeem request is refused, if it is.
pub open spec fn redeem_refusal(
    v: ControllerView,
    access_key: Seq<char>,
    id: Seq<char>,
    nonce: Seq<char>,
) -> Option<ServiceError> {
    if !v.sessions.sessions.contains_key(access_key) {
        Some(ServiceError::InvalidAccessKey)
    } else if !v.routes.conversations.contains_key(id) {
        Some(ServiceError::InvalidConversation)
    } else if redeemed(v.routes, nonce) is None {
        Some(ServiceError::RedeemFailed)
    } else {
        None
    }
}

/// The routes after a successful redeem of `nonce` in conversation `id`: the
/// route is gone, and so is the conversation when the route was its terminal hop.
pub open spec fn after_redeem_request(v: RoutesView, id: Seq<char>, nonce: Seq<char>) -> RoutesView {
    if v.routes[nonce].value.end_route {
        after_finalize(after_redeem(v, nonce), id)
    } else {
        after_redeem(v, nonce)
    }
}

/// The sender reported by a successful redeem: the conversation's origin
/// when the terminal hop was redeemed.
pub open spec fn redeem_source(v: RoutesView, id: Seq<char>, nonce: Seq<char>) -> Option<Seq<char>> {
    if v.routes[nonce].value.end_route {
        Some(v.conversations[id].value.from)
    } else {
        None
    }
}

/// Whether `resp` can be stored as a hop of conversation `id`.
pub open spec fn route_storable_resp(v: RoutesView, id: Seq<char>, resp: RouteResponse) -> bool {
    crate::routing::route_storable(v, id, response_route(resp))
}

/// `resp` is a hop that a route request may hand out: the terminal Client's
/// endpoint when the terminal hop is due, otherwise the endpoint of a live
/// Proxy other than the caller, under a nonce no live route holds.
pub open spec fn route_granted(v: ControllerView, access_key: Seq<char>, id: Seq<char>, resp: RouteResponse) -> bool {
    let c = v.routes.conversations[id].value;
    &&& resp.end_route == terminal_due(c.routing_id, c.routes.len())
    &&& resp.end_route ==> points_to(resp, v.sessions.session(v.sessions.clients[c.to]))
        && v.sessions.session(v.sessions.clients[c.to]).component == Component::Client
    &&& !resp.end_route ==> exists|s: SessionView| #[trigger]
        eligible_proxy(v.sessions, access_key, s) && points_to(resp, s)
    &&& route_storable_resp(v.routes, id, resp)
}

/// The Controller core: authenticated entry points over sessions, routes and
/// members.
pub struct Controller {
    session_manager: SessionManager,
    route_manager: RouteManager,
    member_manager: MemberManager,
    version: String,
}

impl View for Controller {
    type V = ControllerView;

    closed spec fn view(&self) -> ControllerView {
        ControllerView {
            sessions: self.session_manager@,
            routes: self.route_manager@,
            members: self.member_manager@,
            version: self.version@,
        }
    }
}

impl Controller {
    /// The Controller is well formed: its parts are, and its conversations are
    /// well shaped.
    pub closed spec fn wf(&self) -> bool {
        &&& self.session_manager.wf()
        &&& self.route_manager.wf()
        &&& self.member_manager.wf()
        &&& hops_well_shaped(self.route_manager@)
    }

    /// A Controller with the given members and no sessions or conversations.
    pub fn new(member_manager: MemberManager, version: String) -> (r: Controller)
        requires
            member_manager.wf(),
        ensures
            r.wf(),
            r@.members == member_manager@,
            r@.sessions.sessions.is_empty(),
            r@.sessions.clients.is_empty(),
            r@.sessions.proxies.is_empty(),
            r@.sessions.controllers.is_empty(),
            r@.routes.conversations.is_empty(),
            r@.routes.routes.is_empty(),
            r@.version == version@,
    {
        Controller {
            session_manager: SessionManager::new(),
            route_manager: RouteManager::new(),
            member_manager,
            version,
        }
    }

    /// Whether `uid` and `pwd` are the credentials of a member.
    fn validate_credentials(&self, uid: &String, pwd: &String) -> (r: bool)
        requires
            self.wf(),
        ensures
            r == (self@.members.contains_key(uid@) && self@.members[uid@].pwd == pwd@),
    {
        match self.member_manager.get_member(uid) {
            Some(m) => m.pwd == *pwd,
            None => false,
        }
    }

    /// Admits a Client or Proxy whose uid and secret match a member, opening a
    /// session bound to its peer address and advertised endpoint.
    pub fn login(
        &mut self,
        component_type: i32,
        uid: &String,
        pwd: &String,
        peer_address: Option<String>,
        on_ip: String,
        on_port: u32,
        public_key: Vec<u8>,
        domain_name: String,
        now: u64,
    ) -> (r: Result<LoginResponse, ServiceError>)
        requires
            old(self).wf(),
        ensures
            final(self).wf(),
            login_refusal(
                old(self)@.members,
                component_type,
                uid@,
                pwd@,
                text_view(peer_address),
            ) matches Some(e) ==> r == Err::<LoginResponse, ServiceError>(e),
            r matches Err(e) ==> final(self)@ == old(self)@ && (Some(e) == login_refusal(
                old(self)@.members,
                component_type,
                uid@,
                pwd@,
                text_view(peer_address),
            ) || (e == ServiceError::SessionNotOpened && exists|k: Seq<char>| #[trigger]
                old(self)@.sessions.sessions.contains_key(k))),
            r matches Ok(resp) ==> login_refusal(
                old(self)@.members,
                component_type,
                uid@,
                pwd@,
                text_view(peer_address),
            ) is None && resp.message@ == "Login successful"@ && resp.access_key@.len() == 36
                && !old(self)@.sessions.sessions.contains_key(resp.access_key@)
                && final(self)@.routes == old(self)@.routes && final(self)@.members
                == old(self)@.members && final(self)@.version == old(self)@.version
                && final(self)@.sessions == after_insert(
                old(self)@.sessions,
                login_session(
                    resp.access_key@,
                    component_type,
                    uid@,
                    peer_address->0@,
                    on_ip@,
                    on_port,
                    public_key@,
                    domain_name@,
                ),
                now,
            ),
    {
        let peer = match peer_address {
            Some(p) => p,
            None => {
                return Err(ServiceError::NoPeerAddress);
            },
        };
        if uid.as_str().is_empty() {
            return Err(ServiceError::EmptyCredentials);
        }
        let component = match Component::from_code(component_type) {
            Some(c) => c,
            None => {
                return Err(ServiceError::InvalidComponentType);
            },
        };
        if component == Component::Controller {
            return Err(ServiceError::InvalidComponentType);
        }
        if !self.validate_credentials(uid, pwd) {
            return Err(ServiceError::InvalidCredentials);
        }
        let ghost before = self@;
        match self.session_manager.set_session(
            component,
            uid,
            peer,
            on_ip,
            #[verifier::truncate]
            (on_port as u16),
            public_key,
            domain_name,
            now,
        ) {
            Some(access_key) => Ok(
                LoginResponse { access_key, message: String::from_str("Login successful") },
            ),
            None => {
                proof {
                    let k = choose|k: Seq<char>| #[trigger] before.sessions.sessions.contains_key(k);
                    assert(before.sessions.sessions.contains_key(k));
                }
                Err(ServiceError::SessionNotOpened)
            },
        }
    }

    /// Opens a session of kind Controller for this Controller itself, under
    /// uid `uid`, seen from `peer_address` and reachable at the advertised
    /// endpoint; it is kept alive by looking it up. `None`, with nothing
    /// changed, when no fresh access key could be drawn.
    pub fn open_controller_session(
        &mut self,
        uid: &String,
        peer_address: String,
        on_ip: String,
        on_port: u16,
        public_key: Vec<u8>,
        domain_name: String,
        now: u64,
    ) -> (r: Option<String>)
        requires
            old(self).wf(),
        ensures
            final(self).wf(),
            final(self)@.routes == old(self)@.routes,
            final(self)@.members == old(self)@.members,
            final(self)@.version == old(self)@.version,
            r matches Some(k) ==> k@.len() == 36 && !old(self)@.sessions.sessions.contains_key(k@)
                && final(self)@.sessions == after_insert(
                old(self)@.sessions,
                opened_session(
                    k@,
                    uid@,
                    peer_address@,
                    Component::Controller,
                    on_ip@,
                    on_port,
                    public_key@,
                    domain_name@,
                ),
                now,
            ),
            r is None ==> final(self)@ == old(self)@ && exists|k: Seq<char>| #[trigger]
                old(self)@.sessions.sessions.contains_key(k),
    {
        let ghost before = self@;
        let r = self.session_manager.set_session(
            Component::Controller,
            uid,
            peer_address,
            on_ip,
            on_port,
            public_key,
            domain_name,
            now,
        );
        proof {
            if r is None {
                let k = choose|k: Seq<char>| #[trigger] before.sessions.sessions.contains_key(k);
                assert(before.sessions.sessions.contains_key(k));
            }
        }
        r
    }

    /// The session under `access_key`, renewed at `now`; refused when there is none.
    pub fn check_session(&mut self, access_key: &String, now: u64) -> (r: Result<SessionInfo, ServiceError>)
        requires
            old(self).wf(),
        ensures
            final(self).wf(),
            final(self)@ == (ControllerView {
                sessions: after_renew(old(self)@.sessions, access_key@, now),
                ..old(self)@
            }),
            r is Ok <==> old(self)@.sessions.sessions.contains_key(access_key@),
            r matches Ok(s) ==> s@ == old(self)@.sessions.session(access_key@),
            r matches Err(e) ==> e == ServiceError::InvalidAccessKey,
    {
        match self.session_manager.get_session(access_key, now) {
            Some(s) => Ok(s),
            None => Err(ServiceError::InvalidAccessKey),
        }
    }

    /// Refuses a conversation id that names no conversation.
    pub fn check_conversation(&self, conversation_id: &String) -> (r: Result<(), ServiceError>)
        requires
            self.wf(),
        ensures
            r is Ok <==> self@.routes.conversations.contains_key(conversation_id@),
            r matches Err(e) ==> e == ServiceError::InvalidConversation,
    {
        match self.route_manager.get_conversation(conversation_id) {
            Some(_) => Ok(()),
            None => Err(ServiceError::InvalidConversation),
        }
    }

    /// Confirms that the session under `access_key` is live and was opened
    /// from `peer_address`, renewing it at `now`; the answer carries `timestamp`.
    pub fn ping(
        &mut self,
        access_key: &String,
        peer_address: Option<String>,
        now: u64,
        timestamp: i64,
    ) -> (r: Result<PingResponse, ServiceError>)
        requires
            old(self).wf(),
        ensures
            final(self).wf(),
            r is Err <==> ping_refusal(old(self)@.sessions, access_key@, text_view(peer_address)) is Some,
            r matches Err(e) ==> Some(e) == ping_refusal(
                old(self)@.sessions,
                access_key@,
                text_view(peer_address),
            ),
            r matches Ok(p) ==> p.status@ == "PONG"@ && p.timestamp == timestamp,
            peer_address is None ==> final(self)@ == old(self)@,
            peer_address is Some ==> final(self)@ == (ControllerView {
                sessions: after_renew(old(self)@.sessions, access_key@, now),
                ..old(self)@
            }),
    {
        let peer = match peer_address {
            Some(p) => p,
            None => {
                return Err(ServiceError::NoPeerAddress);
            },
        };
        let session = match self.check_session(access_key, now) {
            Ok(s) => s,
            Err(e) => {
                return Err(e);
            },
        };
        if !(session.peer_address == peer) {
            return Err(ServiceError::InvalidConnection);
        }
        Ok(PingResponse { status: String::from_str("PONG"), timestamp })
    }

    /// Closes the session under `access_key`.
    pub fn logout(&mut self, access_key: &String) -> (r: Result<(), ServiceError>)
        requires
            old(self).wf(),
        ensures
            final(self).wf(),
            r is Ok <==> old(self)@.sessions.sessions.contains_key(access_key@),
            r matches Err(e) ==> e == ServiceError::InvalidAccessKey,
            final(self)@ == (ControllerView {
                sessions: after_remove(old(self)@.sessions, access_key@),
                ..old(self)@
            }),
    {
        if !self.session_manager.has_session(access_key) {
            return Err(ServiceError::InvalidAccessKey);
        }
        self.session_manager.remove_session(access_key);
        Ok(())
    }

    /// The version and the number of indexed sessions of each kind, for a
    /// caller with a live session, renewed at `now`.
    pub fn status(&mut self, access_key: &String, now: u64) -> (r: Result<StatusResponse, ServiceError>)
        requires
            old(self).wf(),
        ensures
            final(self).wf(),
            final(self)@ == (ControllerView {
                sessions: after_renew(old(self)@.sessions, access_key@, now),
                ..old(self)@
            }),
            r is Ok <==> old(self)@.sessions.sessions.contains_key(access_key@),
            r matches Err(e) ==> e == ServiceError::InvalidAccessKey,
            r matches Ok(st) ==> st.version@ == old(self)@.version && st.connected_clients
                == reported_count(old(self)@.sessions.clients.len()) && st.connected_proxies
                == reported_count(old(self)@.sessions.proxies.len()) && st.connected_controllers
                == reported_count(old(self)@.sessions.controllers.len()),
    {
        match self.check_session(access_key, now) {
            Ok(_) => {},
            Err(e) => {
                return Err(e);
            },
        }
        let proxies = self.session_manager.count_proxies();
        let clients = self.session_manager.count_clients();
        let controllers = self.session_manager.count_controllers();
        Ok(
            StatusResponse {
                version: self.version.clone(),
                connected_clients: report(clients),
                connected_proxies: report(proxies),
                connected_controllers: report(controllers),
            },
        )
    }

    /// Opens a conversation from the caller to `to`, or to the Controller
    /// itself when `to` is empty; the caller's session is renewed at `now`.
    pub fn init_conversation(&mut self, access_key: &String, to: &String, now: u64) -> (r: Result<String, ServiceError>)
        requires
            old(self).wf(),
        ensures
            final(self).wf(),
            final(self)@.sessions == after_renew(old(self)@.sessions, access_key@, now),
            final(self)@.members == old(self)@.members,
            final(self)@.version == old(self)@.version,
            !old(self)@.sessions.sessions.contains_key(access_key@) ==> r == Err::<
                String,
                ServiceError,
            >(ServiceError::InvalidAccessKey),
            r matches Err(e) ==> final(self)@.routes == old(self)@.routes && (e
                == ServiceError::InvalidAccessKey || e == ServiceError::ConversationNotInitialized),
            r == Err::<String, ServiceError>(ServiceError::InvalidAccessKey)
                <==> !old(self)@.sessions.sessions.contains_key(access_key@),
            r == Err::<String, ServiceError>(ServiceError::ConversationNotInitialized) ==> exists|
                k: Seq<char>,
            | #[trigger] old(self)@.routes.conversations.contains_key(k),
            r matches Ok(id) ==> old(self)@.sessions.sessions.contains_key(access_key@)
                && !old(self)@.routes.conversations.contains_key(id@) && final(self)@.routes
                == crate::routing::after_open(
                old(self)@.routes,
                crate::routing::opened_conversation(
                    id@,
                    old(self)@.sessions.session(access_key@).uid,
                    addressee(to@),
                ),
                now,
            ),
    {
        let session = match self.check_session(access_key, now) {
            Ok(s) => s,
            Err(e) => {
                return Err(e);
            },
        };
        let target = if to.as_str().is_empty() {
            String::from_str(CONTROLLER_UID)
        } else {
            to.clone()
        };
        proof {
            reveal_strlit("controller_uid");
        }
        let ghost before = self.route_manager@;
        match self.route_manager.initialize(&session.uid, &target, now) {
            Some(id) => {
                proof {
                    assert forall|c: Seq<char>| #[trigger]
                        self.route_manager@.conversations.contains_key(c) implies {
                        let hops = self.route_manager@.conversations[c].value.routes;
                        &&& hops.len() <= RANDOM_TERMINAL_HOPS
                        &&& forall|i: int|
                            0 <= i < hops.len() ==> (#[trigger] hops[i].end_route <==> i
                                == RANDOM_TERMINAL_HOPS - 1)
                    } by {
                        if c != id@ {
                            assert(before.conversations.contains_key(c));
                        }
                    }
                }
                Ok(id)
            },
            None => Err(ServiceError::ConversationNotInitialized),
        }
    }

    /// Stores a route to the endpoint of `session` for conversation `conversation_id`.
    fn handle_route(
        &mut self,
        conversation_id: &String,
        session: &SessionInfo,
        end_route: bool,
        now: u64,
    ) -> (r: Result<RouteResponse, ServiceError>)
        requires
            old(self).wf(),
            old(self)@.routes.conversations.contains_key(conversation_id@),
            ({
                let hops = old(self)@.routes.conversations[conversation_id@].value.routes;
                &&& hops.len() < RANDOM_TERMINAL_HOPS
                &&& end_route <==> hops.len() == RANDOM_TERMINAL_HOPS - 1
            }),
        ensures
            final(self).wf(),
            final(self)@.sessions == old(self)@.sessions,
            final(self)@.members == old(self)@.members,
            final(self)@.version == old(self)@.version,
            r matches Err(e) ==> e == ServiceError::RouteNotStored && final(self)@.routes
                == old(self)@.routes && exists|n: Seq<char>| #[trigger]
                old(self)@.routes.routes.contains_key(n),
            r matches Ok(resp) ==> resp.nonce@.len() == 36,
            r matches Ok(resp) ==> points_to(resp, session@) && resp.end_route == end_route
                && route_storable_resp(old(self)@.routes, conversation_id@, resp)
                && final(self)@.routes == after_store(
                old(self)@.routes,
                conversation_id@,
                response_route(resp),
                now,
            ),
    {
        let settings = session.to_connection_settings();
        let ghost before = self.route_manager@;
        match self.route_manager.store_route(conversation_id, &settings, end_route, now) {
            Some(nonce) => {
                let resp = RouteResponse {
                    ip_address: session.on_ip_address.clone(),
                    port_number: session.on_port_number as u32,
                    public_key: session.public_key.clone(),
                    domain_name: session.domain_name.clone(),
                    nonce,
                    end_route,
                };
                proof {
                    assert(route_to(settings, resp.nonce@, end_route) == response_route(resp));
                    assert forall|c: Seq<char>| #[trigger]
                        self.route_manager@.conversations.contains_key(c) implies {
                        let hops = self.route_manager@.conversations[c].value.routes;
                        &&& hops.len() <= RANDOM_TERMINAL_HOPS
                        &&& forall|i: int|
                            0 <= i < hops.len() ==> (#[trigger] hops[i].end_route <==> i
                                == RANDOM_TERMINAL_HOPS - 1)
                    } by {
                        assert(before.conversations.contains_key(c));
                        if c == conversation_id@ {
                            let old_hops = before.conversations[c].value.routes;
                            let hops = self.route_manager@.conversations[c].value.routes;
                            assert forall|i: int| 0 <= i < hops.len() implies (
                            #[trigger] hops[i].end_route <==> i == RANDOM_TERMINAL_HOPS - 1) by {
                                if i < old_hops.len() {
                                    assert(hops[i] == old_hops[i]);
                                }
                            }
                        }
                    }
                }
                Ok(resp)
            },
            None => Err(ServiceError::RouteNotStored),
        }
    }

    /// Chooses and stores the next hop of conversation `conversation_id` for
    /// the caller: the terminal Client once the intermediate hops are chosen,
    /// otherwise a Proxy other than the caller picked by the conversation's
    /// strategy. The caller's session is renewed at `now`.
    pub fn route(&mut self, access_key: &String, conversation_id: &String, now: u64) -> (r: Result<RouteResponse, ServiceError>)
        requires
            old(self).wf(),
        ensures
            final(self).wf(),
            final(self)@.sessions == after_renew(old(self)@.sessions, access_key@, now),
            final(self)@.members == old(self)@.members,
            final(self)@.version == old(self)@.version,
            route_refusal(old(self)@, access_key@, conversation_id@) matches Some(e) ==> r == Err::<
                RouteResponse,
                ServiceError,
            >(e),
            r matches Err(e) ==> final(self)@.routes == old(self)@.routes && (Some(e)
                == route_refusal(old(self)@, access_key@, conversation_id@) || (e
                == ServiceError::RouteNotStored && exists|n: Seq<char>| #[trigger]
                old(self)@.routes.routes.contains_key(n))),
            r matches Ok(resp) ==> resp.nonce@.len() == 36,
            r matches Ok(resp) ==> route_refusal(old(self)@, access_key@, conversation_id@) is None
                && route_granted(old(self)@, access_key@, conversation_id@, resp)
                && final(self)@.routes == after_store(
                old(self)@.routes,
                conversation_id@,
                response_route(resp),
                now,
            ),
    {
        let ghost before = self@;
        match self.check_session(access_key, now) {
            Ok(_) => {},
            Err(e) => {
                return Err(e);
            },
        }
        let conversation = match self.route_manager.get_conversation(conversation_id) {
            Some(c) => c,
            None => {
                return Err(ServiceError::InvalidConversation);
            },
        };
        if conversation.routes.len() >= RANDOM_TERMINAL_HOPS {
            return Err(ServiceError::RouteComplete);
        }
        if self.route_manager.check_for_final_route(&conversation) {
            return match self.session_manager.get_client(&conversation.to) {
                Some(client) => {
                    proof {
                        self.session_manager.lemma_consistent();
                        assert(self@.sessions.index(Component::Client).contains_key(
                            conversation@.to,
                        ));
                    }
                    self.handle_route(conversation_id, &client, true, now)
                },
                None => Err(ServiceError::NoClientFound),
            };
        }
        let proxies = self.session_manager.get_proxies(access_key);
        let ghost listed = proxies@.map_values(|s: SessionInfo| s@);
        proof {
            if has_other_proxy(before.sessions, access_key@) {
                let u = choose|u: Seq<char>| #[trigger]
                    before.sessions.proxies.contains_key(u) && before.sessions.proxies[u]
                        != access_key@;
                assert(self@.sessions.proxies.contains_key(u));
                let j = choose|j: int| 0 <= j < listed.len() && listed[j].uid == u;
            }
            if listed.len() > 0 {
                assert(self@.sessions.proxies.contains_key(listed[0].uid));
                assert(before.sessions.proxies.contains_key(listed[0].uid));
            }
        }
        if proxies.len() == 0 {
            return Err(ServiceError::NoProxiesFound);
        }
        match self.route_manager.get_next_route(&conversation, &proxies) {
            Some(p) => {
                proof {
                    let i = choose|i: int|
                        crate::routing::random_candidate(proxies@.len() as int, i) && p@
                            == proxies@[i]@;
                    assert(listed[i] == proxies@[i]@);
                    self.session_manager.lemma_consistent();
                    assert(self@.sessions.index(Component::Proxy).contains_key(p@.uid));
                    assert(eligible_proxy(before.sessions, access_key@, p@));
                }
                self.handle_route(conversation_id, &p, false, now)
            },
            None => Err(ServiceError::NextRouteNotFound),
        }
    }

    /// Redeems the route under `nonce` in conversation `conversation_id`; when
    /// it was the terminal hop, reports the sender and finalizes the
    /// conversation. The caller's session is renewed at `now`.
    pub fn redeem(&mut self, access_key: &String, conversation_id: &String, nonce: &String, now: u64) -> (r: Result<RedeemResponse, ServiceError>)
        requires
            old(self).wf(),
        ensures
            final(self).wf(),
            final(self)@.sessions == after_renew(old(self)@.sessions, access_key@, now),
            final(self)@.members == old(self)@.members,
            final(self)@.version == old(self)@.version,
            r is Err <==> redeem_refusal(old(self)@, access_key@, conversation_id@, nonce@) is Some,
            r matches Err(e) ==> Some(e) == redeem_refusal(
                old(self)@,
                access_key@,
                conversation_id@,
                nonce@,
            ) && final(self)@.routes == old(self)@.routes,
            r matches Ok(resp) ==> text_view(resp.source_info) == redeem_source(
                old(self)@.routes,
                conversation_id@,
                nonce@,
            ) && final(self)@.routes == after_redeem_request(
                old(self)@.routes,
                conversation_id@,
                nonce@,
            ),
    {
        match self.check_session(access_key, now) {
            Ok(_) => {},
            Err(e) => {
                return Err(e);
            },
        }
        match self.check_conversation(conversation_id) {
            Ok(()) => {},
            Err(e) => {
                return Err(e);
            },
        }
        let ghost before = self.route_manager@;
        match self.route_manager.redeem_route(conversation_id, nonce) {
            Some(route) => {
                proof {
                    assert(self.route_manager@.conversations == before.conversations);
                }
                if route.end_route {
                    let from = match self.route_manager.get_conversation(conversation_id) {
                        Some(c) => Some(c.from),
                        None => None,
                    };
                    let ghost mid = self.route_manager@;
                    self.route_manager.finalize(conversation_id);
                    proof {
                        assert forall|c: Seq<char>| #[trigger]
                            self.route_manager@.conversations.contains_key(c) implies {
                            let hops = self.route_manager@.conversations[c].value.routes;
                            &&& hops.len() <= RANDOM_TERMINAL_HOPS
                            &&& forall|i: int|
                                0 <= i < hops.len() ==> (#[trigger] hops[i].end_route <==> i
                                    == RANDOM_TERMINAL_HOPS - 1)
                        } by {
                            assert(mid.conversations.contains_key(c));
                        }
                    }
                    Ok(RedeemResponse { source_info: from })
                } else {
                    Ok(RedeemResponse { source_info: None })
                }
            },
            None => {
                proof {
                    assert(before.routes.remove(nonce@) =~= before.routes);
                }
                Err(ServiceError::RedeemFailed)
            },
        }
    }

    /// The conversation under `conversation_id`, if any.
    pub fn get_conversation(&self, conversation_id: &String) -> (r: Option<Conversation>)
        requires
            self.wf(),
        ensures
            r is Some <==> conversation_lookup(self@.routes, conversation_id@) is Some,
            r matches Some(c) ==> Some(c@) == conversation_lookup(self@.routes, conversation_id@),
    {
        self.route_manager.get_conversation(conversation_id)
    }

    /// One pass of the session sweeper at `now`.
    pub fn kill_expired_sessions(&mut self, now: u64)
        requires
            old(self).wf(),
        ensures
            final(self).wf(),
            final(self)@ == (ControllerView { sessions: swept(old(self)@.sessions, now), ..old(self)@ }),
    {
        self.session_manager.kill_expired_sessions(now);
    }

    /// One pass of the route sweeper at `now`.
    pub fn kill_expired_routes(&mut self, now: u64)
        requires
            old(self).wf(),
        ensures
            final(self).wf(),
            final(self)@ == (ControllerView {
                routes: RoutesView {
                    conversations: unlapsed(old(self)@.routes.conversations, now),
                    routes: unlapsed(old(self)@.routes.routes, now),
                },
                ..old(self)@
            }),
    {
        let ghost before = self.route_manager@;
        self.route_manager.kill_expired_routes(now);
        proof {
            assert forall|c: Seq<char>| #[trigger]
                self.route_manager@.conversations.contains_key(c) implies {
                let hops = self.route_manager@.conversations[c].value.routes;
                &&& hops.len() <= RANDOM_TERMINAL_HOPS
                &&& forall|i: int|
                    0 <= i < hops.len() ==> (#[trigger] hops[i].end_route <==> i
                        == RANDOM_TERMINAL_HOPS - 1)
            } by {
                assert(before.conversations.contains_key(c));
            }
        }
    }

    /// Every conversation of a well-formed Controller has at most as many hops
    /// as a complete one, and only the terminal hop is marked as the end.
    pub proof fn conversations_well_shaped(&self)
        requires
            self.wf(),
        ensures
            hops_well_shaped(self@.routes),
    {
    }

    /// No index entry of a well-formed Controller dangles: each names a live
    /// session of its uid and kind.
    pub proof fn index_never_dangles(&self)
        requires
            self.wf(),
        ensures
            crate::session::consistent(self@.sessions),
    {
        self.session_manager.lemma_consistent();
    }
}

} // verus!
