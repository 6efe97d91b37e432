use vstd::prelude::*;

verus! {

/// The kind of principal that holds a session.
#[derive(Clone, Copy, PartialEq, Eq, Debug, Structural)]
pub enum Component {
    Controller,
    Proxy,
    Client,
}

/// The wire code of each component kind.
pub open spec fn component_code(c: Component) -> u8 {
    match c {
        Component::Controller => 0,
        Component::Proxy => 1,
        Component::Client => 2,
    }
}

/// The component kind that a wire code names, if any.
pub open spec fn component_of_code(v: i64) -> Option<Component> {
    if v == 0 {
        Some(Component::Controller)
    } else if v == 1 {
        Some(Component::Proxy)
    } else if v == 2 {
        Some(Component::Client)
    } else {
        None
    }
}

impl Component {
    /// The component kind with wire code `v`; `None` for any other value.
    pub fn from_code(v: i32) -> (r: Option<Component>)
        ensures
            r == component_of_code(v as i64),
    {
        if v == 0 {
            Some(Component::Controller)
        } else if v == 1 {
            Some(Component::Proxy)
        } else if v == 2 {
            Some(Component::Client)
        } else {
            None
        }
    }

    /// The wire code of this kind.
    pub fn code(&self) -> (r: u8)
        ensures
            r == component_code(*self),
    {
        match self {
            Component::Controller => 0,
            Component::Proxy => 1,
            Component::Client => 2,
        }
    }

    /// The kind's name as it appears in logs.
    pub fn name(&self) -> (r: String)
        ensures
            *self == Component::Controller ==> r@ == "Controller"@,
            *self == Component::Proxy ==> r@ == "Proxy"@,
            *self == Component::Client ==> r@ == "Client"@,
    {
        match self {
            Component::Controller => String::from_str("Controller"),
            Component::Proxy => String::from_str("Proxy"),
            Component::Client => String::from_str("Client"),
        }
    }
}

/// Where a component can be reached, and the certificate that identifies it.
pub struct ConnectionSettings {
    pub ip: String,
    pub port: u16,
    pub domain_name: String,
    pub certificate: Vec<u8>,
}

/// Credential material of a principal.
pub struct Credentials {
    pub uid: String,
    pub pwd: String,
}

/// A principal permitted to authenticate.
pub struct Member {
    pub uid: String,
    pub pwd: String,
}

pub struct MemberView {
    pub uid: Seq<char>,
    pub pwd: Seq<char>,
}

impl View for Member {
    type V = MemberView;

    open spec fn view(&self) -> MemberView {
        MemberView { uid: self.uid@, pwd: self.pwd@ }
    }
}

impl Member {
    pub fn new(uid: String, pwd: String) -> (r: Member)
        ensures
            r.uid == uid,
            r.pwd == pwd,
    {
        Member { uid, pwd }
    }

    /// A copy with the same contents.
    pub fn duplicate(&self) -> (r: Member)
        ensures
            r@ == self@,
    {
        Member { uid: self.uid.clone(), pwd: self.pwd.clone() }
    }
}

/// The authenticated presence of a principal.
pub struct SessionInfo {
    pub access_key: String,
    pub uid: String,
    /// The address the session was opened from, in its textual form.
    pub peer_address: String,
    pub component: Component,
    pub on_ip_address: String,
    pub on_port_number: u16,
    pub public_key: Vec<u8>,
    pub domain_name: String,
}

pub struct SessionView {
    pub access_key: Seq<char>,
    pub uid: Seq<char>,
    pub peer_address: Seq<char>,
    pub component: Component,
    pub on_ip_address: Seq<char>,
    pub on_port_number: u16,
    pub public_key: Seq<u8>,
    pub domain_name: Seq<char>,
}

impl View for SessionInfo {
    type V = SessionView;

    open spec fn view(&self) -> SessionView {
        SessionView {
            access_key: self.access_key@,
            uid: self.uid@,
            peer_address: self.peer_address@,
            component: self.component,
            on_ip_address: self.on_ip_address@,
            on_port_number: self.on_port_number,
            public_key: self.public_key@,
            domain_name: self.domain_name@,
        }
    }
}

impl SessionInfo {
    /// A copy with the same contents.
    pub fn duplicate(&self) -> (r: SessionInfo)
        ensures
            r@ == self@,
    {
        SessionInfo {
            access_key: self.access_key.clone(),
            uid: self.uid.clone(),
            peer_address: self.peer_address.clone(),
            component: self.component,
            on_ip_address: self.on_ip_address.clone(),
            on_port_number: self.on_port_number,
            public_key: self.public_key.clone(),
            domain_name: self.domain_name.clone(),
        }
    }

    /// The endpoint that this session advertised.
    pub fn to_connection_settings(&self) -> (r: ConnectionSettings)
        ensures
            r.ip@ == self.on_ip_address@,
            r.port == self.on_port_number,
            r.domain_name@ == self.domain_name@,
            r.certificate@ == self.public_key@,
    {
        ConnectionSettings {
            ip: self.on_ip_address.clone(),
            port: self.on_port_number,
            domain_name: self.domain_name.clone(),
            certificate: self.public_key.clone(),
        }
    }
}

/// One hop of a conversation: where to forward, under which single-use nonce.
pub struct Route {
    pub on_ip_address: String,
    pub on_port_number: u16,
    pub public_key: Vec<u8>,
    pub domain_name: String,
    pub nonce: String,
    pub end_route: bool,
}

pub struct RouteView {
    pub on_ip_address: Seq<char>,
    pub on_port_number: u16,
    pub public_key: Seq<u8>,
    pub domain_name: Seq<char>,
    pub nonce: Seq<char>,
    pub end_route: bool,
}

impl View for Route {
    type V = RouteView;

    open spec fn view(&self) -> RouteView {
        RouteView {
            on_ip_address: self.on_ip_address@,
            on_port_number: self.on_port_number,
            public_key: self.public_key@,
            domain_name: self.domain_name@,
            nonce: self.nonce@,
            end_route: self.end_route,
        }
    }
}

impl Route {
    /// A copy with the same contents.
    pub fn duplicate(&self) -> (r: Route)
        ensures
            r@ == self@,
    {
        Route {
            on_ip_address: self.on_ip_address.clone(),
            on_port_number: self.on_port_number,
            public_key: self.public_key.clone(),
            domain_name: self.domain_name.clone(),
            nonce: self.nonce.clone(),
            end_route: self.end_route,
        }
    }
}

/// A multi-hop transmission and the hops chosen for it so far.
pub struct Conversation {
    pub id: String,
    pub from: String,
    pub to: String,
    pub routing_id: u8,
    pub routes: Vec<Route>,
}

pub struct ConversationView {
    pub id: Seq<char>,
    pub from: Seq<char>,
    pub to: Seq<char>,
    pub routing_id: u8,
    pub routes: Seq<RouteView>,
}

impl View for Conversation {
    type V = ConversationView;

    open spec fn view(&self) -> ConversationView {
        ConversationView {
            id: self.id@,
            from: self.from@,
            to: self.to@,
            routing_id: self.routing_id,
            routes: self.routes@.map_values(|r: Route| r@),
        }
    }
}

impl Conversation {
    /// A conversation with no hops yet.
    pub fn new(id: String, from: String, to: String, routing_id: u8) -> (r: Conversation)
        ensures
            r.id == id,
            r.from == from,
            r.to == to,
            r.routing_id == routing_id,
            r@.routes.len() == 0,
    {
        Conversation { id, from, to, routing_id, routes: Vec::new() }
    }

    /// A copy with the same contents.
    pub fn duplicate(&self) -> (r: Conversation)
        ensures
            r@ == self@,
    {
        let mut routes: Vec<Route> = Vec::new();
        let mut i: usize = 0;
        while i < self.routes.len()
            invariant
                i <= self.routes@.len(),
                routes@.len() == i,
                forall|j: int| 0 <= j < i ==> #[trigger] routes@[j]@ == self.routes@[j]@,
            decreases self.routes@.len() - i,
        {
            routes.push(self.routes[i].duplicate());
            i = i + 1;
        }
        assert(routes@.map_values(|r: Route| r@) =~= self.routes@.map_values(|r: Route| r@));
        Conversation {
            id: self.id.clone(),
            from: self.from.clone(),
            to: self.to.clone(),
            routing_id: self.routing_id,
            routes,
        }
    }
}

/// The instant, in milliseconds, that lies `ttl` after `now`, capped at the
/// largest representable instant.
pub open spec fn deadline(now: u64, ttl: u64) -> u64 {
    if now + ttl > u64::MAX {
        u64::MAX
    } else {
        (now + ttl) as u64
    }
}

/// A value that lapses at `expires_at` unless renewed.
pub struct ExpirationWrapper<T> {
    pub value: T,
    pub expires_at: u64,
    pub expiration_time: u64,
}

pub struct ExpiringView<V> {
    pub value: V,
    pub expires_at: u64,
    pub expiration_time: u64,
}

impl<T: View> View for ExpirationWrapper<T> {
    type V = ExpiringView<T::V>;

    open spec fn view(&self) -> ExpiringView<T::V> {
        ExpiringView {
            value: self.value@,
            expires_at: self.expires_at,
            expiration_time: self.expiration_time,
        }
    }
}

/// Whether a record with deadline `expires_at` has lapsed at `now`.
pub open spec fn lapsed(expires_at: u64, now: u64) -> bool {
    expires_at < now
}

impl<T: View> ExpirationWrapper<T> {
    /// Wraps `value` so that it lapses `expiration_time` after `now`.
    pub fn new(value: T, expiration_time: u64, now: u64) -> (r: Self)
        ensures
            r.value == value,
            r.expires_at == deadline(now, expiration_time),
            r.expiration_time == expiration_time,
    {
        ExpirationWrapper { value, expires_at: later(now, expiration_time), expiration_time }
    }

    /// Whether the value has lapsed at `now`.
    pub fn is_expired(&self, now: u64) -> (r: bool)
        ensures
            r == lapsed(self.expires_at, now),
    {
        self.expires_at < now
    }

    /// Extends the deadline to a full lifetime after `now`.
    pub fn renew(&mut self, now: u64)
        ensures
            final(self).value == old(self).value,
            final(self).expiration_time == old(self).expiration_time,
            final(self).expires_at == deadline(now, old(self).expiration_time),
    {
        self.expires_at = later(now, self.expiration_time);
    }
}

/// The instant `ttl` after `now`, capped at the largest representable one.
pub fn later(now: u64, ttl: u64) -> (r: u64)
    ensures
        r == deadline(now, ttl),
{
    if now <= u64::MAX - ttl {
        now + ttl
    } else {
        u64::MAX
    }
}

} // verus!
