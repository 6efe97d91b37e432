use vstd::prelude::*;
use vstd::string::StringExecFns;
use crate::models::{Component, ConnectionSettings, Credentials};
use crate::numbers::{numeral_value, parse_unsigned};

verus! {

/// The storage backend chosen at startup.
#[derive(Clone, Copy, PartialEq, Eq, Debug, Structural)]
pub enum RepositoryType {
    InMemory,
    Redis,
}

/// The backend that a numeric setting names: 1 is the external key-value
/// store, anything else the in-memory one.
pub open spec fn repository_of(v: u8) -> RepositoryType {
    if v == 1 {
        RepositoryType::Redis
    } else {
        RepositoryType::InMemory
    }
}

impl From<u8> for RepositoryType {
    fn from(value: u8) -> (r: RepositoryType) {
        if value == 1 {
            RepositoryType::Redis
        } else {
            RepositoryType::InMemory
        }
    }
}

impl vstd::std_specs::convert::FromSpecImpl<u8> for RepositoryType {
    open spec fn obeys_from_spec() -> bool {
        true
    }

    open spec fn from_spec(v: u8) -> RepositoryType {
        repository_of(v)
    }
}

impl Default for RepositoryType {
    fn default() -> (r: RepositoryType)
        ensures
            r == RepositoryType::InMemory,
    {
        RepositoryType::InMemory
    }
}

/// The backend named by the text of the repository setting, if it is set:
/// the in-memory one unless the text is a numeral that names another.
pub open spec fn repository_of_setting(setting: Option<Seq<char>>) -> RepositoryType {
    match setting {
        Some(s) => match numeral_value(s, 255) {
            Some(v) => repository_of(v as u8),
            None => RepositoryType::InMemory,
        },
        None => RepositoryType::InMemory,
    }
}

impl RepositoryType {
    /// The backend named by the repository setting, `setting` being its
    /// text when it is set.
    pub fn get_from_env(setting: Option<&str>) -> (r: RepositoryType)
        ensures
            r == repository_of_setting(match setting {
                Some(s) => Some(s@),
                None => None,
            }),
    {
        match setting {
            Some(s) => match parse_unsigned(s, 255) {
                Some(v) => RepositoryType::from(v as u8),
                None => RepositoryType::default(),
            },
            None => RepositoryType::default(),
        }
    }
}

/// The text of the error that `r` holds, if any.
pub open spec fn err_text<T>(r: Result<T, String>) -> Option<Seq<char>> {
    match r {
        Ok(_) => None,
        Err(e) => Some(e@),
    }
}

/// The text of a setting, or `why` when it is not set.
pub open spec fn required(value: Option<String>, why: Seq<char>) -> Result<Seq<char>, Seq<char>> {
    match value {
        Some(v) => Ok(v@),
        None => Err(why),
    }
}

/// The port that the text of a port setting names.
pub open spec fn port_of(text: Seq<char>) -> Option<u16> {
    match numeral_value(text, 65535) {
        Some(v) => Some(v as u16),
        None => None,
    }
}

/// Reads an endpoint from the texts of its address and port settings;
/// `missing_ip` and `missing_port` are the errors for a setting not set.
fn read_endpoint(
    ip: Option<String>,
    port: Option<String>,
    missing_ip: &str,
    missing_port: &str,
) -> (r: Result<(String, u16), String>)
    ensures
        ip is None ==> err_text(r) == Some(missing_ip@),
        ip is Some && port is None ==> err_text(r) == Some(missing_port@),
        ip is Some && port is Some && port_of(port->0@) is None ==> err_text(r) == Some("Invalid port number"@),
        r is Ok <==> ip is Some && port is Some && port_of(port->0@) is Some,
        r matches Ok((i, p)) ==> i@ == ip->0@ && Some(p) == port_of(port->0@),
{
    let ip = match ip {
        Some(v) => v,
        None => {
            return Err(String::from_str(missing_ip));
        },
    };
    let port = match port {
        Some(v) => v,
        None => {
            return Err(String::from_str(missing_port));
        },
    };
    match parse_unsigned(port.as_str(), 65535) {
        Some(p) => Ok((ip, p as u16)),
        None => Err(String::from_str("Invalid port number")),
    }
}

/// The credentials from the texts of the uid and secret settings.
pub fn get_credentials(uid: Option<String>, pwd: Option<String>) -> (r: Result<Credentials, String>)
    ensures
        uid is None ==> err_text(r) == Some("UID not set"@),
        uid is Some && pwd is None ==> err_text(r) == Some("PWD not set"@),
        r is Ok <==> uid is Some && pwd is Some,
        r matches Ok(c) ==> c.uid@ == uid->0@ && c.pwd@ == pwd->0@,
{
    let uid = match uid {
        Some(v) => v,
        None => {
            return Err(String::from_str("UID not set"));
        },
    };
    let pwd = match pwd {
        Some(v) => v,
        None => {
            return Err(String::from_str("PWD not set"));
        },
    };
    Ok(Credentials { uid, pwd })
}

/// The Controller's address and port from the texts of their settings.
pub fn get_controller_connection_settings(ip: Option<String>, port: Option<String>) -> (r: Result<(String, u16), String>)
    ensures
        ip is None ==> err_text(r) == Some("Controller IP not set"@),
        ip is Some && port is None ==> err_text(r) == Some("Controller port not set"@),
        ip is Some && port is Some && port_of(port->0@) is None ==> err_text(r) == Some("Invalid port number"@),
        r is Ok <==> ip is Some && port is Some && port_of(port->0@) is Some,
        r matches Ok((i, p)) ==> i@ == ip->0@ && Some(p) == port_of(port->0@),
{
    read_endpoint(ip, port, "Controller IP not set", "Controller port not set")
}

/// This component's listening address and port from the texts of their settings.
pub fn get_service_connection_settings(ip: Option<String>, port: Option<String>) -> (r: Result<(String, u16), String>)
    ensures
        ip is None ==> err_text(r) == Some("IP not set"@),
        ip is Some && port is None ==> err_text(r) == Some("port not set"@),
        ip is Some && port is Some && port_of(port->0@) is None ==> err_text(r) == Some("Invalid port number"@),
        r is Ok <==> ip is Some && port is Some && port_of(port->0@) is Some,
        r matches Ok((i, p)) ==> i@ == ip->0@ && Some(p) == port_of(port->0@),
{
    read_endpoint(ip, port, "IP not set", "port not set")
}

/// An endpoint from the texts of its address and port settings.
pub fn get_service_endpoint(ip: Option<String>, port: Option<String>) -> (r: Result<(String, u16), String>)
    ensures
        ip is None ==> err_text(r) == Some("IP not set"@),
        ip is Some && port is None ==> err_text(r) == Some("port not set"@),
        ip is Some && port is Some && port_of(port->0@) is None ==> err_text(r) == Some("Invalid port number"@),
        r is Ok <==> ip is Some && port is Some && port_of(port->0@) is Some,
        r matches Ok((i, p)) ==> i@ == ip->0@ && Some(p) == port_of(port->0@),
{
    read_endpoint(ip, port, "IP not set", "port not set")
}

/// The Controller's domain name from the text of its setting.
pub fn get_controller_domain_name(value: Option<String>) -> (r: Result<String, String>)
    ensures
        r is Ok <==> value is Some,
        r matches Ok(d) ==> d@ == value->0@,
        r matches Err(e) ==> e@ == "Controller domain name not set"@,
{
    match value {
        Some(v) => Ok(v),
        None => Err(String::from_str("Controller domain name not set")),
    }
}

/// A domain name from the text of its setting.
pub fn get_domain_name(value: Option<String>) -> (r: Result<String, String>)
    ensures
        r is Ok <==> value is Some,
        r matches Ok(d) ==> d@ == value->0@,
        r matches Err(e) ==> e@ == "Domain name not set"@,
{
    match value {
        Some(v) => Ok(v),
        None => Err(String::from_str("Domain name not set")),
    }
}

/// Connection settings from the texts of the address, port and domain name
/// settings and the certificate's bytes, if they could be read; the first
/// missing part decides the error.
pub fn get_connection_settings(
    ip: Option<String>,
    port: Option<String>,
    domain_name: Option<String>,
    certificate: Option<Vec<u8>>,
) -> (r: Result<ConnectionSettings, String>)
    ensures
        r is Ok <==> ip is Some && port is Some && port_of(port->0@) is Some && domain_name is Some
            && certificate is Some,
        ip is None ==> err_text(r) == Some("IP not set"@),
        r matches Ok(cs) ==> cs.ip@ == ip->0@ && Some(cs.port) == port_of(port->0@)
            && cs.domain_name@ == domain_name->0@ && cs.certificate@ == certificate->0@,
        ip is Some && port is Some && port_of(port->0@) is Some && domain_name is None ==> err_text(r) == Some("Domain name not set"@),
        ip is Some && port is Some && port_of(port->0@) is Some && domain_name is Some
            && certificate is None ==> err_text(r) == Some("Certificate not readable"@),
{
    let (ip, port) = match get_service_endpoint(ip, port) {
        Ok(v) => v,
        Err(e) => {
            return Err(e);
        },
    };
    let domain_name = match get_domain_name(domain_name) {
        Ok(v) => v,
        Err(e) => {
            return Err(e);
        },
    };
    match certificate {
        Some(certificate) => Ok(ConnectionSettings { ip, port, domain_name, certificate }),
        None => Err(String::from_str("Certificate not readable")),
    }
}

/// Everything a component needs to serve and to authenticate.
pub enum ComponentDescriptor {
    Controller { credentials: Credentials, connection_settings: ConnectionSettings, version: String },
    Proxy { credentials: Credentials, connection_settings: ConnectionSettings },
    Client { credentials: Credentials, connection_settings: ConnectionSettings },
}

impl Component {
    /// The settings this kind of component serves under: for the Controller
    /// its own, or else the listening ones; for the others the listening ones.
    pub fn get_connection_settings(
        &self,
        controller: Result<ConnectionSettings, String>,
        listening: Result<ConnectionSettings, String>,
    ) -> (r: Result<ConnectionSettings, String>)
        ensures
            *self == Component::Controller && controller is Ok ==> r == controller,
            !(*self == Component::Controller && controller is Ok) ==> r == listening,
    {
        match self {
            Component::Controller => match controller {
                Ok(c) => Ok(c),
                Err(_) => listening,
            },
            _ => listening,
        }
    }
}

impl ComponentDescriptor {
    /// The descriptor of a component of kind `component_type`; a Controller
    /// reports version 1.0.0.
    pub fn load(
        component_type: Component,
        connection_settings: Result<ConnectionSettings, String>,
        credentials: Result<Credentials, String>,
    ) -> (r: Result<ComponentDescriptor, String>)
        ensures
            connection_settings matches Err(e) ==> r == Err::<ComponentDescriptor, String>(e),
            connection_settings is Ok && credentials is Err ==> r == Err::<
                ComponentDescriptor,
                String,
            >(credentials->Err_0),
            r is Ok <==> connection_settings is Ok && credentials is Ok,
            r matches Ok(d) ==> d.kind() == component_type && d.spec_settings()
                == connection_settings->Ok_0 && d.spec_credentials() == credentials->Ok_0,
            r matches Ok(ComponentDescriptor::Controller { version, .. }) ==> version@ == "1.0.0"@,
    {
        let connection_settings = match connection_settings {
            Ok(c) => c,
            Err(e) => {
                return Err(e);
            },
        };
        let credentials = match credentials {
            Ok(c) => c,
            Err(e) => {
                return Err(e);
            },
        };
        Ok(
            match component_type {
                Component::Controller => ComponentDescriptor::Controller {
                    credentials,
                    connection_settings,
                    version: String::from_str("1.0.0"),
                },
                Component::Proxy => ComponentDescriptor::Proxy { credentials, connection_settings },
                Component::Client => ComponentDescriptor::Client { credentials, connection_settings },
            },
        )
    }

    /// The kind of component described.
    pub open spec fn kind(&self) -> Component {
        match self {
            ComponentDescriptor::Controller { .. } => Component::Controller,
            ComponentDescriptor::Proxy { .. } => Component::Proxy,
            ComponentDescriptor::Client { .. } => Component::Client,
        }
    }

    /// The connection settings described.
    pub open spec fn spec_settings(&self) -> ConnectionSettings {
        match self {
            ComponentDescriptor::Controller { connection_settings, .. } => *connection_settings,
            ComponentDescriptor::Proxy { connection_settings, .. } => *connection_settings,
            ComponentDescriptor::Client { connection_settings, .. } => *connection_settings,
        }
    }

    /// The credentials described.
    pub open spec fn spec_credentials(&self) -> Credentials {
        match self {
            ComponentDescriptor::Controller { credentials, .. } => *credentials,
            ComponentDescriptor::Proxy { credentials, .. } => *credentials,
            ComponentDescriptor::Client { credentials, .. } => *credentials,
        }
    }

    /// The connection settings of the component.
    pub fn get_connection_settings(&self) -> (r: &ConnectionSettings)
        ensures
            *r == self.spec_settings(),
    {
        match self {
            ComponentDescriptor::Controller { connection_settings, .. } => connection_settings,
            ComponentDescriptor::Proxy { connection_settings, .. } => connection_settings,
            ComponentDescriptor::Client { connection_settings, .. } => connection_settings,
        }
    }

    /// The credentials of the component.
    pub fn get_credentials(&self) -> (r: &Credentials)
        ensures
            *r == self.spec_credentials(),
    {
        match self {
            ComponentDescriptor::Controller { credentials, .. } => credentials,
            ComponentDescriptor::Proxy { credentials, .. } => credentials,
            ComponentDescriptor::Client { credentials, .. } => credentials,
        }
    }
}

/// What a component is being described with, before its kind is known.
pub struct DescriptorBuilder {
    pub uid: String,
    pub pwd: String,
    pub on_ip: String,
    pub on_port: u16,
    pub version: Option<String>,
    pub component_type: Option<u8>,
}

/// A component's identity, endpoint, version and kind.
pub struct Descriptor {
    pub uid: String,
    pub pwd: String,
    pub on_ip: String,
    pub on_port: u16,
    pub version: String,
    pub component_type: u8,
}

impl DescriptorBuilder {
    /// A builder from the listening endpoint and the credentials, if both
    /// were read; the first failure decides the error.
    pub fn load(
        endpoint: Result<(String, u16), String>,
        credentials: Result<Credentials, String>,
    ) -> (r: Result<DescriptorBuilder, String>)
        ensures
            endpoint matches Err(e) ==> r == Err::<DescriptorBuilder, String>(e),
            endpoint is Ok && credentials is Err ==> r == Err::<DescriptorBuilder, String>(
                credentials->Err_0,
            ),
            r is Ok <==> endpoint is Ok && credentials is Ok,
            r matches Ok(b) ==> b.on_ip == endpoint->Ok_0.0 && b.on_port == endpoint->Ok_0.1
                && b.uid == credentials->Ok_0.uid && b.pwd == credentials->Ok_0.pwd
                && b.version is None && b.component_type is None,
    {
        let (on_ip, on_port) = match endpoint {
            Ok(v) => v,
            Err(e) => {
                return Err(e);
            },
        };
        let credentials = match credentials {
            Ok(c) => c,
            Err(e) => {
                return Err(e);
            },
        };
        Ok(
            DescriptorBuilder {
                uid: credentials.uid,
                pwd: credentials.pwd,
                on_ip,
                on_port,
                component_type: None,
                version: None,
            },
        )
    }

    /// Sets the kind of component.
    pub fn with_component_type(&mut self, component_type: u8)
        ensures
            final(self).component_type == Some(component_type),
            final(self).version == old(self).version,
            final(self).uid == old(self).uid,
            final(self).pwd == old(self).pwd,
            final(self).on_ip == old(self).on_ip,
            final(self).on_port == old(self).on_port,
    {
        self.component_type = Some(component_type);
    }

    /// Sets the version.
    pub fn with_version(&mut self, version: &str)
        ensures
            final(self).version matches Some(v) && v@ == version@,
            final(self).component_type == old(self).component_type,
            final(self).uid == old(self).uid,
            final(self).pwd == old(self).pwd,
            final(self).on_ip == old(self).on_ip,
            final(self).on_port == old(self).on_port,
    {
        self.version = Some(String::from_str(version));
    }

    /// The descriptor; refused until the kind is set. The version defaults
    /// to 0.0.0.
    pub fn build(&self) -> (r: Result<Descriptor, String>)
        ensures
            r is Ok <==> self.component_type is Some,
            r matches Err(e) ==> e@ == "Provide the component type first"@,
            r matches Ok(d) ==> d.uid == self.uid && d.pwd == self.pwd && d.on_ip == self.on_ip
                && d.on_port == self.on_port && Some(d.component_type) == self.component_type && (
            match self.version {
                Some(v) => d.version == v,
                None => d.version@ == "0.0.0"@,
            }),
    {
        let component_type = match self.component_type {
            Some(c) => c,
            None => {
                return Err(String::from_str("Provide the component type first"));
            },
        };
        let version = match &self.version {
            Some(v) => v.clone(),
            None => String::from_str("0.0.0"),
        };
        Ok(
            Descriptor {
                uid: self.uid.clone(),
                pwd: self.pwd.clone(),
                on_ip: self.on_ip.clone(),
                on_port: self.on_port,
                version,
                component_type,
            },
        )
    }
}

/// Relies on `hostname::get`, read as text with invalid sequences replaced;
/// `None` when the name cannot be obtained.
#[verifier::external_body]
fn machine_hostname() -> (r: Option<String>) {
    match hostname::get() {
        Ok(h) => Some(h.to_string_lossy().into_owned()),
        Err(_) => None,
    }
}

/// The log file name of a component of kind `component_type` on the machine
/// named `hostname`.
pub fn log_file_name(hostname: &str, component_type: &str) -> (r: String)
    ensures
        r@ == hostname@ + "-"@ + component_type@ + ".log"@,
{
    String::from_str(hostname).concat("-").concat(component_type).concat(".log")
}

/// The log file name of a component of kind `component_type` on this
/// machine, named `localhost` when its name cannot be obtained.
pub fn get_default_log_file_name(component_type: &str) -> (r: String)
    ensures
        exists|h: Seq<char>| r@ == h + "-"@ + component_type@ + ".log"@,
{
    let host = match machine_hostname() {
        Some(h) => h,
        None => String::from_str("localhost"),
    };
    log_file_name(host.as_str(), component_type)
}

/// The presence of a component at the Controller, as the component sees it.
pub struct ClientSession {
    pub access_key: Option<String>,
    pub uid: Option<String>,
}

impl Default for ClientSession {
    fn default() -> (r: ClientSession)
        ensures
            r.access_key is None && r.uid is None,
    {
        ClientSession { access_key: None, uid: None }
    }
}

impl ClientSession {
    /// Records the session that a login opened.
    pub fn set_session(&mut self, uid: String, access_key: String)
        ensures
            final(self).uid == Some(uid),
            final(self).access_key == Some(access_key),
    {
        self.uid = Some(uid);
        self.access_key = Some(access_key);
    }

    /// Whether a session is recorded.
    pub fn is_authenticated(&self) -> (r: bool)
        ensures
            r == (self.uid is Some && self.access_key is Some),
    {
        self.uid.is_some() && self.access_key.is_some()
    }
}

/// Interval between two pings of a logged-in component, in milliseconds.
pub const PING_INTERVAL: u64 = 5000;

/// How long to wait before the next ping, `elapsed` milliseconds after the
/// last one.
pub fn get_next_ping_duration(elapsed: u64) -> (r: u64)
    ensures
        elapsed >= PING_INTERVAL ==> r == 0,
        elapsed < PING_INTERVAL ==> r == PING_INTERVAL - elapsed,
{
    if elapsed >= PING_INTERVAL {
        0
    } else {
        PING_INTERVAL - elapsed
    }
}

} // verus!
