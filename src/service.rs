use vstd::prelude::*;
use vstd::string::StringExecFns;
use crate::models::ConnectionSettings;
use crate::settings::{err_text, get_domain_name, get_service_endpoint, port_of};

verus! {

/// The Controller's connection settings from the texts of its address, port
/// and domain name settings and the bytes of its certificate file, `None`
/// when no certificate file is set; a file that cannot be read is given as
/// empty bytes. The first missing part decides the error.
pub fn get_controller_connection_settings(
    ip: Option<String>,
    port: Option<String>,
    domain_name: Option<String>,
    certificate: Option<Vec<u8>>,
) -> (r: Result<ConnectionSettings, String>)
    ensures
        r is Ok <==> ip is Some && port is Some && port_of(port->0@) is Some && domain_name is Some
            && certificate is Some,
        r matches Ok(cs) ==> cs.ip@ == ip->0@ && Some(cs.port) == port_of(port->0@)
            && cs.domain_name@ == domain_name->0@ && cs.certificate@ == certificate->0@,
        ip is None ==> err_text(r) == Some("IP not set"@),
        ip is Some && port is None ==> err_text(r) == Some("port not set"@),
        ip is Some && port is Some && port_of(port->0@) is None ==> err_text(r) == Some(
            "Invalid port number"@,
        ),
        ip is Some && port is Some && port_of(port->0@) is Some && domain_name is None ==> err_text(
            r,
        ) == Some("Domain name not set"@),
        ip is Some && port is Some && port_of(port->0@) is Some && domain_name is Some
            && certificate is None ==> err_text(r) == Some("Controller certificate file not set"@),
{
    let (ip, port) = match get_service_endpoint(ip, port) {
        Ok(v) => v,
        Err(e) => {
            return Err(e);
        },
    };
    let domain_name = match get_domain_name(domain_name) {
        Ok(v) => v,
        Err(e) => {
            return Err(e);
        },
    };
    match certificate {
        Some(certificate) => Ok(ConnectionSettings { ip, port, domain_name, certificate }),
        None => Err(String::from_str("Controller certificate file not set")),
    }
}

} // verus!
