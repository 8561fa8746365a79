//! Process configuration values: each runtime setting is a newtype that
//! accepts any non-empty string, and `Server` bundles the five settings the
//! surrounding process reads once at startup.

use vstd::prelude::*;

verus! {

/// The five startup settings, already checked to be non-empty.
pub struct Server {
    pub host: String,
    pub port: String,
    pub rust_log: String,
    pub db_connection: String,
    pub allowed_hosts: String,
}

/// The log-verbosity setting.
pub struct RustLog(pub String);

impl RustLog {
    /// Accepts any non-empty setting and rejects the empty string.
    pub fn try_from(value: String) -> (r: Result<RustLog, ()>)
        ensures
            r is Err <==> value@.len() == 0,
            r matches Ok(v) ==> v.0@ == value@,
    {
        if value.as_str().is_empty() {
            Err(())
        } else {
            Ok(RustLog(value))
        }
    }
}

/// The storage connection string.
pub struct DbConnection(pub String);

impl DbConnection {
    /// Accepts any non-empty setting and rejects the empty string.
    pub fn try_from(value: String) -> (r: Result<DbConnection, ()>)
        ensures
            r is Err <==> value@.len() == 0,
            r matches Ok(v) ==> v.0@ == value@,
    {
        if value.as_str().is_empty() {
            Err(())
        } else {
            Ok(DbConnection(value))
        }
    }
}

/// The interface the process binds to.
pub struct Host(pub String);

impl Host {
    /// Accepts any non-empty setting and rejects the empty string.
    pub fn try_from(value: String) -> (r: Result<Host, ()>)
        ensures
            r is Err <==> value@.len() == 0,
            r matches Ok(v) ==> v.0@ == value@,
    {
        if value.as_str().is_empty() {
            Err(())
        } else {
            Ok(Host(value))
        }
    }
}

/// The port the process listens on.
pub struct Port(pub String);

impl Port {
    /// Accepts any non-empty setting and rejects the empty string.
    pub fn try_from(value: String) -> (r: Result<Port, ()>)
        ensures
            r is Err <==> value@.len() == 0,
            r matches Ok(v) ==> v.0@ == value@,
    {
        if value.as_str().is_empty() {
            Err(())
        } else {
            Ok(Port(value))
        }
    }
}

/// The origin allowed to call the service across origins.
pub struct HostAllowed(pub String);

impl HostAllowed {
    /// Accepts any non-empty setting and rejects the empty string.
    pub fn try_from(value: String) -> (r: Result<HostAllowed, ()>)
        ensures
            r is Err <==> value@.len() == 0,
            r matches Ok(v) ==> v.0@ == value@,
    {
        if value.as_str().is_empty() {
            Err(())
        } else {
            Ok(HostAllowed(value))
        }
    }
}

/// Combines the five raw settings into a `Server`; fails exactly when one
/// of them is empty.
pub fn build_server(
    host: String,
    port: String,
    rust_log: String,
    db_connection: String,
    allowed_hosts: String,
) -> (r: Result<Server, ()>)
    ensures
        r is Ok <==> (host@.len() > 0 && port@.len() > 0 && rust_log@.len() > 0
            && db_connection@.len() > 0 && allowed_hosts@.len() > 0),
        r matches Ok(s) ==> {
            &&& s.host@ == host@
            &&& s.port@ == port@
            &&& s.rust_log@ == rust_log@
            &&& s.db_connection@ == db_connection@
            &&& s.allowed_hosts@ == allowed_hosts@
        },
{
    match (
        Host::try_from(host),
        Port::try_from(port),
        RustLog::try_from(rust_log),
        DbConnection::try_from(db_connection),
        HostAllowed::try_from(allowed_hosts),
    ) {
        (Ok(h), Ok(p), Ok(rl), Ok(db), Ok(ha)) => Ok(
            Server {
                host: h.0,
                port: p.0,
                rust_log: rl.0,
                db_connection: db.0,
                allowed_hosts: ha.0,
            },
        ),
        _ => Err(()),
    }
}

/// Joins the configured host and port into the bind address `host:port`.
pub fn get_host_and_port(server: Server) -> (r: String)
    ensures
        r@ == server.host@ + ":"@ + server.port@,
{
    let mut r = server.host;
    r.append(":");
    r.append(server.port.as_str());
    r
}

} // verus!
