//! Unified error type for the entire crate.
//!
//! Errors carry plain values only: the message of an underlying I/O, JSON or
//! TOML failure is kept as text, a socket address as its rendering, and a
//! timeout as whole seconds.

use vstd::prelude::*;
use crate::text::{decimal, decimal_string, lower_seq, push_str, to_lower, str_eq};

verus! {

/// The single, unified error type returned by every public API in the crate.
#[derive(Debug, Clone, PartialEq, Eq)]
pub enum Error {
    /// I/O error (its message).
    Io(String),
    /// JSON serialization/deserialization error (its message).
    Json(String),
    /// TOML parsing error (its message).
    Toml(String),
    /// Configuration error.
    Config(String),
    /// Invalid hostname.
    InvalidHostname(String),
    /// Invalid TLD.
    InvalidTld(String),
    /// Reserved TLD chosen with confirmation required.
    ReservedTld(String, String),
    /// Route not found.
    RouteNotFound(String),
    /// Route already exists.
    RouteExists(String),
    /// Port is already in use.
    PortInUse(u16),
    /// Port cannot be assigned (out of range or browser-blocked).
    PortNotAssignable(u16, String),
    /// No free port found in the configured range.
    NoFreePort(u16, u16),
    /// TLS error.
    Tls(String),
    /// Certificate generation failed.
    Cert(String),
    /// Proxy error.
    Proxy(String),
    /// Forwarding loop detected.
    LoopDetected(u32),
    /// Process spawn error.
    Process(String),
    /// Process not found.
    ProcessNotFound(String),
    /// Permission denied.
    Permission(String),
    /// Network error.
    Network(String),
    /// Hostname validation error.
    Hostname(String),
    /// DNS error.
    Dns(String),
    /// Service management error.
    Service(String),
    /// Hosts file error.
    Hosts(String),
    /// Tailscale error.
    Tailscale(String),
    /// mDNS error.
    Mdns(String),
    /// Address parse error.
    AddrParse(String),
    /// Bind error.
    Bind {
        /// The address that failed to bind.
        addr: String,
        /// The underlying error message.
        source: String,
    },
    /// Lock poisoning.
    Lock(String),
    /// State corruption.
    StateCorruption(String),
    /// Unsupported platform.
    UnsupportedPlatform(String),
    /// Not implemented.
    NotImplemented(String),
    /// Cancelled.
    Cancelled,
    /// Timeout, in whole seconds.
    Timeout(u64),
    /// Any other error (its message).
    Other(String),
}

/// The text that the error's `Display` renders.
pub open spec fn message_of(e: Error) -> Seq<char> {
    match e {
        Error::Io(s) => "io error: "@ + s@,
        Error::Json(s) => "json error: "@ + s@,
        Error::Toml(s) => "toml error: "@ + s@,
        Error::Config(s) => "configuration error: "@ + s@,
        Error::InvalidHostname(s) => "invalid hostname: "@ + s@,
        Error::InvalidTld(s) => "invalid TLD: "@ + s@,
        Error::ReservedTld(t, w) => "reserved TLD '"@ + t@ + "' is not recommended: "@ + w@,
        Error::RouteNotFound(s) => "route not found: "@ + s@,
        Error::RouteExists(s) => "route already exists: "@ + s@,
        Error::PortInUse(p) => "port "@ + decimal(p as nat) + " is already in use"@,
        Error::PortNotAssignable(p, s) => "port "@ + decimal(p as nat) + " is not assignable: "@
            + s@,
        Error::NoFreePort(a, b) => "no free port available in range "@ + decimal(a as nat) + "-"@
            + decimal(b as nat),
        Error::Tls(s) => "tls error: "@ + s@,
        Error::Cert(s) => "certificate generation failed: "@ + s@,
        Error::Proxy(s) => "proxy error: "@ + s@,
        Error::LoopDetected(n) => "forwarding loop detected (X-Portless-Hops exceeded "@ + decimal(
            n as nat,
        ) + ")"@,
        Error::Process(s) => "process error: "@ + s@,
        Error::ProcessNotFound(s) => "process "@ + s@ + " not found"@,
        Error::Permission(s) => "permission denied: "@ + s@,
        Error::Network(s) => "network error: "@ + s@,
        Error::Hostname(s) => "hostname validation: "@ + s@,
        Error::Dns(s) => "dns error: "@ + s@,
        Error::Service(s) => "service error: "@ + s@,
        Error::Hosts(s) => "hosts file error: "@ + s@,
        Error::Tailscale(s) => "tailscale error: "@ + s@,
        Error::Mdns(s) => "mdns error: "@ + s@,
        Error::AddrParse(s) => "invalid address: "@ + s@,
        Error::Bind { addr, source } => "bind error on "@ + addr@ + ": "@ + source@,
        Error::Lock(s) => "lock poisoned: "@ + s@,
        Error::StateCorruption(s) => "state corruption: "@ + s@,
        Error::UnsupportedPlatform(s) => "unsupported platform: "@ + s@,
        Error::NotImplemented(s) => "not implemented: "@ + s@,
        Error::Cancelled => "operation cancelled"@,
        Error::Timeout(n) => "operation timed out after "@ + decimal(n as nat) + "s"@,
        Error::Other(s) => s@,
    }
}

/// The HTTP status the proxy answers with for an error.
pub open spec fn status_of(e: Error) -> u16 {
    match e {
        Error::InvalidHostname(_) | Error::InvalidTld(_) | Error::Hostname(_) => 400,
        Error::Proxy(m) => if lower_seq(m@) == lower_seq("missing Host header"@) {
            400
        } else {
            500
        },
        Error::RouteNotFound(_) => 404,
        Error::RouteExists(_) => 409,
        Error::PortInUse(_) | Error::PortNotAssignable(..) | Error::NoFreePort(..) => 503,
        Error::LoopDetected(_) => 508,
        Error::Timeout(_) => 504,
        Error::Network(_) | Error::Tls(_) | Error::Cert(_) | Error::Dns(_) => 502,
        Error::ProcessNotFound(_) | Error::Process(_) => 502,
        Error::Bind { .. } | Error::AddrParse(_) => 503,
        Error::Cancelled => 499,
        _ => 500,
    }
}

/// The exit code of the process for an error.
pub open spec fn exit_code_of(e: Error) -> i32 {
    match e {
        Error::Config(_) | Error::InvalidHostname(_) | Error::InvalidTld(_)
        | Error::RouteNotFound(_) | Error::RouteExists(_) | Error::PortInUse(_)
        | Error::PortNotAssignable(_, _) | Error::NoFreePort(_, _) | Error::Permission(_)
        | Error::ProcessNotFound(_) | Error::UnsupportedPlatform(_) | Error::AddrParse(_)
        | Error::ReservedTld(_, _) => 2,
        _ => 1,
    }
}

/// The one-line hint shown with an error, if any.
pub open spec fn hint_of(e: Error) -> Option<Seq<char>> {
    match e {
        Error::RouteExists(_) => Some(
            "run `portless run --force <cmd>` to take over, or use a different name"@,
        ),
        Error::PortInUse(_) => Some(
            "portless picks ports in 4000-4999; set PORTLESS_APP_PORT to pin a different port"@,
        ),
        Error::Permission(_) => Some(
            "port 443 / 80 require elevated privileges; use `--port 1355` for a non-privileged port"@,
        ),
        Error::Tls(_) => Some("run `portless trust` to install the local CA, or use `--no-tls`"@),
        Error::Proxy(_) => Some("is the proxy running? try `portless proxy start`"@),
        Error::RouteNotFound(_) => Some("is the app running? check `portless list`"@),
        Error::LoopDetected(_) => Some(
            "set `changeOrigin: true` in your framework's dev proxy config"@,
        ),
        Error::Cancelled => Some("operation was cancelled (Ctrl+C)"@),
        Error::Timeout(_) => Some("operation took too long; check your network and try again"@),
        _ => None,
    }
}

/// `s` followed by `t`, as a new `String`.
fn join2(s: &str, t: &str) -> (r: String)
    ensures
        r@ == s@ + t@,
{
    let mut r = String::new();
    push_str(&mut r, s);
    push_str(&mut r, t);
    assert(Seq::<char>::empty() + s@ + t@ == s@ + t@);
    r
}

/// `a`, `b`, `c` in order, as a new `String`.
fn join3(a: &str, b: &str, c: &str) -> (r: String)
    ensures
        r@ == a@ + b@ + c@,
{
    let mut r = join2(a, b);
    push_str(&mut r, c);
    r
}

/// `a`, `b`, `c`, `d` in order, as a new `String`.
fn join4(a: &str, b: &str, c: &str, d: &str) -> (r: String)
    ensures
        r@ == a@ + b@ + c@ + d@,
{
    let mut r = join3(a, b, c);
    push_str(&mut r, d);
    r
}

impl Error {
    /// Create a configuration error.
    pub fn config(s: &str) -> (e: Self)
        ensures
            e == Error::Config(e->Config_0) && e->Config_0@ == s@,
    {
        Error::Config(crate::text::owned(s))
    }

    /// Create a proxy error.
    pub fn proxy(s: &str) -> (e: Self)
        ensures
            e == Error::Proxy(e->Proxy_0) && e->Proxy_0@ == s@,
    {
        Error::Proxy(crate::text::owned(s))
    }

    /// Create a TLS error.
    pub fn tls(s: &str) -> (e: Self)
        ensures
            e == Error::Tls(e->Tls_0) && e->Tls_0@ == s@,
    {
        Error::Tls(crate::text::owned(s))
    }

    /// Create a process error.
    pub fn process(s: &str) -> (e: Self)
        ensures
            e == Error::Process(e->Process_0) && e->Process_0@ == s@,
    {
        Error::Process(crate::text::owned(s))
    }

    /// Create a network error.
    pub fn network(s: &str) -> (e: Self)
        ensures
            e == Error::Network(e->Network_0) && e->Network_0@ == s@,
    {
        Error::Network(crate::text::owned(s))
    }

    /// Create a service error.
    pub fn service(s: &str) -> (e: Self)
        ensures
            e == Error::Service(e->Service_0) && e->Service_0@ == s@,
    {
        Error::Service(crate::text::owned(s))
    }

    /// Create a hosts file error.
    pub fn hosts(s: &str) -> (e: Self)
        ensures
            e == Error::Hosts(e->Hosts_0) && e->Hosts_0@ == s@,
    {
        Error::Hosts(crate::text::owned(s))
    }

    /// Create a DNS error.
    pub fn dns(s: &str) -> (e: Self)
        ensures
            e == Error::Dns(e->Dns_0) && e->Dns_0@ == s@,
    {
        Error::Dns(crate::text::owned(s))
    }

    /// The HTTP status code for clients hitting the proxy: 400 for malformed
    /// requests, 404 for unknown routes, 502 for upstream failures, and so on;
    /// 500 for anything else.
    pub fn http_status(&self) -> (code: u16)
        ensures
            code == status_of(*self),
    {
        match self {
            Error::InvalidHostname(_) | Error::InvalidTld(_) | Error::Hostname(_) => 400,
            Error::Proxy(msg) => {
                let a = to_lower(msg.as_str());
                let b = to_lower("missing Host header");
                if str_eq(a.as_str(), b.as_str()) {
                    400
                } else {
                    500
                }
            },
            Error::RouteNotFound(_) => 404,
            Error::RouteExists(_) => 409,
            Error::PortInUse(_) | Error::PortNotAssignable(..) | Error::NoFreePort(..) => 503,
            Error::LoopDetected(_) => 508,
            Error::Timeout(_) => 504,
            Error::Network(_) | Error::Tls(_) | Error::Cert(_) | Error::Dns(_) => 502,
            Error::ProcessNotFound(_) | Error::Process(_) => 502,
            Error::Bind { .. } | Error::AddrParse(_) => 503,
            Error::Cancelled => 499,
            _ => 500,
        }
    }

    /// Whether the error is transient and a retry may succeed.
    pub fn is_transient(&self) -> (r: bool)
        ensures
            r == (self is Io || self is Network || self is Timeout || self is Lock),
    {
        match self {
            Error::Io(_) | Error::Network(_) | Error::Timeout(_) | Error::Lock(_) => true,
            _ => false,
        }
    }

    /// Process exit code associated with this error: 2 for usage and
    /// configuration errors, 1 otherwise.
    pub fn exit_code(&self) -> (c: i32)
        ensures
            c == exit_code_of(*self),
    {
        match self {
            Error::Config(_) | Error::InvalidHostname(_) | Error::InvalidTld(_)
            | Error::RouteNotFound(_) | Error::RouteExists(_) | Error::PortInUse(_)
            | Error::PortNotAssignable(_, _) | Error::NoFreePort(_, _) | Error::Permission(_)
            | Error::ProcessNotFound(_) | Error::UnsupportedPlatform(_) | Error::AddrParse(_)
            | Error::ReservedTld(_, _) => 2,
            _ => 1,
        }
    }

    /// A one-line hint for this error, if one is known.
    pub fn hint(&self) -> (h: Option<String>)
        ensures
            match hint_of(*self) {
                Some(t) => h is Some && h->Some_0@ == t,
                None => h is None,
            },
    {
        let t: &str = match self {
            Error::RouteExists(_) => "run `portless run --force <cmd>` to take over, or use a different name",
            Error::PortInUse(_) => "portless picks ports in 4000-4999; set PORTLESS_APP_PORT to pin a different port",
            Error::Permission(_) => "port 443 / 80 require elevated privileges; use `--port 1355` for a non-privileged port",
            Error::Tls(_) => "run `portless trust` to install the local CA, or use `--no-tls`",
            Error::Proxy(_) => "is the proxy running? try `portless proxy start`",
            Error::RouteNotFound(_) => "is the app running? check `portless list`",
            Error::LoopDetected(_) => "set `changeOrigin: true` in your framework's dev proxy config",
            Error::Cancelled => "operation was cancelled (Ctrl+C)",
            Error::Timeout(_) => "operation took too long; check your network and try again",
            _ => {
                return None;
            },
        };
        Some(crate::text::owned(t))
    }

    /// True for errors that look like bugs and should be reported.
    pub fn is_reportable(&self) -> (r: bool)
        ensures
            r == (self is StateCorruption || self is Lock || self is LoopDetected
                || self is NotImplemented || self is Bind || self is Other),
    {
        match self {
            Error::StateCorruption(_) | Error::Lock(_) | Error::LoopDetected(_)
            | Error::NotImplemented(_) | Error::Bind { .. } | Error::Other(_) => true,
            _ => false,
        }
    }

    /// The text of this error, as its `Display` renders it.
    pub fn to_string(&self) -> (m: String)
        ensures
            m@ == message_of(*self),
    {
        match self {
            Error::Io(s) => join2("io error: ", s.as_str()),
            Error::Json(s) => join2("json error: ", s.as_str()),
            Error::Toml(s) => join2("toml error: ", s.as_str()),
            Error::Config(s) => join2("configuration error: ", s.as_str()),
            Error::InvalidHostname(s) => join2("invalid hostname: ", s.as_str()),
            Error::InvalidTld(s) => join2("invalid TLD: ", s.as_str()),
            Error::ReservedTld(t, w) => join4(
                "reserved TLD '",
                t.as_str(),
                "' is not recommended: ",
                w.as_str(),
            ),
            Error::RouteNotFound(s) => join2("route not found: ", s.as_str()),
            Error::RouteExists(s) => join2("route already exists: ", s.as_str()),
            Error::PortInUse(p) => {
                let d = decimal_string(*p as u64);
                join3("port ", d.as_str(), " is already in use")
            },
            Error::PortNotAssignable(p, s) => {
                let d = decimal_string(*p as u64);
                join4("port ", d.as_str(), " is not assignable: ", s.as_str())
            },
            Error::NoFreePort(a, b) => {
                let da = decimal_string(*a as u64);
                let db = decimal_string(*b as u64);
                join4("no free port available in range ", da.as_str(), "-", db.as_str())
            },
            Error::Tls(s) => join2("tls error: ", s.as_str()),
            Error::Cert(s) => join2("certificate generation failed: ", s.as_str()),
            Error::Proxy(s) => join2("proxy error: ", s.as_str()),
            Error::LoopDetected(n) => {
                let d = decimal_string(*n as u64);
                join3("forwarding loop detected (X-Portless-Hops exceeded ", d.as_str(), ")")
            },
            Error::Process(s) => join2("process error: ", s.as_str()),
            Error::ProcessNotFound(s) => join3("process ", s.as_str(), " not found"),
            Error::Permission(s) => join2("permission denied: ", s.as_str()),
            Error::Network(s) => join2("network error: ", s.as_str()),
            Error::Hostname(s) => join2("hostname validation: ", s.as_str()),
            Error::Dns(s) => join2("dns error: ", s.as_str()),
            Error::Service(s) => join2("service error: ", s.as_str()),
            Error::Hosts(s) => join2("hosts file error: ", s.as_str()),
            Error::Tailscale(s) => join2("tailscale error: ", s.as_str()),
            Error::Mdns(s) => join2("mdns error: ", s.as_str()),
            Error::AddrParse(s) => join2("invalid address: ", s.as_str()),
            Error::Bind { addr, source } => join4(
                "bind error on ",
                addr.as_str(),
                ": ",
                source.as_str(),
            ),
            Error::Lock(s) => join2("lock poisoned: ", s.as_str()),
            Error::StateCorruption(s) => join2("state corruption: ", s.as_str()),
            Error::UnsupportedPlatform(s) => join2("unsupported platform: ", s.as_str()),
            Error::NotImplemented(s) => join2("not implemented: ", s.as_str()),
            Error::Cancelled => crate::text::owned("operation cancelled"),
            Error::Timeout(n) => {
                let d = decimal_string(*n);
                join3("operation timed out after ", d.as_str(), "s")
            },
            Error::Other(s) => s.clone(),
        }
    }
}

/// An error with a bare message.
pub fn other(s: &str) -> (e: Error)
    ensures
        e matches Error::Other(m) && m@ == s@,
{
    Error::Other(crate::text::owned(s))
}

/// Attaching a context message to a failure: the failure is replaced by
/// an error whose message is the context.
pub trait ErrorContext<T>: Sized {
    /// Replace a failure by an error carrying `ctx`.
    fn context(self, ctx: &str) -> Result<T, Error>;

    /// Replace a failure by an error carrying the message `f` computes;
    /// `f` runs only on a failure.
    fn with_context<F: FnOnce() -> String>(self, f: F) -> Result<T, Error>
        requires
            f.requires(()),
    ;
}

impl<T> ErrorContext<T> for Result<T, Error> {
    fn context(self, ctx: &str) -> (r: Result<T, Error>)
        ensures
            self is Ok ==> r == self,
            self is Err ==> (r matches Err(Error::Other(m)) && m@ == ctx@),
    {
        match self {
            Ok(v) => Ok(v),
            Err(_) => Err(other(ctx)),
        }
    }

    fn with_context<F: FnOnce() -> String>(self, f: F) -> (r: Result<T, Error>)
        ensures
            self is Ok ==> r == self,
            self is Err ==> (r matches Err(Error::Other(m)) && f.ensures((), m)),
    {
        match self {
            Ok(v) => Ok(v),
            Err(_) => Err(Error::Other(f())),
        }
    }
}

/// The `std::io::Error` type, carried opaquely.
#[verifier::external_type_specification]
#[verifier::external_body]
pub struct ExIoError(std::io::Error);

/// An `std::io::Error` of kind `Other` whose payload is `s`.
///
/// Calls `std::io::Error::other`; nothing is stated of the value, which
/// Verus sees as opaque.
#[verifier::external_body]
pub fn io_other<S: Into<String>>(s: S) -> std::io::Error {
    std::io::Error::other(s.into())
}

} // verus!
