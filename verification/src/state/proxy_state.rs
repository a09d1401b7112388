//! Proxy state (port, options) and the URLs it serves.

use vstd::prelude::*;
use crate::routing::tld::Tld;
use crate::text::{decimal, decimal_string, owned, push_str};

verus! {

/// State persisted by the proxy on start.
#[derive(Debug, Clone)]
pub struct ProxyState {
    /// Whether HTTPS is enabled.
    pub https: bool,
    /// TCP port the proxy is listening on.
    pub port: u16,
    /// TLD in use.
    pub tld: Tld,
    /// LAN mode.
    pub lan: bool,
    /// Wildcard routing.
    pub wildcard: bool,
    /// Pinned LAN IP (None for auto-detect).
    pub lan_ip: Option<String>,
    /// Optional custom certificate path.
    pub cert: Option<String>,
    /// Optional custom key path.
    pub key: Option<String>,
}

/// The URL of `hostname` behind a proxy: the scheme, the host, and the
/// port unless it is the scheme's default (443 for HTTPS, 80 for HTTP).
pub open spec fn proxy_url(https: bool, port: u16, hostname: Seq<char>) -> Seq<char> {
    let scheme = if https {
        "https"@
    } else {
        "http"@
    };
    if (https && port == 443) || (!https && port == 80) {
        scheme + "://"@ + hostname
    } else {
        scheme + "://"@ + hostname + ":"@ + decimal(port as nat)
    }
}

impl ProxyState {
    /// Construct a new proxy state: LAN and wildcard off, nothing pinned.
    pub fn new(https: bool, port: u16, tld: Tld) -> (s: Self)
        ensures
            s.https == https,
            s.port == port,
            s.tld == tld,
            !s.lan,
            !s.wildcard,
            s.lan_ip is None,
            s.cert is None,
            s.key is None,
    {
        ProxyState { https, port, tld, lan: false, wildcard: false, lan_ip: None, cert: None, key: None }
    }

    /// The URL of `hostname` behind this proxy (e.g.
    /// `https://myapp.localhost`).
    pub fn url_for(&self, hostname: &str) -> (r: String)
        ensures
            r@ == proxy_url(self.https, self.port, hostname@),
    {
        let mut r = if self.https {
            owned("https")
        } else {
            owned("http")
        };
        push_str(&mut r, "://");
        push_str(&mut r, hostname);
        if !((self.https && self.port == 443) || (!self.https && self.port == 80)) {
            push_str(&mut r, ":");
            let p = decimal_string(self.port as u64);
            push_str(&mut r, p.as_str());
        }
        r
    }
}

impl Default for ProxyState {
    /// HTTP on port 0 with the default TLD, everything else off.
    fn default() -> (s: Self)
        ensures
            !s.https,
            s.port == 0,
            s.tld@ == "localhost"@,
            !s.lan,
            !s.wildcard,
            s.lan_ip is None,
            s.cert is None,
            s.key is None,
    {
        ProxyState::new(false, 0, Tld::default())
    }
}

} // verus!
