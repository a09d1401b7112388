//! Shared options (global flags, proxy start flags), as parsed values.

use vstd::prelude::*;
use crate::common::error::Error;
use crate::routing::tld::{Tld, tld_error, valid_tld};
use crate::text::lower_seq;
use crate::state::proxy_state::ProxyState;
use crate::text::owned;

verus! {

/// Flags that apply to the whole CLI invocation.
#[derive(Debug, Clone)]
pub struct GlobalOpts {
    /// Verbosity: -v / -vv / -vvv.
    pub verbose: u8,
    /// Path to the state directory (overrides PORTLESS_STATE_DIR).
    pub state_dir: Option<String>,
    /// Disable the proxy and run the command directly.
    pub bypass: Option<String>,
}

/// Options for `portless proxy start`.
#[derive(Debug, Clone)]
pub struct ProxyStartOpts {
    /// Port to bind to.
    pub port: u16,
    /// Disable TLS.
    pub no_tls: bool,
    /// Run in foreground.
    pub foreground: bool,
    /// Wildcard subdomain routing.
    pub wildcard: bool,
    /// Custom certificate path.
    pub cert: Option<String>,
    /// Custom key path.
    pub key: Option<String>,
    /// TLD.
    pub tld: String,
    /// LAN mode (mDNS).
    pub lan: bool,
    /// Pinned LAN IP.
    pub ip: Option<String>,
}

impl Default for GlobalOpts {
    /// No verbosity, no state directory, no bypass.
    fn default() -> (o: Self)
        ensures
            o.verbose == 0,
            o.state_dir is None,
            o.bypass is None,
    {
        GlobalOpts { verbose: 0, state_dir: None, bypass: None }
    }
}

impl Default for ProxyStartOpts {
    /// The values the option parser starts from: everything off or unset,
    /// port 0 and an empty TLD.
    fn default() -> (o: Self)
        ensures
            o.port == 0,
            !o.no_tls && !o.foreground && !o.wildcard && !o.lan,
            o.cert is None && o.key is None && o.ip is None,
            o.tld@ == Seq::<char>::empty(),
    {
        ProxyStartOpts {
            port: 0,
            no_tls: false,
            foreground: false,
            wildcard: false,
            cert: None,
            key: None,
            tld: String::new(),
            lan: false,
            ip: None,
        }
    }
}

impl ProxyStartOpts {
    /// The proxy state these options describe (HTTPS unless `--no-tls`);
    /// an invalid TLD is an error.
    pub fn state(&self) -> (r: Result<ProxyState, Error>)
        ensures
            valid_tld(self.tld@) ==> r is Ok && r->Ok_0.https == !self.no_tls && r->Ok_0.port
                == self.port && r->Ok_0.tld@ == lower_seq(self.tld@) && !r->Ok_0.lan
                && !r->Ok_0.wildcard,
            !valid_tld(self.tld@) ==> (r matches Err(Error::InvalidTld(m)) && tld_error(self.tld@)
                == Some(m@)),
    {
        match Tld::new(self.tld.as_str()) {
            Ok(tld) => Ok(ProxyState::new(!self.no_tls, self.port, tld)),
            Err(e) => Err(e),
        }
    }
}

} // verus!
