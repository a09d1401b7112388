//! The proxy's decisions: which route a request goes to, what the upstream
//! request carries, when a request is looping, and the pages errors get.
//!
//! Moving bytes (accepting connections, TLS, forwarding bodies) is the
//! caller's business; each request's route and headers are decided here.

use vstd::prelude::*;
use crate::common::error::{Error, message_of, status_of};
use crate::config::env::{Env, is_value, u16_var, var};
use crate::routing::hostname::{Host, hostname_error, valid_hostname};
use crate::routing::match_::{RouteView, Router, resolve_spec};
use crate::routing::tld::{Tld, tld_error, valid_tld};
use crate::state::proxy_state::ProxyState;
use crate::text::{
    chars_of, decimal, decimal_string, first_index, lower_seq, owned, parse_uint, push_str,
    string_of_range, to_lower,
};

verus! {

/// Requests that have passed the proxy more often than this are looping.
pub const MAX_HOPS: u32 = 5;

/// The size of the chunks a raw TCP tunnel copies in each direction.
pub const PUMP_CHUNK: usize = 8192;

/// A plain TCP forwarder, for CONNECT-style requests and raw WebSocket
/// passthrough: each accepted connection is copied both ways to the
/// target until either side closes.
#[derive(Debug)]
pub struct TcpUpstream;

/// The canonical reason phrase of an HTTP status code.
pub uninterp spec fn http_reason(code: u16) -> Option<Seq<char>>;

/// `http::StatusCode::from_u16(code)` and its `canonical_reason()`: the
/// standard phrase of a known code; none for an unknown code, and none
/// outside `100..=999`, which is no status code at all.
#[verifier::external_body]
fn reason_phrase(code: u16) -> (r: Option<String>)
    ensures
        match r {
            Some(s) => http_reason(code) == Some(s@),
            None => http_reason(code) is None,
        },
        !(100 <= code <= 999) ==> r is None,
{
    match http::StatusCode::from_u16(code) {
        Ok(s) => s.canonical_reason().map(|t| t.to_string()),
        Err(_) => None,
    }
}

/// The host part of a `Host` header: the text before the first `:`.
pub open spec fn host_part(h: Seq<char>) -> Seq<char> {
    h.take(first_index(h, ':'))
}

/// The hop count a request carries: its `x-portless-hops` header as a
/// number, 0 when missing or not a number.
pub open spec fn hops_of(header: Option<Seq<char>>) -> u32 {
    match header {
        Some(h) => match parse_uint(h, u32::MAX as nat) {
            Ok(v) => v as u32,
            Err(_) => 0,
        },
        None => 0,
    }
}

/// What to do with a request.
#[derive(Debug)]
pub enum ForwardPlan {
    /// The request is looping through the proxy: answer 508.
    LoopDetected,
    /// Forward it.
    Forward {
        /// The requested host, without a port: the `x-portless-host` value.
        host: String,
        /// The backend port.
        port: u16,
        /// The upstream URI.
        uri: String,
        /// The `x-portless-hops` value to send on.
        hops: String,
    },
}

/// The upstream URI for a port and a request's path and query (`/` when
/// there is none).
pub open spec fn upstream_uri(port: u16, path_and_query: Option<Seq<char>>) -> Seq<char> {
    "http://127.0.0.1:"@ + decimal(port as nat) + match path_and_query {
        Some(p) => p,
        None => "/"@,
    }
}

/// Decide what to do with a request, from its `Host` header, its
/// `x-portless-hops` header, and its path and query.
pub fn plan_forward(
    router: &Router,
    host_header: Option<&str>,
    hops_header: Option<&str>,
    path_and_query: Option<&str>,
) -> (r: Result<ForwardPlan, Error>)
    ensures
        host_header is None ==> (r matches Err(Error::Proxy(m)) && m@ == "missing Host header"@),
        host_header is Some && !valid_hostname(host_part(host_header->Some_0@)) ==> (r matches Err(
            Error::InvalidHostname(m),
        ) && m@ == hostname_error(host_part(host_header->Some_0@))->Some_0),
        host_header is Some && valid_hostname(host_part(host_header->Some_0@)) && resolve_spec(
            router.table(),
            router.wildcard_on(),
            host_part(host_header->Some_0@),
        ) is None ==> (r matches Err(Error::RouteNotFound(m)) && m@ == host_part(host_header->Some_0@)),
        host_header is Some && valid_hostname(host_part(host_header->Some_0@)) && resolve_spec(
            router.table(),
            router.wildcard_on(),
            host_part(host_header->Some_0@),
        ) is Some ==> ({
            let hops = hops_of(
                match hops_header {
                    Some(x) => Some(x@),
                    None => None,
                },
            );
            let rv = resolve_spec(router.table(), router.wildcard_on(), host_part(host_header->Some_0@))->Some_0.0;
            &&& hops > MAX_HOPS ==> (r matches Ok(ForwardPlan::LoopDetected))
            &&& hops <= MAX_HOPS ==> (r matches Ok(
                ForwardPlan::Forward { host: h2, port: p2, uri: u2, hops: n2 },
            ) && h2@ == host_part(host_header->Some_0@) && p2 == rv.port && u2@ == upstream_uri(
                rv.port,
                match path_and_query {
                    Some(p) => Some(p@),
                    None => None,
                },
            ) && n2@ == decimal(hops as nat + 1))
        }),
{
    let hh = match host_header {
        Some(h) => h,
        None => return Err(Error::proxy("missing Host header")),
    };
    let v = chars_of(hh);
    let k = crate::text::find_char(&v, ':');
    proof {
        crate::text::lemma_first_index(hh@, ':');
    }
    let host_no_port = string_of_range(&v, 0, k);
    assert(v@.subrange(0, k as int) == host_part(hh@));
    let host = match Host::new(host_no_port.as_str()) {
        Ok(h) => h,
        Err(e) => return Err(e),
    };
    let matched = match router.resolve(&host) {
        Some(m) => m,
        None => return Err(Error::RouteNotFound(owned(host.as_str()))),
    };
    let hops = match hops_header {
        Some(s) => match crate::text::parse_u32(s) {
            Some(n) => n,
            None => 0,
        },
        None => 0,
    };
    if hops > MAX_HOPS {
        return Ok(ForwardPlan::LoopDetected);
    }
    let port = matched.port();
    let mut uri = owned("http://127.0.0.1:");
    let ps = decimal_string(port as u64);
    push_str(&mut uri, ps.as_str());
    match path_and_query {
        Some(p) => push_str(&mut uri, p),
        None => push_str(&mut uri, "/"),
    }
    let next = decimal_string((hops + 1) as u64);
    Ok(ForwardPlan::Forward { host: host_no_port, port, uri, hops: next })
}

/// What an HTTP/1.1 upgrade request is answered with: the routing error
/// of [`plan_forward`] when its `Host` does not lead to a route, else
/// "not implemented" (raw upgrades are not piped through this path; the
/// TCP tunnel carries them).
pub fn handle_upgrade(router: &Router, host_header: Option<&str>) -> (e: Error)
    ensures
        host_header is None ==> (e matches Error::Proxy(m) && m@ == "missing Host header"@),
        host_header is Some && !valid_hostname(host_part(host_header->Some_0@)) ==> (e matches Error::InvalidHostname(
            m,
        ) && m@ == hostname_error(host_part(host_header->Some_0@))->Some_0),
        host_header is Some && valid_hostname(host_part(host_header->Some_0@)) && resolve_spec(
            router.table(),
            router.wildcard_on(),
            host_part(host_header->Some_0@),
        ) is None ==> (e matches Error::RouteNotFound(m) && m@ == host_part(host_header->Some_0@)),
        host_header is Some && valid_hostname(host_part(host_header->Some_0@)) && resolve_spec(
            router.table(),
            router.wildcard_on(),
            host_part(host_header->Some_0@),
        ) is Some ==> (e matches Error::NotImplemented(m) && m@
            == "HTTP/1.1 raw upgrade not supported by this handler; use actix-web"@),
{
    match plan_forward(router, host_header, None, None) {
        Err(e) => e,
        Ok(_) => Error::NotImplemented(
            owned("HTTP/1.1 raw upgrade not supported by this handler; use actix-web"),
        ),
    }
}

/// The error for a request that could not be forwarded, or whose answer
/// could not be read: a network error `upstream: <detail>`, which the proxy
/// answers with 502 Bad Gateway.
pub fn upstream_failure(detail: &str) -> (e: Error)
    ensures
        e matches Error::Network(m) && m@ == "upstream: "@ + detail@,
        status_of(e) == 502,
{
    let mut m = owned("upstream: ");
    push_str(&mut m, detail);
    Error::Network(m)
}

/// Hop-by-hop headers (RFC 7230 §6.1), which a proxy does not forward.
pub open spec fn hop_by_hop(name: Seq<char>) -> bool {
    name == "connection"@ || name == "keep-alive"@ || name == "proxy-authenticate"@ || name
        == "proxy-authorization"@ || name == "te"@ || name == "trailers"@ || name
        == "transfer-encoding"@ || name == "upgrade"@
}

/// Whether a request header goes on upstream: not hop-by-hop and not
/// `host`, compared without case.
pub fn forwarded_header(name: &str) -> (r: bool)
    ensures
        r == !(hop_by_hop(lower_seq(name@)) || lower_seq(name@) == "host"@),
{
    let l = to_lower(name);
    let s = l.as_str();
    !(crate::text::str_eq(s, "connection") || crate::text::str_eq(s, "keep-alive")
        || crate::text::str_eq(s, "proxy-authenticate") || crate::text::str_eq(
        s,
        "proxy-authorization",
    ) || crate::text::str_eq(s, "te") || crate::text::str_eq(s, "trailers")
        || crate::text::str_eq(s, "transfer-encoding") || crate::text::str_eq(s, "upgrade")
        || crate::text::str_eq(s, "host"))
}

/// The text of each header: its name and its value's bytes.
pub open spec fn header_texts(hs: Seq<(String, Vec<u8>)>) -> Seq<(Seq<char>, Seq<u8>)> {
    hs.map_values(|h: (String, Vec<u8>)| (h.0@, h.1@))
}

/// Whether a header of that name goes on upstream.
pub open spec fn forwarded_name(name: Seq<char>) -> bool {
    !(hop_by_hop(lower_seq(name)) || lower_seq(name) == "host"@)
}

/// The headers that go on upstream: every header whose name is forwarded,
/// with its value, in order; repeated names keep all their values.
pub open spec fn kept_headers(hs: Seq<(Seq<char>, Seq<u8>)>) -> Seq<(Seq<char>, Seq<u8>)>
    decreases hs.len(),
{
    if hs.len() == 0 {
        Seq::empty()
    } else if forwarded_name(hs.last().0) {
        kept_headers(hs.drop_last()).push(hs.last())
    } else {
        kept_headers(hs.drop_last())
    }
}

/// Strip hop-by-hop headers (RFC 7230 §6.1) and `host` from a request's
/// headers, keeping every other header with its value, in order.
pub fn strip_hop_by_hop(incoming: Vec<(String, Vec<u8>)>) -> (r: Vec<(String, Vec<u8>)>)
    ensures
        header_texts(r@) == kept_headers(header_texts(incoming@)),
{
    let ghost hs = header_texts(incoming@);
    let mut out: Vec<(String, Vec<u8>)> = Vec::new();
    let mut i: usize = 0;
    let n = incoming.len();
    let ghost all = incoming@;
    while i < n
        invariant
            n == all.len(),
            hs == header_texts(all),
            i <= n,
            header_texts(out@) == kept_headers(hs.take(i as int)),
            incoming@ == all,
        decreases n - i,
    {
        let name = incoming[i].0.clone();
        let value = incoming[i].1.clone();
        assert(value@ == all[i as int].1@);
        assert(hs.take(i + 1).drop_last() == hs.take(i as int));
        assert(hs.take(i + 1).last() == (all[i as int].0@, all[i as int].1@));
        let ghost prev = out@;
        if forwarded_header(name.as_str()) {
            out.push((name, value));
            assert(header_texts(out@) =~= header_texts(prev).push(hs[i as int]));
        }
        i += 1;
    }
    assert(hs.take(n as int) =~= hs);
    out
}

/// `s` with `&`, `<`, `>` and `"` written as HTML entities.
pub open spec fn html_escaped(s: Seq<char>) -> Seq<char>
    decreases s.len(),
{
    if s.len() == 0 {
        Seq::empty()
    } else {
        html_escaped(s.drop_last()) + {
            let c = s.last();
            if c == '&' {
                "&amp;"@
            } else if c == '<' {
                "&lt;"@
            } else if c == '>' {
                "&gt;"@
            } else if c == '"' {
                "&quot;"@
            } else {
                seq![c]
            }
        }
    }
}

/// Escape text for an HTML page.
pub fn html_escape(s: &str) -> (r: String)
    ensures
        r@ == html_escaped(s@),
{
    let v = chars_of(s);
    let mut r = String::new();
    let mut i: usize = 0;
    while i < v.len()
        invariant
            v@ == s@,
            i <= v@.len(),
            r@ == html_escaped(v@.take(i as int)),
        decreases v.len() - i,
    {
        let c = v[i];
        assert(v@.take(i + 1).drop_last() == v@.take(i as int));
        assert(v@.take(i + 1).last() == c);
        let ghost prev = r@;
        if c == '&' {
            push_str(&mut r, "&amp;");
        } else if c == '<' {
            push_str(&mut r, "&lt;");
        } else if c == '>' {
            push_str(&mut r, "&gt;");
        } else if c == '"' {
            push_str(&mut r, "&quot;");
        } else {
            r.push(c);
        }
        i += 1;
    }
    assert(v@.take(v@.len() as int) == v@);
    r
}

/// The page the proxy answers an error with: the status's reason phrase
/// as the title ("Error" for an unknown code), the escaped error text,
/// and a hint for developers.
pub open spec fn error_page_text(reason: Seq<char>, message: Seq<char>) -> Seq<char> {
    "<!DOCTYPE html>\n<html lang=\"en\"><head><meta charset=\"utf-8\"><title>"@ + reason
        + "</title>\n<meta name=\"viewport\" content=\"width=device-width, initial-scale=1\">\n<style>\n  body { font-family: -apple-system, BlinkMacSystemFont, \"Segoe UI\", Roboto, sans-serif;\n          padding: 4rem 1.5rem; max-width: 640px; margin: 0 auto; color: #1f2937;\n          line-height: 1.5; }\n  h1 { font-size: 1.5rem; margin: 0 0 1rem; font-weight: 600; }\n  p { margin: 0 0 1rem; }\n  code { background: #f3f4f6; padding: 0.1rem 0.35rem; border-radius: 0.25rem;\n          font-size: 0.9em; }\n  .hint { background: #f9fafb; border-left: 3px solid #d1d5db; padding: 0.75rem 1rem;\n           border-radius: 0.25rem; font-size: 0.9em; color: #4b5563; }\n</style></head>\n<body>\n<h1>"@
        + reason + "</h1>\n<p>"@ + html_escaped(message)
        + "</p>\n<div class=\"hint\">\n  If you are the developer: the dev server backing this route may be down, the\n  route may not be registered, or this proxy may be misconfigured.\n  Run <code>portless list</code> to inspect registered routes, or\n  <code>portless logs</code> to see proxy logs.\n</div>\n</body></html>"@
}

/// The status code and page for an error.
pub fn error_page(e: &Error) -> (r: (u16, String))
    ensures
        r.0 == status_of(*e),
        r.1@ == error_page_text(
            match http_reason(status_of(*e)) {
                Some(t) => t,
                None => "Error"@,
            },
            message_of(*e),
        ),
{
    let status = e.http_status();
    let reason = match reason_phrase(status) {
        Some(t) => t,
        None => owned("Error"),
    };
    let msg = e.to_string();
    let safe = html_escape(msg.as_str());
    let mut html = owned(
        "<!DOCTYPE html>\n<html lang=\"en\"><head><meta charset=\"utf-8\"><title>",
    );
    push_str(&mut html, reason.as_str());
    push_str(
        &mut html,
        "</title>\n<meta name=\"viewport\" content=\"width=device-width, initial-scale=1\">\n<style>\n  body { font-family: -apple-system, BlinkMacSystemFont, \"Segoe UI\", Roboto, sans-serif;\n          padding: 4rem 1.5rem; max-width: 640px; margin: 0 auto; color: #1f2937;\n          line-height: 1.5; }\n  h1 { font-size: 1.5rem; margin: 0 0 1rem; font-weight: 600; }\n  p { margin: 0 0 1rem; }\n  code { background: #f3f4f6; padding: 0.1rem 0.35rem; border-radius: 0.25rem;\n          font-size: 0.9em; }\n  .hint { background: #f9fafb; border-left: 3px solid #d1d5db; padding: 0.75rem 1rem;\n           border-radius: 0.25rem; font-size: 0.9em; color: #4b5563; }\n</style></head>\n<body>\n<h1>",
    );
    push_str(&mut html, reason.as_str());
    push_str(&mut html, "</h1>\n<p>");
    push_str(&mut html, safe.as_str());
    push_str(
        &mut html,
        "</p>\n<div class=\"hint\">\n  If you are the developer: the dev server backing this route may be down, the\n  route may not be registered, or this proxy may be misconfigured.\n  Run <code>portless list</code> to inspect registered routes, or\n  <code>portless logs</code> to see proxy logs.\n</div>\n</body></html>",
    );
    (status, html)
}

/// A static HTML page with a title and one paragraph.
pub open spec fn simple_page_text(title: Seq<char>, body: Seq<char>) -> Seq<char> {
    "<!DOCTYPE html>\n<html><head><meta charset=\"utf-8\"><title>"@ + title
        + "</title>\n<style>\nbody { font-family: -apple-system, BlinkMacSystemFont, \"Segoe UI\", sans-serif; padding: 4rem; max-width: 640px; margin: 0 auto; color: #1f2937; }\nh1 { font-size: 1.5rem; margin-bottom: 1rem; }\np { line-height: 1.5; }\ncode { background: #f3f4f6; padding: 0.1rem 0.3rem; border-radius: 0.25rem; }\n</style></head>\n<body><h1>"@
        + title + "</h1><p>"@ + body + "</p></body></html>"@
}

/// Render a static HTML error page.
pub fn simple_page(title: &str, body: &str) -> (r: String)
    ensures
        r@ == simple_page_text(title@, body@),
{
    let mut html = owned("<!DOCTYPE html>\n<html><head><meta charset=\"utf-8\"><title>");
    push_str(&mut html, title);
    push_str(
        &mut html,
        "</title>\n<style>\nbody { font-family: -apple-system, BlinkMacSystemFont, \"Segoe UI\", sans-serif; padding: 4rem; max-width: 640px; margin: 0 auto; color: #1f2937; }\nh1 { font-size: 1.5rem; margin-bottom: 1rem; }\np { line-height: 1.5; }\ncode { background: #f3f4f6; padding: 0.1rem 0.3rem; border-radius: 0.25rem; }\n</style></head>\n<body><h1>",
    );
    push_str(&mut html, title);
    push_str(&mut html, "</h1><p>");
    push_str(&mut html, body);
    push_str(&mut html, "</p></body></html>");
    html
}

/// Whether a connection's first bytes start a TLS handshake (a record of
/// type 22).
pub fn is_tls_hello(peek: &[u8], n: usize) -> (r: bool)
    requires
        n <= peek@.len(),
    ensures
        r == (n >= 1 && peek@[0] == 0x16),
{
    n >= 1 && peek[0] == 0x16
}

/// Configuration for the proxy server.
#[derive(Debug, Clone)]
pub struct ProxyConfig {
    /// The port to listen on (on all interfaces).
    pub port: u16,
    /// Whether to enable HTTPS.
    pub https: bool,
    /// TLD in use.
    pub tld: Tld,
    /// Wildcard routing.
    pub wildcard: bool,
    /// Custom cert path (overrides CA).
    pub cert: Option<String>,
    /// Custom key path (overrides CA).
    pub key: Option<String>,
}

impl ProxyConfig {
    /// The configuration the environment describes: `PORTLESS_PORT` (443
    /// for HTTPS, 80 for plain HTTP), HTTPS unless `PORTLESS_HTTPS=0`, `PORTLESS_TLD` (`localhost`),
    /// `PORTLESS_WILDCARD=1`, and the custom certificate and key.
    pub fn from_env(env: &Env) -> (r: Result<Self, Error>)
        ensures
            ({
                let t = match var(env.vars(), "PORTLESS_TLD"@) {
                    Some(t) => t,
                    None => "localhost"@,
                };
                &&& valid_tld(t) ==> r is Ok && r->Ok_0.port == match u16_var(
                    env.vars(),
                    "PORTLESS_PORT"@,
                ) {
                    Some(p) => p,
                    None => if is_value(env.vars(), "PORTLESS_HTTPS"@, "0"@) {
                        80
                    } else {
                        443
                    },
                } && r->Ok_0.https == !is_value(env.vars(), "PORTLESS_HTTPS"@, "0"@)
                    && r->Ok_0.tld@ == lower_seq(t) && r->Ok_0.wildcard == is_value(
                    env.vars(),
                    "PORTLESS_WILDCARD"@,
                    "1"@,
                ) && crate::routing::match_::opt_view(r->Ok_0.cert) == var(
                    env.vars(),
                    "PORTLESS_CERT"@,
                ) && crate::routing::match_::opt_view(r->Ok_0.key) == var(
                    env.vars(),
                    "PORTLESS_KEY"@,
                )
                &&& !valid_tld(t) ==> (r matches Err(Error::InvalidTld(m)) && tld_error(t) == Some(
                    m@,
                ))
            }),
    {
        let https = !env.https_disabled();
        let port = match env.port() {
            Some(p) => p,
            None => if https {
                443
            } else {
                80
            },
        };
        let t = match env.tld() {
            Some(t) => t,
            None => "localhost",
        };
        let tld = match Tld::new(t) {
            Ok(tld) => tld,
            Err(e) => return Err(e),
        };
        let wildcard = env.wildcard();
        Ok(ProxyConfig { port, https, tld, wildcard, cert: env.cert(), key: env.key() })
    }

    /// The address to listen on: all interfaces on the port.
    pub fn bind(&self) -> (r: String)
        ensures
            r@ == "0.0.0.0:"@ + decimal(self.port as nat),
    {
        let mut r = owned("0.0.0.0:");
        let p = decimal_string(self.port as u64);
        push_str(&mut r, p.as_str());
        r
    }

    /// The proxy state to save for this configuration.
    pub fn state(&self) -> (s: ProxyState)
        ensures
            s.https == self.https,
            s.port == self.port,
            s.tld@ == self.tld@,
            !s.lan,
            s.wildcard == self.wildcard,
            s.lan_ip is None,
            crate::routing::match_::opt_view(s.cert) == crate::routing::match_::opt_view(
                self.cert,
            ),
            crate::routing::match_::opt_view(s.key) == crate::routing::match_::opt_view(self.key),
    {
        ProxyState {
            https: self.https,
            port: self.port,
            tld: self.tld.copy(),
            lan: false,
            wildcard: self.wildcard,
            lan_ip: None,
            cert: crate::routing::match_::clone_opt(&self.cert),
            key: crate::routing::match_::clone_opt(&self.key),
        }
    }
}

} // verus!
