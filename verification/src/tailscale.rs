//! Tailscale integration (serve / funnel): the commands that register a
//! serve and what the answers of `tailscale status --json` mean.

use vstd::prelude::*;
use crate::common::error::Error;
use crate::process::spawn::texts;
use crate::text::{IntoText, chars_of, decimal, decimal_string, first_index, owned, push_str, string_of_range};

verus! {

/// The text before the first `.` (`str::split('.').next()`).
pub open spec fn first_label(s: Seq<char>) -> Seq<char> {
    s.take(first_index(s, '.'))
}

/// Tailscale integration.
#[derive(Debug)]
pub struct Tailscale {
    /// Path to the `tailscale` binary.
    bin: String,
}

/// What `tailscale status --json` said, as the decisions here read it.
#[derive(Debug, Clone)]
pub struct StatusFacts {
    /// Whether the command succeeded.
    pub ok: bool,
    /// The number of entries of `Certs`, when it is an array.
    pub certs: Option<usize>,
    /// `FunnelEnabled`, when it is a boolean.
    pub funnel_enabled: Option<bool>,
    /// `Self.DNSName`, when it is a string.
    pub dns_name: Option<String>,
}

/// The status lists at least one HTTPS certificate.
pub open spec fn certs_ok(f: StatusFacts) -> bool {
    f.ok && match f.certs {
        Some(n) => n > 0,
        None => false,
    }
}

/// The status says Funnel is on.
pub open spec fn funnel_ok(f: StatusFacts) -> bool {
    f.ok && f.funnel_enabled == Some(true)
}

/// `s` without trailing `c`s (`str::trim_end_matches`).
pub open spec fn trim_end_char(s: Seq<char>, c: char) -> Seq<char>
    decreases s.len(),
{
    if s.len() > 0 && s.last() == c {
        trim_end_char(s.drop_last(), c)
    } else {
        s
    }
}

/// `s` without trailing `c`s.
pub fn trim_end_char_exec(s: &str, c: char) -> (r: String)
    ensures
        r@ == trim_end_char(s@, c),
{
    let v = chars_of(s);
    let mut n = v.len();
    assert(v@.take(n as int) == v@);
    while n > 0 && v[n - 1] == c
        invariant
            n <= v@.len(),
            trim_end_char(v@.take(n as int), c) == trim_end_char(s@, c),
            v@ == s@,
        decreases n,
    {
        assert(v@.take(n as int).drop_last() == v@.take(n - 1));
        assert(v@.take(n as int).last() == v@[n - 1]);
        n -= 1;
    }
    if n > 0 {
        assert(v@.take(n as int).last() == v@[n - 1]);
    }
    assert(v@.subrange(0, n as int) == v@.take(n as int));
    string_of_range(&v, 0, n)
}

/// The arguments of `tailscale serve` for a local port: `serve --bg
/// --https <port>`, with `funnel` after `serve` for a public Funnel.
pub open spec fn serve_args_spec(port: u16, funnel: bool) -> Seq<Seq<char>> {
    if funnel {
        seq!["serve"@, "funnel"@, "--bg"@, "--https"@, decimal(port as nat)]
    } else {
        seq!["serve"@, "--bg"@, "--https"@, decimal(port as nat)]
    }
}

/// What `serde_json` reads from `bytes`: the parser's message when the
/// bytes are not JSON; else the number of entries of the top-level array
/// under `array_key`, the top-level boolean under `flag_key`, and the string
/// under `name_key` inside the top-level object under `object_key`, each
/// when it is there with that type.
pub uninterp spec fn status_json(
    bytes: Seq<u8>,
    array_key: Seq<char>,
    flag_key: Seq<char>,
    object_key: Seq<char>,
    name_key: Seq<char>,
) -> Result<(Option<nat>, Option<bool>, Option<Seq<char>>), Seq<char>>;

/// The plain view of what [`status_json_fields`] returns.
pub open spec fn fields_view(r: Result<(Option<usize>, Option<bool>, Option<String>), String>) -> Result<
    (Option<nat>, Option<bool>, Option<Seq<char>>),
    Seq<char>,
> {
    match r {
        Err(m) => Err(m@),
        Ok((c, f, d)) => Ok(
            (
                match c {
                    Some(n) => Some(n as nat),
                    None => None,
                },
                f,
                match d {
                    Some(x) => Some(x@),
                    None => None,
                },
            ),
        ),
    }
}

/// Parses `bytes` with `serde_json::from_slice` into a `serde_json::Value`
/// and reads it with `Value::get`, `as_array` (and the array's `len`),
/// `as_bool` and `as_str`. The contract only names the result.
#[verifier::external_body]
fn status_json_fields(
    bytes: &[u8],
    array_key: &str,
    flag_key: &str,
    object_key: &str,
    name_key: &str,
) -> (r: Result<(Option<usize>, Option<bool>, Option<String>), String>)
    ensures
        fields_view(r) == status_json(bytes@, array_key@, flag_key@, object_key@, name_key@),
{
    let v: serde_json::Value = serde_json::from_slice(bytes).map_err(|e| e.to_string())?;
    Ok((
        v.get(array_key).and_then(|c| c.as_array()).map(|a| a.len()),
        v.get(flag_key).and_then(|f| f.as_bool()),
        v.get(object_key).and_then(|s| s.get(name_key)).and_then(|n| n.as_str()).map(String::from),
    ))
}

/// What `tailscale status --json` says, from the output's fields: `Certs`,
/// `FunnelEnabled` and `Self.DNSName`.
pub open spec fn status_of_output(stdout: Seq<u8>) -> Result<(Option<nat>, Option<bool>, Option<Seq<char>>), Seq<char>> {
    status_json(stdout, "Certs"@, "FunnelEnabled"@, "Self"@, "DNSName"@)
}

/// The facts of a `tailscale status --json` run: nothing but the failure
/// when the command failed; else the fields of its output, or a JSON error
/// when the output is not JSON.
pub fn status_facts(succeeded: bool, stdout: &[u8]) -> (r: Result<StatusFacts, Error>)
    ensures
        !succeeded ==> (r matches Ok(f) && !f.ok && f.certs is None && f.funnel_enabled is None
            && f.dns_name is None),
        succeeded ==> match status_of_output(stdout@) {
            Err(m) => r matches Err(Error::Json(t)) && t@ == m,
            Ok((c, fe, d)) => r matches Ok(f) && f.ok && (match f.certs {
                Some(n) => Some(n as nat),
                None => None,
            }) == c && f.funnel_enabled == fe && (match f.dns_name {
                Some(x) => Some(x@),
                None => None,
            }) == d,
        },
{
    if !succeeded {
        return Ok(StatusFacts { ok: false, certs: None, funnel_enabled: None, dns_name: None });
    }
    match status_json_fields(stdout, "Certs", "FunnelEnabled", "Self", "DNSName") {
        Err(m) => Err(Error::Json(m)),
        Ok((certs, funnel_enabled, dns_name)) => Ok(
            StatusFacts { ok: true, certs, funnel_enabled, dns_name },
        ),
    }
}

impl Tailscale {
    /// The binary's path.
    pub closed spec fn bin_view(&self) -> Seq<char> {
        self.bin@
    }

    /// Construct from an explicit binary path.
    pub fn with_path<S: IntoText>(p: S) -> (t: Self)
        ensures
            t.bin_view() == p.text_view(),
    {
        Tailscale { bin: p.into_text() }
    }

    /// The binary's path.
    pub fn bin(&self) -> (r: &str)
        ensures
            r@ == self.bin_view(),
    {
        self.bin.as_str()
    }

    /// Whether HTTPS certificates are enabled: the status succeeded and
    /// lists at least one certificate.
    pub fn https_enabled(facts: &StatusFacts) -> (r: bool)
        ensures
            r == (certs_ok(*facts)),
    {
        facts.ok && match facts.certs {
            Some(n) => n > 0,
            None => false,
        }
    }

    /// Whether Funnel is enabled: the status succeeded and says so.
    pub fn funnel_enabled(facts: &StatusFacts) -> (r: bool)
        ensures
            r == funnel_ok(*facts),
    {
        facts.ok && match facts.funnel_enabled {
            Some(b) => b,
            None => false,
        }
    }

    /// Pre-flight: HTTPS certificates must be enabled, and Funnel too when
    /// it is asked for.
    pub fn preflight(facts: &StatusFacts, funnel: bool) -> (r: Result<(), Error>)
        ensures
            !(certs_ok(*facts)) ==> (r matches Err(
                Error::Tailscale(m),
            ) && m@
                == "Tailscale HTTPS certificates are not enabled; run `tailscale cert` or enable in the admin console"@),
            (certs_ok(*facts)) && funnel && !funnel_ok(*facts) ==> (r matches Err(Error::Tailscale(m))
                && m@ == "Tailscale Funnel is not enabled; enable it in the admin console"@),
            (certs_ok(*facts)) && (!funnel || funnel_ok(*facts)) ==> r is Ok,
    {
        if !Tailscale::https_enabled(facts) {
            return Err(
                Error::Tailscale(
                    owned(
                        "Tailscale HTTPS certificates are not enabled; run `tailscale cert` or enable in the admin console",
                    ),
                ),
            );
        }
        if funnel && !Tailscale::funnel_enabled(facts) {
            return Err(
                Error::Tailscale(owned("Tailscale Funnel is not enabled; enable it in the admin console")),
            );
        }
        Ok(())
    }

    /// The arguments that register a serve for `local_port`.
    pub fn serve_args(local_port: u16, funnel: bool) -> (r: Vec<String>)
        ensures
            texts(r@) == serve_args_spec(local_port, funnel),
    {
        let mut args: Vec<String> = Vec::new();
        args.push(owned("serve"));
        if funnel {
            args.push(owned("funnel"));
        }
        args.push(owned("--bg"));
        args.push(owned("--https"));
        args.push(decimal_string(local_port as u64));
        assert(texts(args@) =~= serve_args_spec(local_port, funnel));
        args
    }

    /// The error for a serve that failed.
    pub fn serve_failed(hostname: &str) -> (e: Error)
        ensures
            e matches Error::Tailscale(m) && m@ == "tailscale serve failed for "@ + hostname@,
    {
        let mut m = owned("tailscale serve failed for ");
        push_str(&mut m, hostname);
        Error::Tailscale(m)
    }

    /// The node's tailnet name from the status: its DNS name without the
    /// trailing dots.
    pub fn tailnet_name(facts: &StatusFacts) -> (r: Result<String, Error>)
        ensures
            !facts.ok ==> (r matches Err(Error::Tailscale(m)) && m@ == "tailscale status failed"@),
            facts.ok && facts.dns_name is None ==> (r matches Err(Error::Tailscale(m)) && m@
                == "missing Self.DNSName"@),
            facts.ok && facts.dns_name is Some ==> r is Ok && r->Ok_0@ == trim_end_char(
                facts.dns_name->Some_0@,
                '.',
            ),
    {
        if !facts.ok {
            return Err(Error::Tailscale(owned("tailscale status failed")));
        }
        match &facts.dns_name {
            Some(n) => Ok(trim_end_char_exec(n.as_str(), '.')),
            None => Err(Error::Tailscale(owned("missing Self.DNSName"))),
        }
    }

    /// The public URL of a served hostname: `https://<first label>.<tailnet>`,
    /// the tailnet falling back to `ts.net` when its name is unknown.
    pub fn serve_url(&self, hostname: &str, tailnet: Option<&str>) -> (r: Result<
        Option<String>,
        Error,
    >)
        ensures
            r is Ok && r->Ok_0 is Some && r->Ok_0->Some_0@ == "https://"@ + first_label(hostname@)
                + "."@ + match tailnet {
                Some(t) => t@,
                None => "ts.net"@,
            },
    {
        let v = chars_of(hostname);
        let k = crate::text::find_char(&v, '.');
        proof {
            crate::text::lemma_first_index(hostname@, '.');
        }
        let short = string_of_range(&v, 0, k);
        assert(v@.subrange(0, k as int) == first_label(hostname@));
        let mut url = owned("https://");
        push_str(&mut url, short.as_str());
        push_str(&mut url, ".");
        match tailnet {
            Some(t) => push_str(&mut url, t),
            None => push_str(&mut url, "ts.net"),
        }
        Ok(Some(url))
    }
}

} // verus!
