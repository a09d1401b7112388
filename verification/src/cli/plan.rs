//! What each command decides before and after its side effects: which
//! settings win, what to run, what to report.

use vstd::prelude::*;
use crate::common::error::Error;
use crate::config::env::{Env, is_value, u16_var, var};
use crate::config::portless_json::PortlessConfig;
use crate::discovery::monorepo::Workspace;
use crate::discovery::project::Project;
use crate::hosts::{HostsLine, LineText, line_text};
use crate::process::spawn::texts;
use crate::routing::match_::{Route, RouteView};
use crate::routing::tld::Tld;
use crate::state::proxy_state::ProxyState;
use crate::text::{
    chars_of, decimal, decimal_string, ends_with, joined, owned, parse_uint, push_str, trimmed,
};

verus! {

// ---------------------------------------------------------------------------
// Dispatch
// ---------------------------------------------------------------------------

/// The message when `PORTLESS=0` reaches the global flag.
pub open spec fn bypass_message() -> Seq<char> {
    "PORTLESS=0 detected: cannot be set in the global flag path; use `portless run --bypass` (not implemented) or unset the env var"@
}

/// `PORTLESS=0` in the global flag is refused.
pub fn check_bypass(bypass: Option<&str>) -> (r: Result<(), Error>)
    ensures
        match bypass {
            Some(b) => if b@ == "0"@ {
                r matches Err(Error::Config(m)) && m@ == bypass_message()
            } else {
                r is Ok
            },
            None => r is Ok,
        },
{
    match bypass {
        Some(b) => if crate::text::str_eq(b, "0") {
            Err(
                Error::Config(
                    owned(
                        "PORTLESS=0 detected: cannot be set in the global flag path; use `portless run --bypass` (not implemented) or unset the env var",
                    ),
                ),
            )
        } else {
            Ok(())
        },
        None => Ok(()),
    }
}

/// The log level for a verbosity count.
pub open spec fn level_for(verbosity: u8) -> Seq<char> {
    if verbosity == 0 {
        "warn"@
    } else if verbosity == 1 {
        "info"@
    } else if verbosity == 2 {
        "debug"@
    } else {
        "trace"@
    }
}

/// The default log level: `-v` for info, `-vv` for debug, more for trace.
pub fn tracing_level(verbosity: u8) -> (r: &'static str)
    ensures
        r@ == level_for(verbosity),
{
    if verbosity == 0 {
        "warn"
    } else if verbosity == 1 {
        "info"
    } else if verbosity == 2 {
        "debug"
    } else {
        "trace"
    }
}

/// `portless <name> <cmd...>`: the name and the command.
pub fn split_positional(args: Vec<String>) -> (r: Result<(String, Vec<String>), Error>)
    ensures
        args@.len() == 0 ==> (r matches Err(Error::Config(m)) && m@ == "missing app name"@),
        args@.len() > 0 ==> r is Ok && r->Ok_0.0 == args@[0] && r->Ok_0.1@ == args@.drop_first(),
{
    if args.len() == 0 {
        return Err(Error::Config(owned("missing app name")));
    }
    let mut rest = args;
    let name = rest.remove(0);
    Ok((name, rest))
}

/// A named run needs a command.
pub fn check_named_command(cmd: &Vec<String>) -> (r: Result<(), Error>)
    ensures
        cmd@.len() == 0 ==> (r matches Err(Error::Config(m)) && m@ == "missing command"@),
        cmd@.len() > 0 ==> r is Ok,
{
    if cmd.len() == 0 {
        Err(Error::Config(owned("missing command")))
    } else {
        Ok(())
    }
}

// ---------------------------------------------------------------------------
// Running without arguments
// ---------------------------------------------------------------------------

/// What `portless` with no arguments does in a directory.
#[derive(Debug)]
pub enum ZeroArgPlan {
    /// Nothing here can be run: explain how to pass a command.
    NoProject,
    /// A monorepo: start its workspaces.
    Monorepo,
    /// A JavaScript project without the script to run.
    MissingScript {
        /// The script that was looked for.
        script: String,
        /// The scripts there are, joined with `, `.
        available: String,
    },
    /// Run the script.
    Run {
        /// The script.
        script: String,
    },
}

/// Whether the configuration names an app or a script.
pub open spec fn configured(cfg: PortlessConfig) -> bool {
    cfg.name is Some || cfg.script is Some
}

/// The script the configuration runs.
pub open spec fn script_of(cfg: PortlessConfig) -> Seq<char> {
    match cfg.script {
        Some(s) => s@,
        None => "dev"@,
    }
}

/// Decide what `portless` alone does: nothing without scripts,
/// configuration or a recognised ecosystem; the workspaces of a monorepo;
/// else the configured script, which a JavaScript project without
/// configuration must define.
pub fn zero_arg_plan(cfg: &PortlessConfig, project: &Project) -> (p: ZeroArgPlan)
    ensures
        ({
            let has_js = project.scripts.map().len() > 0;
            let has_cfg = configured(*cfg);
            if !has_js && !has_cfg && project.framework is None {
                p is NoProject
            } else if project.kind is Monorepo {
                p is Monorepo
            } else if has_js && !project.scripts.map().contains_key(script_of(*cfg)) && !has_cfg {
                p matches ZeroArgPlan::MissingScript { script, available } && script@ == script_of(
                    *cfg,
                ) && available@ == joined(
                    crate::text_map::keys_of(project.scripts.entries_seq()),
                    ", "@,
                )
            } else {
                p matches ZeroArgPlan::Run { script } && script@ == script_of(*cfg)
            }
        }),
{
    let n = project.scripts.len();
    proof {
        crate::text_map::lemma_map_len(project.scripts.entries_seq());
    }
    let has_js = n > 0;
    let has_cfg = cfg.name.is_some() || cfg.script.is_some();
    if !has_js && !has_cfg && project.framework.is_none() {
        return ZeroArgPlan::NoProject;
    }
    if project.is_monorepo() {
        return ZeroArgPlan::Monorepo;
    }
    let script = cfg.effective_script();
    if has_js && !project.has_script(script.as_str()) && !has_cfg {
        let available = script_names(project);
        return ZeroArgPlan::MissingScript { script, available };
    }
    ZeroArgPlan::Run { script }
}

/// The project's script names in order, joined with `, `.
fn script_names(project: &Project) -> (r: String)
    ensures
        r@ == joined(crate::text_map::keys_of(project.scripts.entries_seq()), ", "@),
{
    let n = project.scripts.len();
    let ghost ks = crate::text_map::keys_of(project.scripts.entries_seq());
    let mut names: Vec<String> = Vec::new();
    let mut i: usize = 0;
    while i < n
        invariant
            n == project.scripts.entries_seq().len(),
            ks == crate::text_map::keys_of(project.scripts.entries_seq()),
            i <= n,
            texts(names@) == ks.take(i as int),
        decreases n - i,
    {
        let e = project.scripts.entry(i);
        let ghost prev = names@;
        names.push(e.0.clone());
        assert(ks.take(i + 1) == ks.take(i as int).push(ks[i as int]));
        assert(texts(names@) =~= texts(prev).push(e.0@));
        i += 1;
    }
    assert(ks.take(n as int) == ks);
    assert(names@.map_values(|x: String| x@) =~= texts(names@));
    crate::text::join_strings(&names, ", ")
}

/// The lines announcing the workspaces a monorepo starts: each with a
/// `dev` script, by path and package name.
pub open spec fn monorepo_start_lines(ws: Seq<Workspace>) -> Seq<Seq<char>>
    decreases ws.len(),
{
    if ws.len() == 0 {
        Seq::empty()
    } else {
        let w = ws.last();
        let rest = monorepo_start_lines(ws.drop_last());
        if w.scripts.map().contains_key("dev"@) {
            rest.push(
                "starting "@ + w.rel_path@ + " ("@ + match w.name {
                    Some(n) => n@,
                    None => Seq::empty(),
                } + ")"@,
            )
        } else {
            rest
        }
    }
}

/// The workspaces a monorepo starts, as announcement lines; none means
/// there is nothing to start.
pub fn monorepo_starts(ws: &Vec<Workspace>) -> (r: Vec<String>)
    ensures
        texts(r@) == monorepo_start_lines(ws@),
{
    let mut r: Vec<String> = Vec::new();
    let mut i: usize = 0;
    while i < ws.len()
        invariant
            i <= ws@.len(),
            texts(r@) == monorepo_start_lines(ws@.take(i as int)),
        decreases ws.len() - i,
    {
        let w = &ws[i];
        assert(ws@.take(i + 1).drop_last() == ws@.take(i as int));
        assert(ws@.take(i + 1).last() == *w);
        let ghost prev = r@;
        if w.scripts.contains_key("dev") {
            let mut line = owned("starting ");
            push_str(&mut line, w.rel_path.as_str());
            push_str(&mut line, " (");
            match &w.name {
                Some(n) => push_str(&mut line, n.as_str()),
                None => {},
            }
            push_str(&mut line, ")");
            let ghost lv = line@;
            r.push(line);
            assert(lv =~= "starting "@ + w.rel_path@ + " ("@ + match w.name {
                Some(n) => n@,
                None => Seq::empty(),
            } + ")"@);
            assert(texts(r@) =~= texts(prev).push(lv));
        }
        i += 1;
    }
    assert(ws@.take(ws@.len() as int) == ws@);
    r
}

// ---------------------------------------------------------------------------
// Starting the proxy on demand
// ---------------------------------------------------------------------------

/// The port an auto-started proxy listens on: `PORTLESS_PORT`, else the
/// saved port, else 80 without HTTPS and 443 with it.
pub open spec fn autostart_port(vars: Map<Seq<char>, Seq<char>>, state: ProxyState) -> u16 {
    match u16_var(vars, "PORTLESS_PORT"@) {
        Some(p) => p,
        None => if state.port != 0 {
            state.port
        } else if is_value(vars, "PORTLESS_HTTPS"@, "0"@) {
            80
        } else {
            443
        },
    }
}

/// The TLD an auto-started proxy uses: `PORTLESS_TLD`, else the saved
/// TLD, else `localhost`.
pub open spec fn autostart_tld(vars: Map<Seq<char>, Seq<char>>, state: ProxyState) -> Seq<char> {
    match var(vars, "PORTLESS_TLD"@) {
        Some(t) => t,
        None => if state.tld@.len() > 0 {
            state.tld@
        } else {
            "localhost"@
        },
    }
}

/// Whether an auto-started proxy serves HTTPS: off with `PORTLESS_HTTPS=0`,
/// on with `PORTLESS_HTTPS=1`, else as saved, else on.
pub open spec fn autostart_https(vars: Map<Seq<char>, Seq<char>>, state: ProxyState) -> bool {
    if is_value(vars, "PORTLESS_HTTPS"@, "0"@) {
        false
    } else if is_value(vars, "PORTLESS_HTTPS"@, "1"@) {
        true
    } else if state.port != 0 {
        state.https
    } else {
        true
    }
}

/// The arguments that start the proxy in the foreground.
pub open spec fn autostart_args(port: u16, tld: Seq<char>, https: bool) -> Seq<Seq<char>> {
    seq!["proxy"@, "start"@] + (if https {
        Seq::empty()
    } else {
        seq!["--no-tls"@]
    }) + seq!["--port"@, decimal(port as nat), "--tld"@, tld, "--foreground"@]
}

/// How to auto-start the proxy: its port, TLD, HTTPS setting and the
/// arguments to start it with.
pub fn autostart_plan(env: &Env, state: &ProxyState) -> (r: (u16, String, bool, Vec<String>))
    ensures
        r.0 == autostart_port(env.vars(), *state),
        r.1@ == autostart_tld(env.vars(), *state),
        r.2 == autostart_https(env.vars(), *state),
        texts(r.3@) == autostart_args(r.0, r.1@, r.2),
{
    let port = match env.port() {
        Some(p) => p,
        None => if state.port != 0 {
            state.port
        } else if env.https_disabled() {
            80
        } else {
            443
        },
    };
    let tld = match env.tld() {
        Some(t) => owned(t),
        None => if !state.tld.as_str().is_empty() {
            owned(state.tld.as_str())
        } else {
            owned("localhost")
        },
    };
    let https = if env.https_disabled() {
        false
    } else if env.https_forced() {
        true
    } else if state.port != 0 {
        state.https
    } else {
        true
    };
    let mut args: Vec<String> = Vec::new();
    args.push(owned("proxy"));
    args.push(owned("start"));
    if !https {
        args.push(owned("--no-tls"));
    }
    args.push(owned("--port"));
    args.push(decimal_string(port as u64));
    args.push(owned("--tld"));
    args.push(owned(tld.as_str()));
    args.push(owned("--foreground"));
    assert(texts(args@) =~= autostart_args(port, tld@, https));
    (port, tld, https, args)
}

// ---------------------------------------------------------------------------
// Running an app
// ---------------------------------------------------------------------------

/// What `portless run` runs: the given command, or `<runner> run
/// <script>` without one.
pub fn run_target(cmd: &Vec<String>, runner: &str, script: &str) -> (r: (String, Vec<String>))
    ensures
        cmd@.len() == 0 ==> r.0@ == runner@ && texts(r.1@) == seq!["run"@, script@],
        cmd@.len() > 0 ==> r.0@ == cmd@[0]@ && texts(r.1@) == texts(cmd@.drop_first()),
{
    if cmd.len() == 0 {
        let mut args: Vec<String> = Vec::new();
        args.push(owned("run"));
        args.push(owned(script));
        assert(texts(args@) =~= seq!["run"@, script@]);
        (owned(runner), args)
    } else {
        let mut args: Vec<String> = Vec::new();
        let mut i: usize = 1;
        while i < cmd.len()
            invariant
                1 <= i <= cmd@.len(),
                texts(args@) == texts(cmd@.drop_first()).take(i - 1),
            decreases cmd.len() - i,
        {
            let ghost prev = args@;
            args.push(cmd[i].clone());
            assert(texts(cmd@.drop_first()).take(i as int) == texts(cmd@.drop_first()).take(
                i - 1,
            ).push(cmd@[i as int]@));
            assert(texts(args@) =~= texts(prev).push(cmd@[i as int]@));
            i += 1;
        }
        assert(texts(cmd@.drop_first()).take(cmd@.len() - 1) == texts(cmd@.drop_first()));
        (cmd[0].clone(), args)
    }
}

/// The port of a run app: `PORTLESS_APP_PORT`, else the configured one,
/// else the free port found (4000 when none was).
pub fn choose_app_port(env_port: Option<u16>, cfg_port: Option<u16>, free: Option<u16>) -> (p: u16)
    ensures
        p == match env_port {
            Some(e) => e,
            None => match cfg_port {
                Some(c) => c,
                None => match free {
                    Some(f) => f,
                    None => 4000,
                },
            },
        },
{
    match env_port {
        Some(e) => e,
        None => match cfg_port {
            Some(c) => c,
            None => match free {
                Some(f) => f,
                None => 4000,
            },
        },
    }
}

/// Before registering a route: a taken hostname is an error without
/// `force`; with it, the owning process (when it has one) is to be
/// stopped first.
pub fn route_conflict(existing: Option<&Route>, full_host: &str, force: bool) -> (r: Result<
    Option<u32>,
    Error,
>)
    ensures
        existing is None ==> r == Ok::<Option<u32>, Error>(None),
        existing is Some && !force ==> (r matches Err(Error::RouteExists(h)) && h@ == full_host@),
        existing is Some && force ==> r is Ok && r->Ok_0 == if existing->Some_0.pid != 0 {
            Some(existing->Some_0.pid)
        } else {
            None
        },
{
    match existing {
        None => Ok(None),
        Some(e) => if !force {
            Err(Error::RouteExists(owned(full_host)))
        } else if e.pid != 0 {
            Ok(Some(e.pid))
        } else {
            Ok(None)
        },
    }
}

/// The exit code of a finished child: its status code, else the signal
/// that ended it, else 1.
pub fn exit_code_of(code: Option<i32>, signal: Option<i32>) -> (r: i32)
    ensures
        r == match code {
            Some(c) => c,
            None => match signal {
                Some(s) => s,
                None => 1,
            },
        },
{
    match code {
        Some(c) => c,
        None => match signal {
            Some(s) => s,
            None => 1,
        },
    }
}

/// The TLD and HTTPS setting `portless get` prints a URL with: the saved
/// proxy state's when it has a TLD, else `PORTLESS_TLD` (or `localhost`)
/// and HTTPS unless `PORTLESS_HTTPS=0`.
pub fn get_settings(saved: Option<&ProxyState>, env: &Env) -> (r: Result<(Tld, bool), Error>)
    ensures
        saved matches Some(s) && s.tld@.len() > 0 ==> r is Ok && r->Ok_0.0@ == saved->Some_0.tld@
            && r->Ok_0.1 == saved->Some_0.https,
        (saved is None || saved->Some_0.tld@.len() == 0) ==> ({
            let t = match var(env.vars(), "PORTLESS_TLD"@) {
                Some(t) => t,
                None => "localhost"@,
            };
            &&& crate::routing::tld::valid_tld(t) ==> r is Ok && r->Ok_0.0@
                == crate::text::lower_seq(t) && r->Ok_0.1 == !is_value(
                env.vars(),
                "PORTLESS_HTTPS"@,
                "0"@,
            )
            &&& !crate::routing::tld::valid_tld(t) ==> (r matches Err(Error::InvalidTld(m))
                && crate::routing::tld::tld_error(t) == Some(m@))
        }),
{
    match saved {
        Some(s) => if !s.tld.as_str().is_empty() {
            return Ok((s.tld.copy(), s.https));
        },
        None => {},
    }
    let t = match env.tld() {
        Some(t) => t,
        None => "localhost",
    };
    match Tld::new(t) {
        Ok(tld) => Ok((tld, !env.https_disabled())),
        Err(e) => Err(e),
    }
}

/// The route of `portless alias <name> <port>`; a missing port is an error.
pub fn alias_route(name: &str, port: Option<u16>, tld: &str) -> (r: Result<Route, Error>)
    ensures
        port is None ==> (r matches Err(Error::Config(m)) && m@ == "missing port"@),
        port is Some ==> r is Ok && r->Ok_0.hostname@ == crate::cli::commands::alias_spec(
            name@,
            tld@,
        ) && r->Ok_0.port == port->Some_0 && r->Ok_0.alias && r->Ok_0.pid == 0,
{
    match port {
        None => Err(Error::Config(owned("missing port"))),
        Some(p) => {
            let host = crate::cli::commands::alias_name(name, tld);
            Ok(Route::alias(host, p))
        },
    }
}

/// Removing an alias that is not there is an error naming it.
pub fn alias_removed(name: &str, removed: bool) -> (r: Result<(), Error>)
    ensures
        !removed ==> (r matches Err(Error::RouteNotFound(m)) && m@ == name@),
        removed ==> r is Ok,
{
    if removed {
        Ok(())
    } else {
        Err(Error::RouteNotFound(owned(name)))
    }
}

// ---------------------------------------------------------------------------
// Listing, pruning, hosts and proxy status
// ---------------------------------------------------------------------------

/// `s` padded with spaces on the right to `w` characters.
pub open spec fn pad_right(s: Seq<char>, w: nat) -> Seq<char> {
    if s.len() >= w {
        s
    } else {
        s + Seq::new((w - s.len()) as nat, |i: int| ' ')
    }
}

/// `s` padded with spaces on the left to `w` characters.
pub open spec fn pad_left(s: Seq<char>, w: nat) -> Seq<char> {
    if s.len() >= w {
        s
    } else {
        Seq::new((w - s.len()) as nat, |i: int| ' ') + s
    }
}

/// `w - n` spaces (none when `n >= w`).
fn spaces(n: usize, w: usize) -> (r: String)
    ensures
        r@ == if n >= w {
            Seq::<char>::empty()
        } else {
            Seq::new((w - n) as nat, |i: int| ' ')
        },
{
    let mut r = String::new();
    if n >= w {
        assert(r@ =~= Seq::<char>::empty());
        return r;
    }
    let mut k = n;
    assert(r@ =~= Seq::new(0nat, |i: int| ' '));
    while k < w
        invariant
            n < w,
            n <= k <= w,
            r@ == Seq::new((k - n) as nat, |i: int| ' '),
        decreases w - k,
    {
        r.push(' ');
        assert(r@ =~= Seq::new((k + 1 - n) as nat, |i: int| ' '));
        k += 1;
    }
    r
}

/// The header of `portless list`.
pub open spec fn list_header() -> Seq<char> {
    pad_right("HOSTNAME"@, 32) + " "@ + pad_left("PORT"@, 6) + "  "@ + pad_left("PID"@, 8)
        + "  COMMAND"@
}

/// One row of `portless list`: hostname, port, pid and command (`<alias>`
/// for an alias without one).
pub open spec fn list_row(r: RouteView) -> Seq<char> {
    let cmd = match r.command {
        Some(c) => c,
        None => if r.alias {
            "<alias>"@
        } else {
            Seq::empty()
        },
    };
    pad_right(r.hostname, 32) + " "@ + pad_left(decimal(r.port as nat), 6) + "  "@ + pad_left(
        decimal(r.pid as nat),
        8,
    ) + "  "@ + cmd
}

/// Pad on the right.
fn pad_right_exec(s: &str, w: usize) -> (r: String)
    ensures
        r@ == pad_right(s@, w as nat),
{
    let n = chars_of(s).len();
    let mut r = owned(s);
    let sp = spaces(n, w);
    push_str(&mut r, sp.as_str());
    if n >= w {
        assert(r@ =~= s@);
    }
    r
}

/// Pad on the left.
fn pad_left_exec(s: &str, w: usize) -> (r: String)
    ensures
        r@ == pad_left(s@, w as nat),
{
    let n = chars_of(s).len();
    let mut r = spaces(n, w);
    push_str(&mut r, s);
    if n >= w {
        assert(r@ =~= s@);
    }
    r
}

/// The lines of `portless list`: the header, then a row per route; or a
/// note that there are none.
pub fn list_lines(routes: &Vec<Route>) -> (r: Vec<String>)
    ensures
        routes@.len() == 0 ==> texts(r@) == seq!["(no routes registered)"@],
        routes@.len() > 0 ==> r@.len() == routes@.len() + 1 && r@[0]@ == list_header() && forall|
            i: int,
        |
            0 <= i < routes@.len() ==> #[trigger] r@[i + 1]@ == list_row(routes@[i]@),
{
    let mut r: Vec<String> = Vec::new();
    if routes.len() == 0 {
        r.push(owned("(no routes registered)"));
        assert(texts(r@) =~= seq!["(no routes registered)"@]);
        return r;
    }
    let mut h = pad_right_exec("HOSTNAME", 32);
    push_str(&mut h, " ");
    let p = pad_left_exec("PORT", 6);
    push_str(&mut h, p.as_str());
    push_str(&mut h, "  ");
    let q = pad_left_exec("PID", 8);
    push_str(&mut h, q.as_str());
    push_str(&mut h, "  COMMAND");
    r.push(h);
    let mut i: usize = 0;
    while i < routes.len()
        invariant
            i <= routes@.len(),
            r@.len() == i + 1,
            r@[0]@ == list_header(),
            forall|j: int| 0 <= j < i ==> #[trigger] r@[j + 1]@ == list_row(routes@[j]@),
        decreases routes.len() - i,
    {
        let route = &routes[i];
        let mut line = pad_right_exec(route.hostname.as_str(), 32);
        push_str(&mut line, " ");
        let ps = decimal_string(route.port as u64);
        let pp = pad_left_exec(ps.as_str(), 6);
        push_str(&mut line, pp.as_str());
        push_str(&mut line, "  ");
        let ds = decimal_string(route.pid as u64);
        let dp = pad_left_exec(ds.as_str(), 8);
        push_str(&mut line, dp.as_str());
        push_str(&mut line, "  ");
        match &route.command {
            Some(c) => push_str(&mut line, c.as_str()),
            None => if route.alias {
                push_str(&mut line, "<alias>");
            },
        }
        assert(line@ =~= list_row(route@));
        r.push(line);
        i += 1;
    }
    r
}

/// A trailing digit or dot, as the log sweep strips them.
pub open spec fn digit_or_dot(c: char) -> bool {
    ('0' <= c && c <= '9') || c == '.'
}

/// `s` without its trailing digits and dots.
pub open spec fn trim_rotation(s: Seq<char>) -> Seq<char>
    decreases s.len(),
{
    if s.len() > 0 && digit_or_dot(s.last()) {
        trim_rotation(s.drop_last())
    } else {
        s
    }
}

/// A log file whose app is gone: it ends in `.log` and, without that and
/// its rotation suffix, names no live hostname.
pub open spec fn stale_log_spec(name: Seq<char>, live: Seq<Seq<char>>) -> bool {
    ends_with(name, ".log"@) && !live.contains(trim_rotation(name.take(name.len() - 4)))
}

/// Whether a log file in the logs directory belongs to no live app.
pub fn is_stale_log(name: &str, live: &Vec<String>) -> (r: bool)
    ensures
        r == stale_log_spec(name@, texts(live@)),
{
    let v = chars_of(name);
    let suffix = chars_of(".log");
    proof {
        reveal_strlit(".log");
    }
    assert(suffix@.len() == 4);
    if !crate::text::vec_ends_with(&v, &suffix) {
        return false;
    }
    let mut n = v.len() - 4;
    assert(v@.take(n as int) == v@.take(v@.len() - 4));
    while n > 0 && (('0' <= v[n - 1] && v[n - 1] <= '9') || v[n - 1] == '.')
        invariant
            n <= v@.len() - 4,
            v@.len() >= 4,
            trim_rotation(v@.take(n as int)) == trim_rotation(v@.take(v@.len() - 4)),
        decreases n,
    {
        assert(v@.take(n as int).drop_last() == v@.take(n - 1));
        assert(v@.take(n as int).last() == v@[n - 1]);
        n -= 1;
    }
    if n > 0 {
        assert(v@.take(n as int).last() == v@[n - 1]);
    }
    let stem = crate::text::string_of_range(&v, 0, n);
    assert(v@.subrange(0, n as int) == v@.take(n as int));
    !crate::process::spawn::contains_text(live, stem.as_str())
}

/// The hosts-file lines for registered hostnames: each on `127.0.0.1`.
pub fn hosts_entries(routes: &Vec<Route>) -> (r: Vec<HostsLine>)
    ensures
        r@.len() == routes@.len(),
        forall|i: int|
            0 <= i < routes@.len() ==> #[trigger] line_text(r@[i]) == (
                "127.0.0.1"@,
                seq![routes@[i].hostname@],
            ),
{
    let mut r: Vec<HostsLine> = Vec::new();
    let mut i: usize = 0;
    while i < routes.len()
        invariant
            i <= routes@.len(),
            r@.len() == i,
            forall|j: int|
                0 <= j < i ==> #[trigger] line_text(r@[j]) == (
                    "127.0.0.1"@,
                    seq![routes@[j].hostname@],
                ),
        decreases routes.len() - i,
    {
        let mut names: Vec<String> = Vec::new();
        names.push(routes[i].hostname.clone());
        let line = HostsLine { ip: owned("127.0.0.1"), hostnames: names };
        assert(crate::routing::match_::strings_view(line.hostnames@) =~= seq![routes@[i as int].hostname@]);
        r.push(line);
        i += 1;
    }
    r
}

/// The address the proxy binds: all interfaces on `port`.
pub fn bind_address(port: u16) -> (r: String)
    ensures
        r@ == "0.0.0.0:"@ + decimal(port as nat),
{
    let mut r = owned("0.0.0.0:");
    let p = decimal_string(port as u64);
    push_str(&mut r, p.as_str());
    r
}

/// The arguments that restart the proxy in the foreground.
pub fn daemon_args(port: u16, tld: &str) -> (r: Vec<String>)
    ensures
        texts(r@) == seq![
            "proxy"@,
            "start"@,
            "--port"@,
            decimal(port as nat),
            "--tld"@,
            tld@,
            "--foreground"@,
        ],
{
    let mut r: Vec<String> = Vec::new();
    r.push(owned("proxy"));
    r.push(owned("start"));
    r.push(owned("--port"));
    r.push(decimal_string(port as u64));
    r.push(owned("--tld"));
    r.push(owned(tld));
    r.push(owned("--foreground"));
    assert(texts(r@) =~= seq![
        "proxy"@,
        "start"@,
        "--port"@,
        decimal(port as nat),
        "--tld"@,
        tld@,
        "--foreground"@,
    ]);
    r
}

/// The PID in a pid file: its trimmed text as a number, 0 when it is not
/// one.
pub fn parse_pid(s: &str) -> (r: u32)
    ensures
        r == match parse_uint(trimmed(s@), u32::MAX as nat) {
            Ok(v) => v as u32,
            Err(_) => 0,
        },
{
    let t = crate::text::trim(s);
    match crate::text::parse_u32(t.as_str()) {
        Some(p) => p,
        None => 0,
    }
}

/// The line `portless proxy status` prints.
pub fn proxy_status_line(pid: Option<u32>, port_text: Option<&str>, alive: bool) -> (r: String)
    ensures
        match (pid, port_text) {
            (Some(p), Some(t)) => r@ == "proxy: pid="@ + decimal(p as nat) + " port="@ + trimmed(
                t@,
            ) + " alive="@ + if alive {
                "true"@
            } else {
                "false"@
            },
            _ => r@ == "proxy: not running"@,
        },
{
    match (pid, port_text) {
        (Some(p), Some(t)) => {
            let mut r = owned("proxy: pid=");
            let ps = decimal_string(p as u64);
            push_str(&mut r, ps.as_str());
            push_str(&mut r, " port=");
            let tt = crate::text::trim(t);
            push_str(&mut r, tt.as_str());
            push_str(&mut r, " alive=");
            push_str(
                &mut r,
                if alive {
                    "true"
                } else {
                    "false"
                },
            );
            r
        },
        _ => owned("proxy: not running"),
    }
}

} // verus!
