//! The decisions behind the CLI commands: hostnames, child environments,
//! and the port / host flags injected into dev-server commands.

use vstd::prelude::*;
use crate::discovery::framework::{Framework, from_basename_spec, needs_port_flag, strict_port_spec};
use crate::cli::opts::{GlobalOpts, ProxyStartOpts};
use crate::routing::tld::Tld;
use crate::text::{
    chars_of, decimal, decimal_string, owned, push_all, push_str, split, split_vec, str_eq,
    string_of,
};

verus! {

// ---------------------------------------------------------------------------
// The command line
// ---------------------------------------------------------------------------

/// Top-level CLI definition.
#[derive(Debug, Clone)]
pub struct Cli {
    /// Global options (verbosity, state dir).
    pub global: GlobalOpts,
    /// The subcommand to execute.
    pub command: Option<CommandKind>,
}

/// All subcommands.
#[derive(Debug, Clone)]
pub enum CommandKind {
    /// Run a command through the proxy (with inferred name).
    Run {
        /// Override the inferred name.
        name: Option<String>,
        /// Override the script to run.
        script: String,
        /// Disable worktree prefix.
        no_worktree: bool,
        /// Tailnet sharing.
        tailscale: bool,
        /// Funnel sharing.
        funnel: bool,
        /// The command and arguments to run.
        cmd: Vec<String>,
    },
    /// Run a named app through the proxy: `portless <name> <command...>`.
    Named {
        /// The app name (e.g. `myapp`, `api.myapp`).
        name: String,
        /// Force the route to be reassigned.
        force: bool,
        /// Use a fixed port.
        app_port: Option<u16>,
        /// Share on Tailscale.
        tailscale: bool,
        /// Share on Tailscale Funnel.
        funnel: bool,
        /// The command and arguments.
        cmd: Vec<String>,
    },
    /// Print the URL for a service.
    Get {
        /// Service name.
        name: String,
        /// Disable worktree prefix.
        no_worktree: bool,
    },
    /// Register a static alias (e.g. for a Docker service).
    Alias {
        /// The name to register.
        name: String,
        /// The TCP port the service listens on.
        port: Option<u16>,
        /// Overwrite an existing alias.
        force: bool,
        /// Remove the alias instead of adding it.
        remove: bool,
    },
    /// List active routes.
    List,
    /// Trust the local CA in the system trust store.
    Trust,
    /// Remove the local CA from the system trust store.
    Untrust,
    /// Remove state, CA trust entry, and hosts block.
    Clean,
    /// Kill orphaned dev servers from crashed sessions.
    Prune {
        /// Force kill (SIGKILL) instead of polite (SIGTERM).
        force: bool,
    },
    /// Manage /etc/hosts synchronization.
    Hosts {
        /// Which hosts action to perform.
        action: HostsAction,
    },
    /// Proxy control.
    Proxy {
        /// Which proxy action to perform.
        action: ProxyAction,
    },
    /// Install/uninstall/status the OS startup service.
    Service {
        /// Which service action to perform.
        action: ServiceAction,
    },
    /// Print version information.
    Version,
    /// `portless <name> <cmd...>` (shorthand for `portless named <name> <cmd...>`).
    Positional(Vec<String>),
}

/// /etc/hosts subcommands.
#[derive(Debug, Clone, Copy, PartialEq, Eq, Structural)]
pub enum HostsAction {
    /// Add current routes to /etc/hosts.
    Sync,
    /// Remove portless entries from /etc/hosts.
    Clean,
}

/// Proxy subcommands.
#[derive(Debug, Clone)]
pub enum ProxyAction {
    /// Start the proxy.
    Start(ProxyStartOpts),
    /// Stop the proxy.
    Stop,
    /// Print the proxy status.
    Status,
}

/// Service subcommands.
#[derive(Debug, Clone)]
pub enum ServiceAction {
    /// Install the service.
    Install(ProxyStartOpts),
    /// Uninstall the service.
    Uninstall,
    /// Print the service status.
    Status,
}

// ---------------------------------------------------------------------------
// Basenames
// ---------------------------------------------------------------------------

/// The normal components of a `/`-separated path: nonempty pieces other
/// than `.`.
pub open spec fn path_parts(ps: Seq<Seq<char>>) -> Seq<Seq<char>>
    decreases ps.len(),
{
    if ps.len() == 0 {
        Seq::<Seq<char>>::empty()
    } else if ps.last().len() > 0 && ps.last() != "."@ {
        path_parts(ps.drop_last()).push(ps.last())
    } else {
        path_parts(ps.drop_last())
    }
}

/// `Path::new(s).file_name()` on a `/`-separated path, falling back to `s`
/// itself when there is no file name (empty path, root, `.` or a trailing
/// `..`).
pub open spec fn basename(s: Seq<char>) -> Seq<char> {
    let parts = path_parts(split(s, '/'));
    if parts.len() == 0 || parts.last() == ".."@ {
        s
    } else {
        parts.last()
    }
}

/// The last normal component of `v`, or `v` itself.
pub fn basename_of(v: &str) -> (r: String)
    ensures
        r@ == basename(v@),
{
    let cs = chars_of(v);
    let pieces = split_vec(&cs, '/');
    let ghost ps = split(cs@, '/');
    let dot = chars_of(".");
    let dotdot = chars_of("..");
    let mut last: Option<usize> = None;
    let mut i: usize = 0;
    while i < pieces.len()
        invariant
            pieces@.len() == ps.len(),
            forall|j: int| 0 <= j < pieces@.len() ==> #[trigger] pieces@[j]@ == ps[j],
            dot@ == "."@,
            i <= pieces.len(),
            match last {
                None => path_parts(ps.take(i as int)).len() == 0,
                Some(k) => k < i && path_parts(ps.take(i as int)).len() > 0 && path_parts(
                    ps.take(i as int),
                ).last() == ps[k as int],
            },
        decreases pieces.len() - i,
    {
        assert(ps.take(i + 1).drop_last() == ps.take(i as int));
        if pieces[i].len() > 0 && !crate::text::seq_eq(&pieces[i], &dot) {
            last = Some(i);
        }
        i += 1;
    }
    assert(ps.take(pieces.len() as int) == ps);
    match last {
        None => owned(v),
        Some(k) => {
            if crate::text::seq_eq(&pieces[k], &dotdot) {
                owned(v)
            } else {
                string_of(&pieces[k])
            }
        },
    }
}

// ---------------------------------------------------------------------------
// Framework flags
// ---------------------------------------------------------------------------

/// `name` is the basename of a framework that needs an explicit `--port`.
pub open spec fn needs_port(name: Seq<char>) -> bool {
    from_basename_spec(name) matches Some(f) && needs_port_flag(f)
}

/// Whether `name` is a framework that needs an explicit `--port` flag.
pub fn is_framework_needing_port(name: &str) -> (r: bool)
    ensures
        r == needs_port(name@),
{
    match Framework::from_basename(name) {
        Some(fw) => fw.port_flags().len() > 0,
        None => false,
    }
}

/// The subcommands a package runner takes before the binary it runs:
/// `npx`, `bunx` and `pnpx` take none, `yarn` and `pnpm` take `dlx` or
/// `exec`. `None` for a command that is not a package runner.
pub open spec fn runner_subcommands_spec(name: Seq<char>) -> Option<Seq<Seq<char>>> {
    if name == "npx"@ || name == "bunx"@ || name == "pnpx"@ {
        Some(Seq::<Seq<char>>::empty())
    } else if name == "yarn"@ || name == "pnpm"@ {
        Some(seq!["dlx"@, "exec"@])
    } else {
        None
    }
}

/// The package runners and the subcommands they take.
pub fn get_package_runners(name: &str) -> (r: Option<Vec<&'static str>>)
    ensures
        match runner_subcommands_spec(name@) {
            None => r is None,
            Some(s) => r is Some && r->Some_0@.len() == s.len() && forall|i: int|
                0 <= i < s.len() ==> (#[trigger] r->Some_0@[i])@ == s[i],
        },
{
    if str_eq(name, "npx") || str_eq(name, "bunx") || str_eq(name, "pnpx") {
        Some(Vec::new())
    } else if str_eq(name, "yarn") || str_eq(name, "pnpm") {
        let mut v: Vec<&'static str> = Vec::new();
        v.push("dlx");
        v.push("exec");
        Some(v)
    } else {
        None
    }
}

/// The argument starts with `-`.
pub open spec fn is_flag(a: Seq<char>) -> bool {
    a.len() > 0 && a[0] == '-'
}

/// The first index at or after `i` whose argument is not a flag.
pub open spec fn skip_flags(args: Seq<String>, i: int) -> int
    decreases args.len() - i,
{
    if i < args.len() && is_flag(args[i]@) {
        skip_flags(args, i + 1)
    } else {
        i
    }
}

/// The framework basename that `find_framework_basename` picks out of a
/// command line, if any.
pub open spec fn framework_basename(args: Seq<String>) -> Option<Seq<char>> {
    if args.len() == 0 {
        None
    } else {
        let first = basename(args[0]@);
        if needs_port(first) {
            Some(first)
        } else {
            match runner_subcommands_spec(first) {
                None => None,
                Some(subs) => if subs.len() > 0 {
                    let i = skip_flags(args, 1);
                    if i >= args.len() {
                        None
                    } else if !subs.contains(args[i]@) {
                        if needs_port(basename(args[i]@)) {
                            Some(basename(args[i]@))
                        } else {
                            None
                        }
                    } else {
                        let k = skip_flags(args, i + 1);
                        if k >= args.len() {
                            None
                        } else if needs_port(basename(args[k]@)) {
                            Some(basename(args[k]@))
                        } else {
                            None
                        }
                    }
                } else {
                    let k = skip_flags(args, 1);
                    if k >= args.len() {
                        None
                    } else if needs_port(basename(args[k]@)) {
                        Some(basename(args[k]@))
                    } else {
                        None
                    }
                },
            }
        }
    }
}

/// Facts about [`skip_flags`].
pub proof fn lemma_skip_flags(args: Seq<String>, i: int)
    requires
        0 <= i,
    ensures
        i <= skip_flags(args, i),
        skip_flags(args, i) < args.len() ==> !is_flag(args[skip_flags(args, i)]@),
        i <= args.len() ==> skip_flags(args, i) <= args.len(),
    decreases args.len() - i,
{
    if i < args.len() && is_flag(args[i]@) {
        lemma_skip_flags(args, i + 1);
    }
}

/// Whether an argument starts with `-`.
fn arg_is_flag(a: &String) -> (r: bool)
    ensures
        r == is_flag(a@),
{
    let v = chars_of(a.as_str());
    v.len() > 0 && v[0] == '-'
}

/// The first index at or after `i` whose argument is not a flag.
fn skip_flags_exec(args: &Vec<String>, i: usize) -> (r: usize)
    requires
        i <= args.len(),
    ensures
        r == skip_flags(args@, i as int),
{
    let mut k = i;
    while k < args.len() && arg_is_flag(&args[k])
        invariant
            i <= k <= args.len(),
            skip_flags(args@, i as int) == skip_flags(args@, k as int),
        decreases args.len() - k,
    {
        k += 1;
    }
    k
}

/// Whether `subs` holds `a`.
fn subs_contain(subs: &Vec<&'static str>, a: &String) -> (r: bool)
    ensures
        r == subs@.map_values(|s: &'static str| s@).contains(a@),
{
    let ghost sv = subs@.map_values(|s: &'static str| s@);
    let mut i: usize = 0;
    while i < subs.len()
        invariant
            i <= subs.len(),
            sv == subs@.map_values(|s: &'static str| s@),
            forall|j: int| 0 <= j < i ==> sv[j] != a@,
        decreases subs.len() - i,
    {
        if str_eq(subs[i], a.as_str()) {
            assert(sv[i as int] == a@);
            return true;
        }
        i += 1;
    }
    false
}

/// The basename of the framework binary a command line runs, for the
/// frameworks that need an explicit `--port` flag. The binary is either
/// the command itself (`vite dev`) or the one a package runner launches
/// (`npx vite`, `bunx --bun vite`, `pnpm exec vite`, `yarn dlx vite`,
/// `yarn vite`).
pub fn find_framework_basename(command_args: &Vec<String>) -> (r: Option<String>)
    ensures
        match framework_basename(command_args@) {
            None => r is None,
            Some(b) => r is Some && r->Some_0@ == b,
        },
{
    if command_args.len() == 0 {
        return None;
    }
    let first_arg = basename_of(command_args[0].as_str());
    if is_framework_needing_port(first_arg.as_str()) {
        return Some(first_arg);
    }
    let subcommands = match get_package_runners(first_arg.as_str()) {
        None => {
            return None;
        },
        Some(s) => s,
    };
    proof {
        lemma_skip_flags(command_args@, 1);
        assert(subcommands@.map_values(|s: &'static str| s@) =~= runner_subcommands_spec(
            first_arg@,
        )->Some_0);
    }
    let mut i: usize = 1;
    if subcommands.len() > 0 {
        i = skip_flags_exec(command_args, 1);
        if i >= command_args.len() {
            return None;
        }
        if !subs_contain(&subcommands, &command_args[i]) {
            let name = basename_of(command_args[i].as_str());
            if is_framework_needing_port(name.as_str()) {
                return Some(name);
            }
            return None;
        }
        i += 1;
        proof {
            lemma_skip_flags(command_args@, i as int);
        }
    }
    let k = skip_flags_exec(command_args, i);
    if k >= command_args.len() {
        return None;
    }
    let name = basename_of(command_args[k].as_str());
    if is_framework_needing_port(name.as_str()) {
        return Some(name);
    }
    None
}

/// Some argument is `a` or `b`.
pub open spec fn has_either(args: Seq<String>, a: Seq<char>, b: Seq<char>) -> bool {
    exists|i: int| 0 <= i < args.len() && (args[i]@ == a || args[i]@ == b)
}

/// The views of a list of strings.
pub open spec fn views(v: Seq<String>) -> Seq<Seq<char>> {
    v.map_values(|s: String| s@)
}

/// The `--port` flags injected for framework `fw`, unless the command
/// already has one.
pub open spec fn port_part(cmd: Seq<String>, fw: Framework, port: u16) -> Seq<Seq<char>> {
    if has_either(cmd, "--port"@, "-p"@) {
        Seq::<Seq<char>>::empty()
    } else if strict_port_spec(fw) {
        seq!["--port"@, decimal(port as nat), "--strictPort"@]
    } else {
        seq!["--port"@, decimal(port as nat)]
    }
}

/// The `--host` flags injected for framework `fw`, unless the command
/// already has one or Expo runs in LAN mode.
pub open spec fn host_part(cmd: Seq<String>, fw: Framework, lan_mode: bool) -> Seq<Seq<char>> {
    if has_either(cmd, "--host"@, "-H"@) {
        Seq::<Seq<char>>::empty()
    } else if fw == Framework::Expo && lan_mode {
        Seq::<Seq<char>>::empty()
    } else if fw == Framework::Expo {
        seq!["--host"@, "localhost"@]
    } else {
        seq!["--host"@, "127.0.0.1"@]
    }
}

/// The command line that `build_command_for` produces.
pub open spec fn command_for(cmd: Seq<String>, port: u16, lan_mode: bool) -> Seq<Seq<char>> {
    match framework_basename(cmd) {
        Some(b) => match from_basename_spec(b) {
            Some(fw) => views(cmd) + port_part(cmd, fw, port) + host_part(cmd, fw, lan_mode),
            None => views(cmd),
        },
        None => views(cmd),
    }
}

/// Whether some argument is `a` or `b`.
fn any_arg_is(args: &Vec<String>, a: &str, b: &str) -> (r: bool)
    ensures
        r == has_either(args@, a@, b@),
{
    let mut i: usize = 0;
    while i < args.len()
        invariant
            i <= args.len(),
            forall|j: int| 0 <= j < i ==> args@[j]@ != a@ && args@[j]@ != b@,
        decreases args.len() - i,
    {
        if str_eq(args[i].as_str(), a) || str_eq(args[i].as_str(), b) {
            return true;
        }
        i += 1;
    }
    false
}

/// A copy of a string list.
fn copy_args(v: &Vec<String>) -> (r: Vec<String>)
    ensures
        views(r@) == views(v@),
{
    let mut r: Vec<String> = Vec::new();
    let mut i: usize = 0;
    while i < v.len()
        invariant
            i <= v.len(),
            views(r@) == views(v@.take(i as int)),
        decreases v.len() - i,
    {
        r.push(v[i].clone());
        i += 1;
        assert(views(v@.take(i as int)) =~= views(v@.take(i - 1)).push(v@[i - 1]@));
        assert(views(r@) =~= views(v@.take(i - 1)).push(v@[i - 1]@));
    }
    assert(v@.take(v.len() as int) == v@);
    r
}

/// Append `s` to a string list.
fn push_arg(out: &mut Vec<String>, s: &str)
    ensures
        views(final(out)@) == views(old(out)@).push(s@),
{
    out.push(owned(s));
    assert(views(out@) =~= views(old(out)@).push(s@));
}

/// Build the spawn command, appending the right `--port` / `--host` flags
/// for known frameworks that ignore `PORT`: `--port <port>` (plus
/// `--strictPort` where supported) unless `--port`/`-p` is present, and
/// `--host 127.0.0.1` (`--host localhost` for Expo, nothing for Expo in LAN
/// mode) unless `--host`/`-H` is present.
pub fn build_command_for(cmd: &Vec<String>, port: u16, lan_mode: bool) -> (out: Vec<String>)
    ensures
        views(out@) == command_for(cmd@, port, lan_mode),
{
    let mut out = copy_args(cmd);
    if cmd.len() == 0 {
        return out;
    }
    let basename = match find_framework_basename(cmd) {
        Some(b) => b,
        None => {
            return out;
        },
    };
    let fw = match Framework::from_basename(basename.as_str()) {
        Some(f) => f,
        None => {
            return out;
        },
    };
    let ghost base = views(cmd@);
    if !any_arg_is(cmd, "--port", "-p") {
        push_arg(&mut out, "--port");
        let p = decimal_string(port as u64);
        push_arg(&mut out, p.as_str());
        if fw.strict_port() {
            push_arg(&mut out, "--strictPort");
            assert(views(out@) =~= base + port_part(cmd@, fw, port));
        } else {
            assert(views(out@) =~= base + port_part(cmd@, fw, port));
        }
    } else {
        assert(views(out@) =~= base + port_part(cmd@, fw, port));
    }
    let ghost mid = views(out@);
    let has_host = any_arg_is(cmd, "--host", "-H");
    if !has_host {
        let is_expo_lan = fw == Framework::Expo && lan_mode;
        if !is_expo_lan {
            let host_val = if fw == Framework::Expo {
                "localhost"
            } else {
                "127.0.0.1"
            };
            push_arg(&mut out, "--host");
            push_arg(&mut out, host_val);
            assert(views(out@) =~= mid + host_part(cmd@, fw, lan_mode));
        } else {
            assert(views(out@) =~= mid + host_part(cmd@, fw, lan_mode));
        }
    } else {
        assert(views(out@) =~= mid + host_part(cmd@, fw, lan_mode));
    }
    out
}

/// The built command always starts with the command as given: flags are
/// only ever appended.
pub proof fn lemma_command_extends(cmd: Seq<String>, port: u16, lan_mode: bool)
    ensures
        command_for(cmd, port, lan_mode).len() >= cmd.len(),
        command_for(cmd, port, lan_mode).take(cmd.len() as int) == views(cmd),
{
    let out = command_for(cmd, port, lan_mode);
    assert(views(cmd).len() == cmd.len());
    match framework_basename(cmd) {
        Some(b) => match from_basename_spec(b) {
            Some(fw) => {
                assert(out.take(cmd.len() as int) =~= views(cmd));
            },
            None => {
                assert(out.take(cmd.len() as int) =~= views(cmd));
            },
        },
        None => {
            assert(out.take(cmd.len() as int) =~= views(cmd));
        },
    }
}

/// A port the user chose is respected: when some argument of the command
/// is `-p` or `--port`, nothing appended to it is a `--port` flag.
pub proof fn lemma_user_port_kept(cmd: Seq<String>, port: u16, lan_mode: bool)
    requires
        exists|i: int| 0 <= i < cmd.len() && (cmd[i]@ == "-p"@ || cmd[i]@ == "--port"@),
    ensures
        forall|j: int|
            cmd.len() <= j < command_for(cmd, port, lan_mode).len() ==> #[trigger] command_for(
                cmd,
                port,
                lan_mode,
            )[j] != "--port"@,
{
    reveal_strlit("--port");
    reveal_strlit("--host");
    reveal_strlit("localhost");
    reveal_strlit("127.0.0.1");
    let out = command_for(cmd, port, lan_mode);
    assert(has_either(cmd, "--port"@, "-p"@));
    assert("--host"@ != "--port"@) by {
        assert("--host"@[2] != "--port"@[2]);
    }
    assert("localhost"@.len() != "--port"@.len());
    assert("127.0.0.1"@.len() != "--port"@.len());
    match framework_basename(cmd) {
        Some(b) => match from_basename_spec(b) {
            Some(fw) => {
                let h = host_part(cmd, fw, lan_mode);
                assert(port_part(cmd, fw, port) =~= Seq::<Seq<char>>::empty());
                assert forall|j: int| cmd.len() <= j < out.len() implies #[trigger] out[j] != "--port"@ by {
                    assert(out[j] == h[j - cmd.len()]);
                }
            },
            None => {},
        },
        None => {},
    }
}

/// A host the user chose is respected: when some argument of the command
/// is `-H` or `--host`, nothing appended to it is a `--host` flag.
pub proof fn lemma_user_host_kept(cmd: Seq<String>, port: u16, lan_mode: bool)
    requires
        exists|i: int| 0 <= i < cmd.len() && (cmd[i]@ == "-H"@ || cmd[i]@ == "--host"@),
    ensures
        forall|j: int|
            cmd.len() <= j < command_for(cmd, port, lan_mode).len() ==> #[trigger] command_for(
                cmd,
                port,
                lan_mode,
            )[j] != "--host"@,
{
    reveal_strlit("--port");
    reveal_strlit("--host");
    reveal_strlit("--strictPort");
    let out = command_for(cmd, port, lan_mode);
    assert(has_either(cmd, "--host"@, "-H"@));
    assert("--host"@ != "--port"@) by {
        assert("--host"@[2] != "--port"@[2]);
    }
    assert("--strictPort"@.len() != "--host"@.len());
    match framework_basename(cmd) {
        Some(b) => match from_basename_spec(b) {
            Some(fw) => {
                let pp = port_part(cmd, fw, port);
                assert(host_part(cmd, fw, lan_mode) =~= Seq::<Seq<char>>::empty());
                assert forall|j: int| cmd.len() <= j < out.len() implies #[trigger] out[j] != "--host"@ by {
                    assert(out[j] == pp[j - cmd.len()]);
                    if pp.len() > 0 {
                        assert(pp[1] == decimal(port as nat));
                        crate::text::lemma_decimal_digits(port as nat);
                        if decimal(port as nat) == "--host"@ {
                            assert(crate::text::is_digit(decimal(port as nat)[0]));
                        }
                    }
                }
            },
            None => {},
        },
        None => {},
    }
}

// ---------------------------------------------------------------------------
// Hostnames, URLs and child environments
// ---------------------------------------------------------------------------

/// The hostname `[prefix.]app.tld`; an empty prefix is left out.
pub open spec fn compose_spec(app: Seq<char>, prefix: Option<Seq<char>>, tld: Seq<char>) -> Seq<
    char,
> {
    match prefix {
        Some(p) => if p.len() > 0 {
            p + "."@ + app + "."@ + tld
        } else {
            app + "."@ + tld
        },
        None => app + "."@ + tld,
    }
}

/// Compose a hostname from an app name, optional worktree prefix, and TLD.
pub fn compose_hostname(app: String, worktree_prefix: Option<String>, tld: &Tld) -> (r: String)
    ensures
        r@ == compose_spec(
            app@,
            match worktree_prefix {
                Some(p) => Some(p@),
                None => None,
            },
            tld@,
        ),
{
    let mut out = String::new();
    match worktree_prefix {
        Some(p) => {
            if !p.as_str().is_empty() {
                push_str(&mut out, p.as_str());
                push_str(&mut out, ".");
            }
        },
        None => {},
    }
    let ghost pre = out@;
    push_str(&mut out, app.as_str());
    push_str(&mut out, ".");
    push_str(&mut out, tld.as_str());
    assert(out@ =~= pre + app@ + "."@ + tld@);
    out
}

/// The URL scheme.
pub open spec fn scheme(https: bool) -> Seq<char> {
    if https {
        "https"@
    } else {
        "http"@
    }
}

/// Resolve the URL to pass to the child process.
pub fn child_url(full_host: &str, https: bool) -> (r: String)
    ensures
        r@ == scheme(https) + "://"@ + full_host@,
{
    let mut out = owned(if https {
        "https"
    } else {
        "http"
    });
    push_str(&mut out, "://");
    push_str(&mut out, full_host);
    out
}

/// The views of a list of key/value pairs.
pub open spec fn pair_views(v: Seq<(String, String)>) -> Seq<(Seq<char>, Seq<char>)> {
    v.map_values(|p: (String, String)| (p.0@, p.1@))
}

/// The environment `build_child_env` produces.
pub open spec fn child_env_spec(
    full_host: Seq<char>,
    port: u16,
    tld: Seq<char>,
    tailscale_url: Option<Seq<char>>,
    https: bool,
) -> Seq<(Seq<char>, Seq<char>)> {
    let base = seq![
        ("PORT"@, decimal(port as nat)),
        ("HOST"@, "127.0.0.1"@),
        ("PORTLESS_URL"@, scheme(https) + "://"@ + full_host),
        ("PORTLESS_TLD"@, tld),
        (
            "PORTLESS_HTTPS"@,
            if https {
                "1"@
            } else {
                "0"@
            },
        ),
    ];
    match tailscale_url {
        Some(t) => base.push(("PORTLESS_TAILSCALE_URL"@, t)),
        None => base,
    }
}

/// Append a key/value pair.
fn push_pair(v: &mut Vec<(String, String)>, k: &str, val: String)
    ensures
        pair_views(final(v)@) == pair_views(old(v)@).push((k@, val@)),
{
    v.push((owned(k), val));
    assert(pair_views(v@) =~= pair_views(old(v)@).push((k@, val@)));
}

/// Build the proxy-aware environment for a child process: `PORT`, `HOST`,
/// `PORTLESS_URL`, `PORTLESS_TLD`, `PORTLESS_HTTPS`, and
/// `PORTLESS_TAILSCALE_URL` when there is one.
pub fn build_child_env(
    full_host: &str,
    port: u16,
    tld: &str,
    tailscale_url: Option<&str>,
    https: bool,
) -> (env: Vec<(String, String)>)
    ensures
        pair_views(env@) == child_env_spec(
            full_host@,
            port,
            tld@,
            match tailscale_url {
                Some(t) => Some(t@),
                None => None,
            },
            https,
        ),
{
    let mut env: Vec<(String, String)> = Vec::new();
    push_pair(&mut env, "PORT", decimal_string(port as u64));
    push_pair(&mut env, "HOST", owned("127.0.0.1"));
    push_pair(&mut env, "PORTLESS_URL", child_url(full_host, https));
    push_pair(&mut env, "PORTLESS_TLD", owned(tld));
    push_pair(
        &mut env,
        "PORTLESS_HTTPS",
        owned(
            if https {
                "1"
            } else {
                "0"
            },
        ),
    );
    match tailscale_url {
        Some(t) => {
            push_pair(&mut env, "PORTLESS_TAILSCALE_URL", owned(t));
        },
        None => {},
    }
    proof {
        let ghost want = child_env_spec(
            full_host@,
            port,
            tld@,
            match tailscale_url {
                Some(t) => Some(t@),
                None => None,
            },
            https,
        );
        assert(pair_views(env@) =~= want);
    }
    env
}

/// The hostname of an alias: the name itself when it already has a dot,
/// `name.tld` otherwise.
pub open spec fn alias_spec(name: Seq<char>, tld: Seq<char>) -> Seq<char> {
    if crate::text::has_char(name, '.') {
        name
    } else {
        name + "."@ + tld
    }
}

/// The hostname an alias is registered under.
pub fn alias_name(name: &str, tld: &str) -> (r: String)
    ensures
        r@ == alias_spec(name@, tld@),
{
    let v = chars_of(name);
    let d = crate::text::find_char(&v, '.');
    proof {
        crate::text::lemma_first_index(v@, '.');
    }
    if d < v.len() {
        owned(name)
    } else {
        let mut out = owned(name);
        push_str(&mut out, ".");
        push_str(&mut out, tld);
        out
    }
}

} // verus!
