//! OS service integration (systemd, launchd, Task Scheduler): which
//! backend a host uses and the files and scripts that install the proxy
//! with it.

use vstd::prelude::*;
use crate::common::error::Error;
use crate::hosts::{find, find_in};
use crate::platform::system::OsKind;
use crate::process::spawn::texts;
use crate::state::proxy_state::ProxyState;
use crate::text::{
    chars_of, decimal, decimal_string, joined, owned, push_str, split, split_vec, string_of,
    text_lines,
};

verus! {

/// The systemd unit file.
pub const UNIT_PATH: &'static str = "/etc/systemd/system/portless.service";

/// The systemd unit name.
pub const UNIT_NAME: &'static str = "portless.service";

/// The launchd job label.
pub const LABEL: &'static str = "dev.portless.proxy";

/// The launchd property list.
pub const PLIST_PATH: &'static str = "/Library/LaunchDaemons/dev.portless.proxy.plist";

/// The Windows scheduled task.
pub const TASK_NAME: &'static str = "PortlessProxy";

/// Which service manager a host uses.
#[derive(Debug, Clone, Copy, PartialEq, Eq, Structural)]
pub enum ServiceBackend {
    /// Linux systemd.
    Systemd,
    /// macOS launchd.
    Launchd,
    /// Windows Task Scheduler.
    TaskScheduler,
    /// Unsupported / not detected.
    Unsupported,
}

/// The service manager of each OS.
pub open spec fn backend_for(os: OsKind) -> ServiceBackend {
    match os {
        OsKind::Linux => ServiceBackend::Systemd,
        OsKind::Macos => ServiceBackend::Launchd,
        OsKind::Windows => ServiceBackend::TaskScheduler,
        _ => ServiceBackend::Unsupported,
    }
}

impl ServiceBackend {
    /// The service manager of `os`.
    pub fn for_os(os: OsKind) -> (b: Self)
        ensures
            b == backend_for(os),
    {
        match os {
            OsKind::Linux => ServiceBackend::Systemd,
            OsKind::Macos => ServiceBackend::Launchd,
            OsKind::Windows => ServiceBackend::TaskScheduler,
            _ => ServiceBackend::Unsupported,
        }
    }

    /// Detect the service backend for the current platform.
    pub fn detect() -> (b: Self)
        ensures
            exists|os: OsKind| b == backend_for(os),
    {
        let os = OsKind::detect();
        ServiceBackend::for_os(os)
    }
}

/// A service manager: which backend installs, removes and reports the
/// proxy service.
#[derive(Debug)]
pub struct ServiceManager {
    backend: ServiceBackend,
}

impl ServiceManager {
    /// The backend in use.
    pub closed spec fn backend_view(&self) -> ServiceBackend {
        self.backend
    }

    /// Construct a service manager using the detected backend.
    pub fn detect() -> (m: Self)
        ensures
            exists|os: OsKind| m.backend_view() == backend_for(os),
    {
        ServiceManager { backend: ServiceBackend::detect() }
    }

    /// Construct a service manager using a specific backend.
    pub fn with(backend: ServiceBackend) -> (m: Self)
        ensures
            m.backend_view() == backend,
    {
        ServiceManager { backend }
    }

    /// The backend.
    pub fn backend(&self) -> (b: ServiceBackend)
        ensures
            b == self.backend_view(),
    {
        self.backend
    }

    /// The error for a backend that cannot manage services.
    pub fn check_supported(&self) -> (r: Result<(), Error>)
        ensures
            self.backend_view() == ServiceBackend::Unsupported ==> (r matches Err(
                Error::UnsupportedPlatform(m),
            ) && m@ == "no service backend available"@),
            self.backend_view() != ServiceBackend::Unsupported ==> r is Ok,
    {
        match self.backend {
            ServiceBackend::Unsupported => Err(
                Error::UnsupportedPlatform(owned("no service backend available")),
            ),
            _ => Ok(()),
        }
    }
}

/// The command line that starts the proxy with the state's settings:
/// `<exe> proxy start --port <port> --tld <tld>`, then `--no-tls` without
/// HTTPS, `--wildcard` and `--lan` when on.
pub open spec fn start_command(s: ProxyState, exe: Seq<char>) -> Seq<char> {
    exe + " proxy start --port "@ + decimal(s.port as nat) + " --tld "@ + s.tld@ + (if s.https {
        Seq::empty()
    } else {
        " --no-tls"@
    }) + (if s.wildcard {
        " --wildcard"@
    } else {
        Seq::empty()
    }) + (if s.lan {
        " --lan"@
    } else {
        Seq::empty()
    })
}

/// The start command line.
pub fn start_command_line(s: &ProxyState, exe: &str) -> (r: String)
    ensures
        r@ == start_command(*s, exe@),
{
    let mut r = owned(exe);
    push_str(&mut r, " proxy start --port ");
    let p = decimal_string(s.port as u64);
    push_str(&mut r, p.as_str());
    push_str(&mut r, " --tld ");
    push_str(&mut r, s.tld.as_str());
    let ghost base = r@;
    if !s.https {
        push_str(&mut r, " --no-tls");
    }
    let ghost b2 = r@;
    if s.wildcard {
        push_str(&mut r, " --wildcard");
    }
    let ghost b3 = r@;
    if s.lan {
        push_str(&mut r, " --lan");
    }
    assert(r@ =~= start_command(*s, exe@));
    r
}

/// The systemd unit that runs the proxy.
pub open spec fn unit_text(s: ProxyState, exe: Seq<char>) -> Seq<char> {
    "[Unit]\nDescription=Portless local development proxy\nAfter=network-online.target\n\n[Service]\nType=simple\nExecStart="@
        + start_command(s, exe)
        + "\nRestart=on-failure\nRestartSec=5\n\n[Install]\nWantedBy=multi-user.target\n"@
}

/// The systemd unit file's text.
pub fn systemd_unit(s: &ProxyState, exe: &str) -> (r: String)
    ensures
        r@ == unit_text(*s, exe@),
{
    let mut r = owned(
        "[Unit]\nDescription=Portless local development proxy\nAfter=network-online.target\n\n[Service]\nType=simple\nExecStart=",
    );
    let c = start_command_line(s, exe);
    push_str(&mut r, c.as_str());
    push_str(&mut r, "\nRestart=on-failure\nRestartSec=5\n\n[Install]\nWantedBy=multi-user.target\n");
    r
}

/// The launchd property list that runs the proxy.
pub open spec fn plist_text(s: ProxyState, exe: Seq<char>) -> Seq<char> {
    "<?xml version=\"1.0\" encoding=\"UTF-8\"?>\n<!DOCTYPE plist PUBLIC \"-//Apple//DTD PLIST 1.0//EN\" \"http://www.apple.com/DTDs/PropertyList-1.0.dtd\">\n<plist version=\"1.0\">\n<dict>\n  <key>Label</key><string>dev.portless.proxy</string>\n  <key>ProgramArguments</key>\n  <array>\n    <string>"@
        + exe + "</string>\n    <string>proxy</string>\n    <string>start</string>\n    <string>--port</string>\n    <string>"@
        + decimal(s.port as nat) + "</string>\n    <string>--tld</string>\n    <string>"@ + s.tld@
        + "</string>"@ + (if s.https {
        Seq::empty()
    } else {
        "\n    <string>--no-tls</string>"@
    }) + (if s.wildcard {
        "\n    <string>--wildcard</string>"@
    } else {
        Seq::empty()
    }) + (if s.lan {
        "\n    <string>--lan</string>"@
    } else {
        Seq::empty()
    })
        + "\n  </array>\n  <key>RunAtLoad</key><true/>\n  <key>KeepAlive</key><true/>\n  <key>StandardOutPath</key><string>/var/log/portless.out.log</string>\n  <key>StandardErrorPath</key><string>/var/log/portless.err.log</string>\n</dict>\n</plist>\n"@
}

/// The launchd property list's text.
pub fn launchd_plist(s: &ProxyState, exe: &str) -> (r: String)
    ensures
        r@ == plist_text(*s, exe@),
{
    let mut r = owned(
        "<?xml version=\"1.0\" encoding=\"UTF-8\"?>\n<!DOCTYPE plist PUBLIC \"-//Apple//DTD PLIST 1.0//EN\" \"http://www.apple.com/DTDs/PropertyList-1.0.dtd\">\n<plist version=\"1.0\">\n<dict>\n  <key>Label</key><string>dev.portless.proxy</string>\n  <key>ProgramArguments</key>\n  <array>\n    <string>",
    );
    push_str(&mut r, exe);
    push_str(
        &mut r,
        "</string>\n    <string>proxy</string>\n    <string>start</string>\n    <string>--port</string>\n    <string>",
    );
    let p = decimal_string(s.port as u64);
    push_str(&mut r, p.as_str());
    push_str(&mut r, "</string>\n    <string>--tld</string>\n    <string>");
    push_str(&mut r, s.tld.as_str());
    push_str(&mut r, "</string>");
    if !s.https {
        push_str(&mut r, "\n    <string>--no-tls</string>");
    }
    if s.wildcard {
        push_str(&mut r, "\n    <string>--wildcard</string>");
    }
    if s.lan {
        push_str(&mut r, "\n    <string>--lan</string>");
    }
    push_str(
        &mut r,
        "\n  </array>\n  <key>RunAtLoad</key><true/>\n  <key>KeepAlive</key><true/>\n  <key>StandardOutPath</key><string>/var/log/portless.out.log</string>\n  <key>StandardErrorPath</key><string>/var/log/portless.err.log</string>\n</dict>\n</plist>\n",
    );
    assert(r@ =~= plist_text(*s, exe@));
    r
}

/// `s` with each `'` doubled (quoting inside a PowerShell single-quoted
/// string).
pub open spec fn double_quotes(s: Seq<char>) -> Seq<char>
    decreases s.len(),
{
    if s.len() == 0 {
        Seq::empty()
    } else {
        double_quotes(s.drop_last()) + if s.last() == '\'' {
            seq!['\'', '\'']
        } else {
            seq![s.last()]
        }
    }
}

/// The PowerShell script that registers the scheduled task.
pub open spec fn task_script_text(s: ProxyState, exe: Seq<char>) -> Seq<char> {
    "\n$Action = New-ScheduledTaskAction -Execute '"@ + double_quotes(start_command(s, exe))
        + "'\n$Trigger = New-ScheduledTaskTrigger -AtLogOn\n$Settings = New-ScheduledTaskSettingsSet -AllowStartIfOnBatteries -DontStopIfGoingOnBatteries\nRegister-ScheduledTask -TaskName 'PortlessProxy' -Action $Action -Trigger $Trigger -Settings $Settings -User 'SYSTEM' -RunLevel Highest -Force\n"@
}

/// The scheduled-task registration script.
pub fn task_script(s: &ProxyState, exe: &str) -> (r: String)
    ensures
        r@ == task_script_text(*s, exe@),
{
    let c = start_command_line(s, exe);
    let v = chars_of(c.as_str());
    let mut r = owned("\n$Action = New-ScheduledTaskAction -Execute '");
    let ghost head = r@;
    let mut i: usize = 0;
    while i < v.len()
        invariant
            i <= v@.len(),
            r@ == head + double_quotes(v@.take(i as int)),
        decreases v.len() - i,
    {
        let ch = v[i];
        assert(v@.take(i + 1).drop_last() == v@.take(i as int));
        assert(v@.take(i + 1).last() == ch);
        let ghost prev = r@;
        if ch == '\'' {
            r.push('\'');
            r.push('\'');
            assert(r@ =~= prev + seq!['\'', '\'']);
        } else {
            r.push(ch);
            assert(r@ =~= prev + seq![ch]);
        }
        i += 1;
    }
    assert(v@.take(v@.len() as int) == v@);
    push_str(
        &mut r,
        "'\n$Trigger = New-ScheduledTaskTrigger -AtLogOn\n$Settings = New-ScheduledTaskSettingsSet -AllowStartIfOnBatteries -DontStopIfGoingOnBatteries\nRegister-ScheduledTask -TaskName 'PortlessProxy' -Action $Action -Trigger $Trigger -Settings $Settings -User 'SYSTEM' -RunLevel Highest -Force\n",
    );
    r
}

/// The message of a failed `systemctl` call: its arguments after
/// `systemctl`, then `failed`.
pub fn systemctl_failure(args: &Vec<String>) -> (e: Error)
    ensures
        e matches Error::Service(m) && m@ == "systemctl "@ + joined(texts(args@), " "@)
            + " failed"@,
{
    let mut m = owned("systemctl ");
    let j = crate::text::join_strings(args, " ");
    assert(args@.map_values(|x: String| x@) =~= texts(args@));
    push_str(&mut m, j.as_str());
    push_str(&mut m, " failed");
    Error::Service(m)
}

/// The lines of `text` that mention `needle`, in order.
pub open spec fn lines_with(lines: Seq<Seq<char>>, needle: Seq<char>) -> Seq<Seq<char>>
    decreases lines.len(),
{
    if lines.len() == 0 {
        Seq::empty()
    } else if find(lines.last(), needle) is Some {
        lines_with(lines.drop_last(), needle).push(lines.last())
    } else {
        lines_with(lines.drop_last(), needle)
    }
}

/// What the launchd status reports from `launchctl list`'s output: the
/// lines that mention the job, or that it is not loaded.
pub open spec fn launchd_status_text(out: Seq<char>) -> Seq<char> {
    let found = lines_with(text_lines(out), LABEL@);
    if found.len() == 0 {
        "portless: not loaded"@
    } else {
        joined(found, seq!['\n'])
    }
}

/// The launchd service status, from `launchctl list`'s output.
pub fn launchd_status(out: &str) -> (r: String)
    ensures
        r@ == launchd_status_text(out@),
{
    let v = chars_of(out);
    let pieces = split_vec(&v, '\n');
    let ghost ps = pieces@.map_values(|p: Vec<char>| p@);
    assert(ps =~= split(out@, '\n'));
    proof {
        crate::text::lemma_split_nonempty(out@, '\n');
    }
    let n = if pieces[pieces.len() - 1].len() == 0 {
        pieces.len() - 1
    } else {
        pieces.len()
    };
    let ghost q = if ps.last().len() == 0 {
        ps.drop_last()
    } else {
        ps
    };
    assert(q =~= ps.take(n as int));
    let ghost lines = text_lines(out@);
    let label = chars_of(LABEL);
    let mut found: Vec<String> = Vec::new();
    let mut i: usize = 0;
    while i < n
        invariant
            n <= pieces@.len(),
            ps == pieces@.map_values(|p: Vec<char>| p@),
            q == ps.take(n as int),
            lines == q.map_values(|l: Seq<char>| if l.len() > 0 && l.last() == '\r' {
                l.drop_last()
            } else {
                l
            }),
            label@ == LABEL@,
            i <= n,
            texts(found@) == lines_with(lines.take(i as int), LABEL@),
        decreases n - i,
    {
        let piece = &pieces[i];
        let line = if piece.len() > 0 && piece[piece.len() - 1] == '\r' {
            let s = crate::text::string_of_range(piece, 0, piece.len() - 1);
            assert(piece@.subrange(0, piece@.len() - 1) == piece@.drop_last());
            s
        } else {
            string_of(piece)
        };
        let lv = chars_of(line.as_str());
        assert(lines[i as int] == lv@);
        assert(lines.take(i + 1).drop_last() == lines.take(i as int));
        assert(lines.take(i + 1).last() == lv@);
        let ghost prev = found@;
        if find_in(&lv, &label).is_some() {
            found.push(line);
            assert(texts(found@) =~= texts(prev).push(lv@));
        }
        i += 1;
    }
    assert(lines.take(n as int) == lines);
    if found.len() == 0 {
        owned("portless: not loaded")
    } else {
        let mut sep = String::new();
        sep.push('\n');
        assert(found@.map_values(|x: String| x@) =~= texts(found@));
        crate::text::join_strings(&found, sep.as_str())
    }
}

} // verus!
