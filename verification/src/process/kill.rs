//! Process signalling: which command sends which signal, and how its
//! outcome reads.

use vstd::prelude::*;
use crate::common::error::Error;
use crate::process::spawn::texts;
use crate::text::{decimal, decimal_string, owned, push_str, str_eq, trim, trimmed};

verus! {

/// Process signal kinds.
#[derive(Debug, Clone, Copy, PartialEq, Eq, Structural)]
pub enum Signal {
    /// Polite termination request.
    Term,
    /// Forceful termination.
    Kill,
    /// Interrupt (Ctrl-C).
    Int,
    /// Hangup.
    Hup,
}

/// The name `kill` knows a signal by.
pub open spec fn signal_name(s: Signal) -> Seq<char> {
    match s {
        Signal::Term => "TERM"@,
        Signal::Kill => "KILL"@,
        Signal::Int => "INT"@,
        Signal::Hup => "HUP"@,
    }
}

/// A command to run: the program and its arguments.
pub type CommandText = (Seq<char>, Seq<Seq<char>>);

/// The command that delivers `signal` to `pid`, and the message for its
/// failure. On Unix: `kill -<NAME> <pid>`. On Windows: `taskkill /F /PID
/// <pid>` for a kill, `taskkill /PID <pid>` for a terminate or interrupt;
/// a hangup cannot be sent there.
pub open spec fn signal_command(pid: u32, signal: Signal, windows: bool) -> Option<
    (CommandText, Seq<char>),
> {
    let p = decimal(pid as nat);
    if !windows {
        let flag = "-"@ + signal_name(signal);
        Some((("kill"@, seq![flag, p]), "kill "@ + flag + " "@ + p + " failed"@))
    } else {
        match signal {
            Signal::Kill => Some(
                (("taskkill"@, seq!["/F"@, "/PID"@, p]), "taskkill /F /PID "@ + p + " failed"@),
            ),
            Signal::Hup => None,
            _ => Some((("taskkill"@, seq!["/PID"@, p]), "taskkill /PID "@ + p + " failed"@)),
        }
    }
}

impl Signal {
    /// The name `kill` knows the signal by.
    pub fn name(self) -> (r: &'static str)
        ensures
            r@ == signal_name(self),
    {
        match self {
            Signal::Term => "TERM",
            Signal::Kill => "KILL",
            Signal::Int => "INT",
            Signal::Hup => "HUP",
        }
    }
}

/// The command that sends `signal` to `pid` and the message for its
/// failure; an error for pid 0, which cannot be signalled, and for a
/// hangup on Windows.
pub fn signal_plan(pid: u32, signal: Signal, windows: bool) -> (r: Result<
    (String, Vec<String>, String),
    Error,
>)
    ensures
        pid == 0 ==> (r matches Err(Error::Process(m)) && m@ == "cannot signal pid 0"@),
        pid != 0 && windows && signal == Signal::Hup ==> (r matches Err(Error::NotImplemented(m))
            && m@ == "SIGHUP on Windows"@),
        pid != 0 && !(windows && signal == Signal::Hup) ==> r is Ok && signal_command(
            pid,
            signal,
            windows,
        ) is Some && r->Ok_0.0@ == signal_command(pid, signal, windows)->Some_0.0.0 && texts(
            r->Ok_0.1@,
        ) == signal_command(pid, signal, windows)->Some_0.0.1 && r->Ok_0.2@ == signal_command(
            pid,
            signal,
            windows,
        )->Some_0.1,
{
    if pid == 0 {
        return Err(Error::Process(owned("cannot signal pid 0")));
    }
    let p = decimal_string(pid as u64);
    if !windows {
        let mut flag = owned("-");
        push_str(&mut flag, signal.name());
        let mut msg = owned("kill ");
        push_str(&mut msg, flag.as_str());
        push_str(&mut msg, " ");
        push_str(&mut msg, p.as_str());
        push_str(&mut msg, " failed");
        let mut args: Vec<String> = Vec::new();
        args.push(flag);
        args.push(p);
        let ghost f = "-"@ + signal_name(signal);
        assert(texts(args@) =~= seq![f, decimal(pid as nat)]);
        assert(msg@ =~= "kill "@ + f + " "@ + decimal(pid as nat) + " failed"@);
        Ok((owned("kill"), args, msg))
    } else {
        match signal {
            Signal::Kill => {
                let mut msg = owned("taskkill /F /PID ");
                push_str(&mut msg, p.as_str());
                push_str(&mut msg, " failed");
                let mut args: Vec<String> = Vec::new();
                args.push(owned("/F"));
                args.push(owned("/PID"));
                args.push(p);
                assert(texts(args@) =~= seq!["/F"@, "/PID"@, decimal(pid as nat)]);
                Ok((owned("taskkill"), args, msg))
            },
            Signal::Hup => Err(Error::NotImplemented(owned("SIGHUP on Windows"))),
            _ => {
                let mut msg = owned("taskkill /PID ");
                push_str(&mut msg, p.as_str());
                push_str(&mut msg, " failed");
                let mut args: Vec<String> = Vec::new();
                args.push(owned("/PID"));
                args.push(p);
                assert(texts(args@) =~= seq!["/PID"@, decimal(pid as nat)]);
                Ok((owned("taskkill"), args, msg))
            },
        }
    }
}

/// The command that tells whether `pid` is alive (none for pid 0, which
/// never is): `kill -0 <pid>` on Unix, a `Get-Process` query through
/// PowerShell on Windows.
pub fn alive_probe(pid: u32, windows: bool) -> (r: Option<(String, Vec<String>)>)
    ensures
        pid == 0 ==> r is None,
        pid != 0 && !windows ==> r is Some && r->Some_0.0@ == "kill"@ && texts(r->Some_0.1@)
            == seq!["-0"@, decimal(pid as nat)],
        pid != 0 && windows ==> r is Some && r->Some_0.0@ == "powershell"@ && texts(
            r->Some_0.1@,
        ) == seq![
            "-NoProfile"@,
            "-Command"@,
            "Get-Process -Id "@ + decimal(pid as nat)
                + " -ErrorAction SilentlyContinue | Select-Object -ExpandProperty Id"@,
        ],
{
    if pid == 0 {
        return None;
    }
    let p = decimal_string(pid as u64);
    let mut args: Vec<String> = Vec::new();
    if !windows {
        args.push(owned("-0"));
        args.push(p);
        assert(texts(args@) =~= seq!["-0"@, decimal(pid as nat)]);
        Some((owned("kill"), args))
    } else {
        let mut script = owned("Get-Process -Id ");
        push_str(&mut script, p.as_str());
        push_str(&mut script, " -ErrorAction SilentlyContinue | Select-Object -ExpandProperty Id");
        args.push(owned("-NoProfile"));
        args.push(owned("-Command"));
        let ghost sv = script@;
        args.push(script);
        assert(texts(args@) =~= seq!["-NoProfile"@, "-Command"@, sv]);
        Some((owned("powershell"), args))
    }
}

/// Whether the output of the Windows liveness query names `pid` (after
/// trimming whitespace); the query must also have succeeded.
pub fn alive_from_query(succeeded: bool, output: &str, pid: u32) -> (r: bool)
    ensures
        r == (succeeded && trimmed(output@) == decimal(pid as nat)),
{
    if !succeeded {
        return false;
    }
    let t = trim(output);
    let p = decimal_string(pid as u64);
    str_eq(t.as_str(), p.as_str())
}

/// The status of a running child.
#[derive(Debug)]
pub struct ChildStatus {
    /// Process ID.
    pub pid: Option<u32>,
    /// Whether the process has exited.
    pub exited: bool,
    /// Elapsed time since spawn.
    pub elapsed: core::time::Duration,
}

} // verus!
