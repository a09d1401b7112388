//! System identity: operating system and host facts.

use vstd::prelude::*;
use crate::text::{chars_of, lines_of, starts_with, string_of_range, text_lines, vec_starts_with};

verus! {

/// Operating system identity.
#[derive(Debug, Clone, Copy, PartialEq, Eq, Structural)]
pub enum OsKind {
    /// Linux.
    Linux,
    /// macOS.
    Macos,
    /// Windows.
    Windows,
    /// FreeBSD.
    Freebsd,
    /// Unknown / unsupported.
    Unknown,
}

/// `sysinfo::System::kernel_long_version()`: the name of the kernel that
/// `sysinfo` was built for (`Linux`, `Darwin`, `Windows`, `FreeBSD`, or
/// another name) followed by its version. Nothing is claimed of the text,
/// which depends on the machine.
#[verifier::external_body]
fn kernel_long_version() -> String {
    sysinfo::System::kernel_long_version()
}

/// The OS that a kernel description names by its first word.
pub open spec fn os_from_kernel(k: Seq<char>) -> OsKind {
    if starts_with(k, "Linux "@) {
        OsKind::Linux
    } else if starts_with(k, "Darwin "@) {
        OsKind::Macos
    } else if starts_with(k, "Windows "@) {
        OsKind::Windows
    } else if starts_with(k, "FreeBSD "@) {
        OsKind::Freebsd
    } else {
        OsKind::Unknown
    }
}

/// The spelling of an OS kind (`Display`).
pub open spec fn os_name(k: OsKind) -> Seq<char> {
    match k {
        OsKind::Linux => "linux"@,
        OsKind::Macos => "macos"@,
        OsKind::Windows => "windows"@,
        OsKind::Freebsd => "freebsd"@,
        OsKind::Unknown => "unknown"@,
    }
}

/// Whether `s` starts with `p`.
fn text_starts_with(s: &str, p: &str) -> (r: bool)
    ensures
        r == starts_with(s@, p@),
{
    let v = chars_of(s);
    let w = chars_of(p);
    vec_starts_with(&v, &w)
}

impl OsKind {
    /// The OS that a kernel description (`Linux 6.8.0`, `Darwin 24.1.0`,
    /// `Windows OS Build 20348`, `FreeBSD 199506`) names.
    pub fn from_kernel(k: &str) -> (r: Self)
        ensures
            r == os_from_kernel(k@),
    {
        if text_starts_with(k, "Linux ") {
            OsKind::Linux
        } else if text_starts_with(k, "Darwin ") {
            OsKind::Macos
        } else if text_starts_with(k, "Windows ") {
            OsKind::Windows
        } else if text_starts_with(k, "FreeBSD ") {
            OsKind::Freebsd
        } else {
            OsKind::Unknown
        }
    }

    /// Detect the current OS kind, from the kernel that the system
    /// information was built for.
    pub fn detect() -> (r: Self) {
        let k = kernel_long_version();
        OsKind::from_kernel(k.as_str())
    }

    /// Returns true if the OS supports a launchd-style service manager.
    pub fn is_macos(&self) -> (r: bool)
        ensures
            r == (*self == OsKind::Macos),
    {
        match self {
            OsKind::Macos => true,
            _ => false,
        }
    }

    /// Returns true if the OS supports systemd.
    pub fn is_linux(&self) -> (r: bool)
        ensures
            r == (*self == OsKind::Linux),
    {
        match self {
            OsKind::Linux => true,
            _ => false,
        }
    }

    /// Returns true if the OS uses Task Scheduler.
    pub fn is_windows(&self) -> (r: bool)
        ensures
            r == (*self == OsKind::Windows),
    {
        match self {
            OsKind::Windows => true,
            _ => false,
        }
    }

    /// The lower-case name of the OS.
    pub fn as_str(&self) -> (r: &'static str)
        ensures
            r@ == os_name(*self),
    {
        match self {
            OsKind::Linux => "linux",
            OsKind::Macos => "macos",
            OsKind::Windows => "windows",
            OsKind::Freebsd => "freebsd",
            OsKind::Unknown => "unknown",
        }
    }
}

/// Aggregate system information.
#[derive(Debug, Clone)]
pub struct System {
    /// OS kind.
    pub os: OsKind,
    /// Architecture string (e.g. "x86_64", "aarch64").
    pub arch: String,
    /// Hostname (best-effort).
    pub hostname: String,
    /// Number of logical CPUs.
    pub cpus: usize,
    /// Total memory in bytes (best-effort).
    pub total_memory: Option<u64>,
    /// OS version string.
    pub os_version: Option<String>,
    /// Kernel version.
    pub kernel: Option<String>,
}

/// `s` without its leading `c`s.
pub open spec fn trim_start_char(s: Seq<char>, c: char) -> Seq<char>
    decreases s.len(),
{
    if s.len() > 0 && s[0] == c {
        trim_start_char(s.drop_first(), c)
    } else {
        s
    }
}

/// `s` without its trailing `c`s.
pub open spec fn trim_end_of(s: Seq<char>, c: char) -> Seq<char>
    decreases s.len(),
{
    if s.len() > 0 && s.last() == c {
        trim_end_of(s.drop_last(), c)
    } else {
        s
    }
}

/// `s` without the double quotes at either end (`str::trim_matches('"')`).
pub open spec fn unquoted(s: Seq<char>) -> Seq<char> {
    trim_end_of(trim_start_char(s, '"'), '"')
}

/// The `PRETTY_NAME` of the first line of `lines` that sets it, unquoted.
pub open spec fn pretty_name_of(lines: Seq<Seq<char>>) -> Option<Seq<char>>
    decreases lines.len(),
{
    if lines.len() == 0 {
        None
    } else if starts_with(lines[0], "PRETTY_NAME="@) {
        Some(unquoted(lines[0].skip(12)))
    } else {
        pretty_name_of(lines.drop_first())
    }
}

/// `v[from..]` without the double quotes at either end.
fn unquote_from(v: &Vec<char>, from: usize) -> (r: String)
    requires
        from <= v@.len(),
    ensures
        r@ == unquoted(v@.skip(from as int)),
{
    let mut a = from;
    while a < v.len() && v[a] == '"'
        invariant
            from <= a <= v@.len(),
            trim_start_char(v@.skip(a as int), '"') == trim_start_char(v@.skip(from as int), '"'),
        decreases v.len() - a,
    {
        assert(v@.skip(a as int).drop_first() =~= v@.skip(a + 1));
        assert(v@.skip(a as int)[0] == v@[a as int]);
        a += 1;
    }
    if a < v.len() {
        assert(v@.skip(a as int)[0] == v@[a as int]);
    }
    assert(trim_start_char(v@.skip(from as int), '"') == v@.skip(a as int));
    let n = v.len();
    let mut b = n;
    assert(v@.subrange(a as int, n as int) =~= v@.skip(a as int));
    while b > a && v[b - 1] == '"'
        invariant
            a <= b <= n,
            n == v@.len(),
            trim_end_of(v@.subrange(a as int, b as int), '"') == trim_end_of(v@.skip(a as int), '"'),
        decreases b,
    {
        assert(v@.subrange(a as int, b as int).drop_last() =~= v@.subrange(a as int, b - 1));
        assert(v@.subrange(a as int, b as int).last() == v@[b - 1]);
        b -= 1;
    }
    if b > a {
        assert(v@.subrange(a as int, b as int).last() == v@[b - 1]);
    }
    string_of_range(v, a, b)
}

/// The OS's pretty name from the text of `/etc/os-release`: the value of
/// the first `PRETTY_NAME=` line, without surrounding double quotes.
pub fn pretty_name(os_release: &str) -> (r: Option<String>)
    ensures
        match pretty_name_of(text_lines(os_release@)) {
            Some(n) => r is Some && r->Some_0@ == n,
            None => r is None,
        },
{
    let lines = lines_of(os_release);
    let ghost ls = lines@.map_values(|x: String| x@);
    let prefix = chars_of("PRETTY_NAME=");
    proof {
        reveal_strlit("PRETTY_NAME=");
    }
    assert(prefix@.len() == 12);
    let mut i: usize = 0;
    assert(ls.skip(0) =~= ls);
    while i < lines.len()
        invariant
            ls == lines@.map_values(|x: String| x@),
            ls == text_lines(os_release@),
            prefix@ == "PRETTY_NAME="@,
            prefix@.len() == 12,
            i <= ls.len(),
            pretty_name_of(ls) == pretty_name_of(ls.skip(i as int)),
        decreases lines.len() - i,
    {
        let v = chars_of(lines[i].as_str());
        assert(ls.skip(i as int)[0] == v@);
        assert(ls.skip(i as int).drop_first() =~= ls.skip(i + 1));
        if vec_starts_with(&v, &prefix) {
            return Some(unquote_from(&v, 12));
        }
        i += 1;
    }
    assert(ls.skip(i as int).len() == 0);
    None
}

} // verus!
