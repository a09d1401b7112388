//! OS-level CA trust: the commands that add the local CA to the system
//! trust store (keychain, `update-ca-certificates`, `certutil`) or take it
//! out again, and what their outcome means.

use vstd::prelude::*;
use crate::common::error::Error;
use crate::platform::system::OsKind;
use crate::process::spawn::texts;
use crate::text::owned;

verus! {

/// The file name the CA certificate is written to, in the temporary
/// directory, before it is handed to the trust store.
pub const CA_TEMP_FILE: &'static str = "portless-ca.pem";

/// Where Debian-family systems take extra CA certificates from.
pub const LINUX_CA_DEST: &'static str = "/usr/local/share/ca-certificates/portless-ca.crt";

/// The common name the CA certificate carries.
pub const CA_COMMON_NAME: &'static str = "Portless Local CA";

/// The message of the error for an OS without a trust store integration.
pub const UNSUPPORTED: &'static str = "CA trust not implemented on this platform";

/// One trust-store command: the program, its arguments, and the message of
/// the error its failure raises (`None` when its outcome is ignored).
#[derive(Debug)]
pub struct TrustStep {
    /// The program to run.
    pub program: String,
    /// Its arguments.
    pub args: Vec<String>,
    /// The message of the TLS error when it fails; `None` when a failure,
    /// or a failure to start it, is ignored.
    pub failure: Option<String>,
}

/// A trust-store command as text: program, arguments, failure message.
pub type StepText = (Seq<char>, Seq<Seq<char>>, Option<Seq<char>>);

/// The text of a step.
pub open spec fn step_text(s: TrustStep) -> StepText {
    (s.program@, texts(s.args@), match s.failure {
        Some(m) => Some(m@),
        None => None,
    })
}

/// The texts of a list of steps.
pub open spec fn steps_text(v: Seq<TrustStep>) -> Seq<StepText> {
    v.map_values(|s: TrustStep| step_text(s))
}

/// The commands that install the CA certificate stored at `path`, in the
/// order they run; `None` for an OS without a trust store integration.
/// - macOS: `sudo security add-trusted-cert -d -r trustRoot -k
///   /Library/Keychains/System.keychain <path>`, which must succeed;
/// - Linux: `sudo cp <path> /usr/local/share/ca-certificates/portless-ca.crt`,
///   which must succeed, then `sudo update-ca-certificates`, whose outcome
///   is ignored;
/// - Windows: `certutil -addstore -f ROOT <path>`, which must succeed.
pub open spec fn install_steps(os: OsKind, path: Seq<char>) -> Option<Seq<StepText>> {
    match os {
        OsKind::Macos => Some(
            seq![
                (
                    "sudo"@,
                    seq![
                        "security"@,
                        "add-trusted-cert"@,
                        "-d"@,
                        "-r"@,
                        "trustRoot"@,
                        "-k"@,
                        "/Library/Keychains/System.keychain"@,
                        path,
                    ],
                    Some("macOS security add-trusted-cert failed"@),
                ),
            ],
        ),
        OsKind::Linux => Some(
            seq![
                (
                    "sudo"@,
                    seq!["cp"@, path, LINUX_CA_DEST@],
                    Some("copying CA to /usr/local/share/ca-certificates failed"@),
                ),
                ("sudo"@, seq!["update-ca-certificates"@], None),
            ],
        ),
        OsKind::Windows => Some(
            seq![
                (
                    "certutil"@,
                    seq!["-addstore"@, "-f"@, "ROOT"@, path],
                    Some("certutil addstore failed"@),
                ),
            ],
        ),
        _ => None,
    }
}

/// The commands that remove the CA certificate, in the order they run;
/// the outcome of each is ignored. `None` for an OS without a trust store
/// integration.
/// - macOS: `sudo security delete-certificate -c "Portless Local CA"`;
/// - Linux: `sudo rm -f /usr/local/share/ca-certificates/portless-ca.crt`,
///   then `sudo update-ca-certificates --fresh`;
/// - Windows: `certutil -delstore ROOT "Portless Local CA"`.
pub open spec fn uninstall_steps(os: OsKind) -> Option<Seq<StepText>> {
    match os {
        OsKind::Macos => Some(
            seq![("sudo"@, seq!["security"@, "delete-certificate"@, "-c"@, CA_COMMON_NAME@], None)],
        ),
        OsKind::Linux => Some(
            seq![
                ("sudo"@, seq!["rm"@, "-f"@, LINUX_CA_DEST@], None),
                ("sudo"@, seq!["update-ca-certificates"@, "--fresh"@], None),
            ],
        ),
        OsKind::Windows => Some(
            seq![("certutil"@, seq!["-delstore"@, "ROOT"@, CA_COMMON_NAME@], None)],
        ),
        _ => None,
    }
}

fn step(program: &str, args: Vec<String>, failure: Option<&str>) -> (s: TrustStep)
    ensures
        s.program@ == program@,
        s.args@ == args@,
        match failure {
            Some(m) => s.failure matches Some(f) && f@ == m@,
            None => s.failure is None,
        },
{
    let failure = match failure {
        Some(m) => Some(owned(m)),
        None => None,
    };
    TrustStep { program: owned(program), args, failure }
}

fn push_text(v: &mut Vec<String>, t: &str)
    ensures
        texts(final(v)@) == texts(old(v)@).push(t@),
{
    v.push(owned(t));
    assert(texts(v@) =~= texts(old(v)@).push(t@));
}

/// The commands that install the CA certificate stored at `ca_path` into
/// the trust store of `os`, in the order they run; for an OS without a
/// trust store integration, the unsupported-platform error.
pub fn install_plan(os: OsKind, ca_path: &str) -> (r: Result<Vec<TrustStep>, Error>)
    ensures
        install_steps(os, ca_path@) is None <==> r is Err,
        r is Err ==> (r matches Err(Error::UnsupportedPlatform(m)) && m@ == UNSUPPORTED@),
        r is Ok ==> steps_text(r->Ok_0@) == install_steps(os, ca_path@)->Some_0,
{
    let mut v: Vec<TrustStep> = Vec::new();
    match os {
        OsKind::Macos => {
            let mut args: Vec<String> = Vec::new();
            push_text(&mut args, "security");
            push_text(&mut args, "add-trusted-cert");
            push_text(&mut args, "-d");
            push_text(&mut args, "-r");
            push_text(&mut args, "trustRoot");
            push_text(&mut args, "-k");
            push_text(&mut args, "/Library/Keychains/System.keychain");
            push_text(&mut args, ca_path);
            assert(texts(args@) =~= seq![
                "security"@,
                "add-trusted-cert"@,
                "-d"@,
                "-r"@,
                "trustRoot"@,
                "-k"@,
                "/Library/Keychains/System.keychain"@,
                ca_path@,
            ]);
            v.push(step("sudo", args, Some("macOS security add-trusted-cert failed")));
            assert(steps_text(v@) =~= install_steps(os, ca_path@)->Some_0);
        },
        OsKind::Linux => {
            let mut args: Vec<String> = Vec::new();
            push_text(&mut args, "cp");
            push_text(&mut args, ca_path);
            push_text(&mut args, LINUX_CA_DEST);
            assert(texts(args@) =~= seq!["cp"@, ca_path@, LINUX_CA_DEST@]);
            v.push(step("sudo", args, Some("copying CA to /usr/local/share/ca-certificates failed")));
            let mut update: Vec<String> = Vec::new();
            push_text(&mut update, "update-ca-certificates");
            assert(texts(update@) =~= seq!["update-ca-certificates"@]);
            v.push(step("sudo", update, None));
            assert(steps_text(v@) =~= install_steps(os, ca_path@)->Some_0);
        },
        OsKind::Windows => {
            let mut args: Vec<String> = Vec::new();
            push_text(&mut args, "-addstore");
            push_text(&mut args, "-f");
            push_text(&mut args, "ROOT");
            push_text(&mut args, ca_path);
            assert(texts(args@) =~= seq!["-addstore"@, "-f"@, "ROOT"@, ca_path@]);
            v.push(step("certutil", args, Some("certutil addstore failed")));
            assert(steps_text(v@) =~= install_steps(os, ca_path@)->Some_0);
        },
        _ => {
            return Err(Error::UnsupportedPlatform(owned(UNSUPPORTED)));
        },
    }
    Ok(v)
}

/// The commands that remove the CA certificate from the trust store of
/// `os`, in the order they run; for an OS without a trust store
/// integration, the unsupported-platform error.
pub fn uninstall_plan(os: OsKind) -> (r: Result<Vec<TrustStep>, Error>)
    ensures
        uninstall_steps(os) is None <==> r is Err,
        r is Err ==> (r matches Err(Error::UnsupportedPlatform(m)) && m@ == UNSUPPORTED@),
        r is Ok ==> steps_text(r->Ok_0@) == uninstall_steps(os)->Some_0,
{
    let mut v: Vec<TrustStep> = Vec::new();
    match os {
        OsKind::Macos => {
            let mut args: Vec<String> = Vec::new();
            push_text(&mut args, "security");
            push_text(&mut args, "delete-certificate");
            push_text(&mut args, "-c");
            push_text(&mut args, CA_COMMON_NAME);
            assert(texts(args@) =~= seq!["security"@, "delete-certificate"@, "-c"@, CA_COMMON_NAME@]);
            v.push(step("sudo", args, None));
            assert(steps_text(v@) =~= uninstall_steps(os)->Some_0);
        },
        OsKind::Linux => {
            let mut rm: Vec<String> = Vec::new();
            push_text(&mut rm, "rm");
            push_text(&mut rm, "-f");
            push_text(&mut rm, LINUX_CA_DEST);
            assert(texts(rm@) =~= seq!["rm"@, "-f"@, LINUX_CA_DEST@]);
            v.push(step("sudo", rm, None));
            let mut update: Vec<String> = Vec::new();
            push_text(&mut update, "update-ca-certificates");
            push_text(&mut update, "--fresh");
            assert(texts(update@) =~= seq!["update-ca-certificates"@, "--fresh"@]);
            v.push(step("sudo", update, None));
            assert(steps_text(v@) =~= uninstall_steps(os)->Some_0);
        },
        OsKind::Windows => {
            let mut args: Vec<String> = Vec::new();
            push_text(&mut args, "-delstore");
            push_text(&mut args, "ROOT");
            push_text(&mut args, CA_COMMON_NAME);
            assert(texts(args@) =~= seq!["-delstore"@, "ROOT"@, CA_COMMON_NAME@]);
            v.push(step("certutil", args, None));
            assert(steps_text(v@) =~= uninstall_steps(os)->Some_0);
        },
        _ => {
            return Err(Error::UnsupportedPlatform(owned(UNSUPPORTED)));
        },
    }
    Ok(v)
}

/// What running a step came to: `ran` is `Ok(succeeded)` when the program
/// ran and `Err(message)` when it could not be started. A step whose
/// outcome is ignored never fails; otherwise a start failure is an I/O
/// error with its message and an unsuccessful run the step's TLS error.
pub fn step_outcome(step: &TrustStep, ran: Result<bool, String>) -> (r: Result<(), Error>)
    ensures
        step.failure is None ==> r is Ok,
        step.failure is Some ==> match ran {
            Ok(true) => r is Ok,
            Ok(false) => r matches Err(Error::Tls(m)) && m@ == step.failure->Some_0@,
            Err(io) => r matches Err(Error::Io(m)) && m@ == io@,
        },
{
    match &step.failure {
        None => Ok(()),
        Some(f) => match ran {
            Ok(true) => Ok(()),
            Ok(false) => Err(Error::Tls(owned(f.as_str()))),
            Err(io) => Err(Error::Io(io)),
        },
    }
}

} // verus!
