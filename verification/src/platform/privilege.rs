//! Privilege levels: root / admin versus a normal user.

use vstd::prelude::*;
use crate::text::{lower_seq, str_eq, to_lower, trim, trimmed};

verus! {

/// Current process privilege level.
#[derive(Debug, Clone, Copy, PartialEq, Eq, Structural)]
pub enum Privilege {
    /// Running as a normal user.
    User,
    /// Running as the Unix root user.
    Root,
    /// Running as a Windows administrator.
    Admin,
    /// Unknown / unsupported platform.
    Unknown,
}

impl Privilege {
    /// The privilege that the output of `id -u` shows: `0` (around
    /// whitespace) is root, any other output a normal user.
    pub fn from_uid_output(out: &str) -> (p: Self)
        ensures
            p == if trimmed(out@) == seq!['0'] {
                Privilege::Root
            } else {
                Privilege::User
            },
    {
        let t = trim(out);
        proof {
            reveal_strlit("0");
        }
        assert("0"@ == seq!['0']);
        if str_eq(t.as_str(), "0") {
            Privilege::Root
        } else {
            Privilege::User
        }
    }

    /// Returns true if we are root / admin.
    pub fn is_elevated(&self) -> (r: bool)
        ensures
            r == (*self == Privilege::Root || *self == Privilege::Admin),
    {
        match self {
            Privilege::Root | Privilege::Admin => true,
            _ => false,
        }
    }
}

/// Whether a `CI` value says the run is under CI: `1`, or `true` in any
/// letter case.
pub open spec fn ci_value(value: Option<Seq<char>>) -> bool {
    match value {
        Some(v) => v == "1"@ || lower_seq(v) == "true"@,
        None => false,
    }
}

/// Whether the value of the `CI` variable (none when it is unset or not
/// Unicode) says the run is under CI.
pub fn ci_flag(value: Option<&str>) -> (r: bool)
    ensures
        r == ci_value(
            match value {
                Some(v) => Some(v@),
                None => None,
            },
        ),
{
    match value {
        Some(v) => {
            let l = to_lower(v);
            str_eq(v, "1") || str_eq(l.as_str(), "true")
        },
        None => false,
    }
}

} // verus!
