//! Common shared types.

use vstd::prelude::*;
use core::cmp::Ordering;
use vstd::std_specs::cmp::PartialOrdSpecImpl;
use crate::text::{
    IntErrorKind, chars_of, decimal, decimal_string, has_char, int_error_string, int_error_text,
    lemma_decimal_digits, lemma_parse_decimal, lemma_split_append, lemma_split_none, owned,
    parse_uint, parse_uint_vec, push_str, split, split_vec,
};

verus! {

/// Semantic version of the state-file format.
///
/// Bumping the state version may require re-running `portless trust` because
/// the CA fingerprint is bound to the state directory.
#[derive(Debug, Clone, Copy, PartialEq, Eq, Structural, Ord, Hash)]
pub struct Version(pub u32, pub u32, pub u32);

/// How two numbers compare.
pub open spec fn order_of(a: u32, b: u32) -> Ordering {
    if a < b {
        Ordering::Less
    } else if a > b {
        Ordering::Greater
    } else {
        Ordering::Equal
    }
}

/// How two versions compare: by major, then minor, then patch number.
pub open spec fn version_order(a: Version, b: Version) -> Ordering {
    if a.0 != b.0 {
        order_of(a.0, b.0)
    } else if a.1 != b.1 {
        order_of(a.1, b.1)
    } else {
        order_of(a.2, b.2)
    }
}

impl PartialOrd for Version {
    fn partial_cmp(&self, other: &Version) -> (r: Option<Ordering>) {
        if self.0 != other.0 {
            if self.0 < other.0 {
                Some(Ordering::Less)
            } else {
                Some(Ordering::Greater)
            }
        } else if self.1 != other.1 {
            if self.1 < other.1 {
                Some(Ordering::Less)
            } else {
                Some(Ordering::Greater)
            }
        } else if self.2 < other.2 {
            Some(Ordering::Less)
        } else if self.2 > other.2 {
            Some(Ordering::Greater)
        } else {
            Some(Ordering::Equal)
        }
    }
}

impl PartialOrdSpecImpl for Version {
    open spec fn obeys_partial_cmp_spec() -> bool {
        true
    }

    open spec fn partial_cmp_spec(&self, other: &Version) -> Option<Ordering> {
        Some(version_order(*self, *other))
    }
}

/// `major.minor.patch`, each part in decimal.
pub open spec fn version_text(v: Version) -> Seq<char> {
    (decimal(v.0 as nat).push('.') + decimal(v.1 as nat)).push('.') + decimal(v.2 as nat)
}

/// What parsing `s` as a version gives: three `.`-separated `u32`s, the
/// first part that fails to parse deciding the error.
pub open spec fn parse_version(s: Seq<char>) -> Result<Version, Seq<char>> {
    let p = split(s, '.');
    if p.len() != 3 {
        Err("invalid version string: "@ + s)
    } else {
        match parse_uint(p[0], u32::MAX as nat) {
            Err(e) => Err(int_error_text(e)),
            Ok(a) => match parse_uint(p[1], u32::MAX as nat) {
                Err(e) => Err(int_error_text(e)),
                Ok(b) => match parse_uint(p[2], u32::MAX as nat) {
                    Err(e) => Err(int_error_text(e)),
                    Ok(c) => Ok(Version(a as u32, b as u32, c as u32)),
                },
            },
        }
    }
}

impl Version {
    /// Construct a new version.
    pub fn new(major: u32, minor: u32, patch: u32) -> (v: Self)
        ensures
            v == Version(major, minor, patch),
    {
        Version(major, minor, patch)
    }

    /// Current state-file version.
    pub fn current() -> (v: Self)
        ensures
            v == Version(1, 0, 0),
    {
        Version(1, 0, 0)
    }

    /// `major.minor.patch`.
    pub fn to_string(&self) -> (s: String)
        ensures
            s@ == version_text(*self),
    {
        let mut s = decimal_string(self.0 as u64);
        s.push('.');
        let b = decimal_string(self.1 as u64);
        push_str(&mut s, b.as_str());
        s.push('.');
        let c = decimal_string(self.2 as u64);
        push_str(&mut s, c.as_str());
        s
    }

    /// Parse `major.minor.patch`.
    pub fn parse(s: &str) -> (r: Result<Version, String>)
        ensures
            match parse_version(s@) {
                Ok(v) => r == Ok::<Version, String>(v),
                Err(m) => r is Err && r->Err_0@ == m,
            },
    {
        let v = chars_of(s);
        let parts = split_vec(&v, '.');
        if parts.len() != 3 {
            let mut m = owned("invalid version string: ");
            push_str(&mut m, s);
            return Err(m);
        }
        let a = match parse_uint_vec(&parts[0], 0xFFFF_FFFF) {
            Ok(n) => n as u32,
            Err(e) => return Err(int_error_string(e)),
        };
        let b = match parse_uint_vec(&parts[1], 0xFFFF_FFFF) {
            Ok(n) => n as u32,
            Err(e) => return Err(int_error_string(e)),
        };
        let c = match parse_uint_vec(&parts[2], 0xFFFF_FFFF) {
            Ok(n) => n as u32,
            Err(e) => return Err(int_error_string(e)),
        };
        Ok(Version(a, b, c))
    }
}

impl core::str::FromStr for Version {
    type Err = String;

    fn from_str(s: &str) -> (r: Result<Self, String>)
        ensures
            match parse_version(s@) {
                Ok(v) => r == Ok::<Version, String>(v),
                Err(m) => r is Err && r->Err_0@ == m,
            },
    {
        Version::parse(s)
    }
}

/// Parsing what [`Version::to_string`] writes gives the same version back.
pub proof fn lemma_version_round_trip(v: Version)
    ensures
        parse_version(version_text(v)) == Ok::<Version, Seq<char>>(v),
{
    let da = decimal(v.0 as nat);
    let db = decimal(v.1 as nat);
    let dc = decimal(v.2 as nat);
    lemma_no_dot(v.0 as nat);
    lemma_no_dot(v.1 as nat);
    lemma_no_dot(v.2 as nat);
    lemma_split_none(da, '.');
    lemma_split_append(da, db, '.');
    lemma_split_append(da.push('.') + db, dc, '.');
    let p = split(version_text(v), '.');
    assert(p == seq![da, db, dc]);
    lemma_parse_decimal(v.0 as nat, u32::MAX as nat);
    lemma_parse_decimal(v.1 as nat, u32::MAX as nat);
    lemma_parse_decimal(v.2 as nat, u32::MAX as nat);
}

/// A decimal rendering holds no `.`.
proof fn lemma_no_dot(n: nat)
    ensures
        !has_char(decimal(n), '.'),
{
    lemma_decimal_digits(n);
    if has_char(decimal(n), '.') {
        let k = choose|k: int| 0 <= k < decimal(n).len() && decimal(n)[k] == '.';
        assert(crate::text::is_digit(decimal(n)[k]));
    }
}

} // verus!
