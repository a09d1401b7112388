//! TLD (top-level domain) handling for Portless hostnames.

use vstd::prelude::*;
use vstd::utf8::encode_utf8;
use crate::common::error::Error;
use crate::text::{
    IntoText, chars_of, decimal, decimal_string, has_char, is_alpha, is_alpha_char, lower_seq,
    owned, push_str, str_eq, to_lower,
};

verus! {

/// Minimum length of a valid TLD.
pub const MIN_LEN: usize = 2;

/// Maximum length of a valid TLD.
pub const MAX_LEN: usize = 63;

/// Every character is an ASCII letter.
pub open spec fn all_alpha(s: Seq<char>) -> bool {
    forall|i: int| 0 <= i < s.len() ==> is_alpha(#[trigger] s[i])
}

/// Why `s` is not a valid TLD, if it is not. Lengths count UTF-8 bytes.
pub open spec fn tld_error(s: Seq<char>) -> Option<Seq<char>> {
    let n = encode_utf8(s).len();
    if s.len() == 0 {
        Some("empty"@)
    } else if s[0] == '.' {
        Some("starts with '.': "@ + s)
    } else if has_char(s, '.') {
        Some("must not contain '.': "@ + s)
    } else if n < 2 || n > 63 {
        Some("length must be 2-63, got "@ + decimal(n))
    } else if !all_alpha(s) {
        Some("must contain only ASCII letters: "@ + s)
    } else {
        None
    }
}

/// `s` is a valid TLD: 2..=63 ASCII letters.
pub open spec fn valid_tld(s: Seq<char>) -> bool {
    tld_error(s) is None
}

/// The reserved TLDs of IANA / RFC 2606 (and `example.com`).
pub open spec fn is_reserved_name(s: Seq<char>) -> bool {
    s == "localhost"@ || s == "local"@ || s == "test"@ || s == "invalid"@ || s == "example"@ || s
        == "example.com"@
}

/// Warning about `.local`.
pub open spec fn local_warning() -> &'static str {
    "the '.local' TLD collides with mDNS / Bonjour; some resolvers will not return 127.0.0.1"
}

/// Warning about `.dev`.
pub open spec fn dev_warning() -> &'static str {
    "the '.dev' TLD is owned by Google and is HSTS-preloaded; not recommended for local development"
}

/// `prefix` followed by `s`.
fn message(prefix: &str, s: &str) -> (m: String)
    ensures
        m@ == prefix@ + s@,
{
    let mut m = owned(prefix);
    push_str(&mut m, s);
    m
}

/// Validate a TLD per the TLD grammar:
/// - 2..=63 characters (UTF-8 bytes)
/// - ASCII letters only
/// - No leading dot, no dot at all
///
/// The error is always [`Error::InvalidTld`], carrying the complaint that
/// [`tld_error`] names.
pub fn validate(tld: &str) -> (r: Result<(), Error>)
    ensures
        r is Ok <==> valid_tld(tld@),
        r matches Err(e) ==> e is InvalidTld && tld_error(tld@) == Some(e->InvalidTld_0@),
{
    let v = chars_of(tld);
    if v.len() == 0 {
        return Err(Error::InvalidTld(owned("empty")));
    }
    if v[0] == '.' {
        return Err(Error::InvalidTld(message("starts with '.': ", tld)));
    }
    let dot = crate::text::find_char(&v, '.');
    proof {
        crate::text::lemma_first_index(v@, '.');
    }
    if dot < v.len() {
        return Err(Error::InvalidTld(message("must not contain '.': ", tld)));
    }
    let n = tld.as_bytes().len();
    if n < MIN_LEN || n > MAX_LEN {
        let d = decimal_string(n as u64);
        return Err(Error::InvalidTld(message("length must be 2-63, got ", d.as_str())));
    }
    assert(tld_error(v@) == (if all_alpha(v@) {
        None
    } else {
        Some("must contain only ASCII letters: "@ + v@)
    }));
    let mut i: usize = 0;
    while i < v.len()
        invariant
            v@ == tld@,
            tld_error(v@) == (if all_alpha(v@) {
                None
            } else {
                Some("must contain only ASCII letters: "@ + v@)
            }),
            i <= v.len(),
            forall|j: int| 0 <= j < i ==> is_alpha(#[trigger] v@[j]),
        decreases v.len() - i,
    {
        if !is_alpha_char(v[i]) {
            return Err(Error::InvalidTld(message("must contain only ASCII letters: ", tld)));
        }
        i += 1;
    }
    Ok(())
}

/// A validated TLD (e.g. `localhost`, `test`, `internal`), stored in lower
/// case.
#[derive(Debug, Clone, PartialEq, Eq, Hash)]
pub struct Tld(String);

impl View for Tld {
    type V = Seq<char>;

    closed spec fn view(&self) -> Seq<char> {
        self.0@
    }
}

impl Tld {
    /// Construct a new TLD after validation; the stored TLD is lower-cased.
    pub fn new<S: IntoText>(s: S) -> (r: Result<Self, Error>)
        ensures
            r is Ok <==> valid_tld(s.text_view()),
            r matches Ok(t) ==> t@ == lower_seq(s.text_view()),
            r matches Err(e) ==> e is InvalidTld && tld_error(s.text_view()) == Some(
                e->InvalidTld_0@,
            ),
    {
        let s = s.into_text();
        match validate(s.as_str()) {
            Ok(()) => Ok(Tld(to_lower(s.as_str()))),
            Err(e) => Err(e),
        }
    }

    /// Construct from a string without validation (lower-cased).
    pub fn new_unchecked<S: IntoText>(s: S) -> (t: Self)
        ensures
            t@ == lower_seq(s.text_view()),
    {
        let s = s.into_text();
        Tld(to_lower(s.as_str()))
    }

    /// Access the inner string.
    pub fn as_str(&self) -> (r: &str)
        ensures
            r@ == self@,
    {
        self.0.as_str()
    }

    /// Returns true if this TLD is reserved by IANA / RFC 2606.
    pub fn is_reserved(&self) -> (r: bool)
        ensures
            r == is_reserved_name(self@),
    {
        let s = self.0.as_str();
        str_eq(s, "localhost") || str_eq(s, "local") || str_eq(s, "test") || str_eq(s, "invalid")
            || str_eq(s, "example") || str_eq(s, "example.com")
    }

    /// Returns a warning if the TLD has known browser / OS quirks: `local`
    /// (mDNS) and `dev` (HSTS-preloaded).
    pub fn warning(&self) -> (r: Option<&'static str>)
        ensures
            self@ == "local"@ ==> r is Some && r->Some_0@ == local_warning()@,
            self@ == "dev"@ ==> r is Some && r->Some_0@ == dev_warning()@,
            self@ != "local"@ && self@ != "dev"@ ==> r is None,
    {
        let s = self.0.as_str();
        proof {
            reveal_strlit("local");
            reveal_strlit("dev");
            assert("dev"@.len() == 3);
            assert("local"@.len() == 5);
            assert("dev"@ != "local"@);
        }
        if str_eq(s, "local") {
            Some(
                "the '.local' TLD collides with mDNS / Bonjour; some resolvers will not return 127.0.0.1",
            )
        } else if str_eq(s, "dev") {
            Some(
                "the '.dev' TLD is owned by Google and is HSTS-preloaded; not recommended for local development",
            )
        } else {
            None
        }
    }

    /// Clone with a known result.
    pub fn copy(&self) -> (r: Self)
        ensures
            r@ == self@,
    {
        Tld(self.0.clone())
    }
}

impl Default for Tld {
    /// The default TLD, `localhost`.
    fn default() -> (t: Self)
        ensures
            t@ == "localhost"@,
    {
        Tld(owned("localhost"))
    }
}

} // verus!
