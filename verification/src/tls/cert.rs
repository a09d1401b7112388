//! Per-hostname certificates: the pair of PEM texts, the names and serial
//! number a leaf certificate carries, and the in-memory cache.

use vstd::prelude::*;
use crate::process::spawn::texts;
use crate::text::{chars_of, owned, starts_with, string_of_range, vec_starts_with};
use crate::text_map::TextMap;
use crate::common::error::Error;
use crate::text::push_str;
use crate::tls::ca::{Ca, pem_cert_der, sha256, sha256_of};
use crate::tls::x509::{ca_profile, key_from_pem, key_generate, key_pem, leaf_profile, params_of, sign_by};

verus! {

/// Days a leaf certificate stays valid.
pub const LEAF_VALIDITY_DAYS: i64 = 90;

/// Days the local CA stays valid.
pub const CA_VALIDITY_DAYS: i64 = 3650;

/// A pair of (PEM cert, PEM key) for a hostname.
#[derive(Debug, Clone)]
pub struct CertPair {
    /// PEM-encoded leaf certificate.
    pub cert_pem: String,
    /// PEM-encoded private key.
    pub key_pem: String,
}

impl CertPair {
    /// Render as `(cert, key)` PEM strings.
    pub fn into_strings(self) -> (r: (String, String))
        ensures
            r.0 == self.cert_pem,
            r.1 == self.key_pem,
    {
        (self.cert_pem, self.key_pem)
    }

    /// A copy with the same texts.
    pub fn copy(&self) -> (r: Self)
        ensures
            r.cert_pem@ == self.cert_pem@,
            r.key_pem@ == self.key_pem@,
    {
        CertPair { cert_pem: self.cert_pem.clone(), key_pem: self.key_pem.clone() }
    }
}

/// The DNS names a leaf certificate for `hostname` covers: the hostname,
/// and for a wildcard `*.tld` also the bare `tld`.
pub open spec fn san_names(hostname: Seq<char>) -> Seq<Seq<char>> {
    if starts_with(hostname, "*."@) {
        seq![hostname, hostname.skip(2)]
    } else {
        seq![hostname]
    }
}

/// The DNS names of the leaf certificate for `hostname`.
pub fn leaf_san_names(hostname: &str) -> (r: Vec<String>)
    ensures
        texts(r@) == san_names(hostname@),
{
    let v = chars_of(hostname);
    let star = chars_of("*.");
    let mut r: Vec<String> = Vec::new();
    r.push(owned(hostname));
    proof {
        reveal_strlit("*.");
    }
    assert(star@.len() == 2);
    if vec_starts_with(&v, &star) {
        let rest = string_of_range(&v, 2, v.len());
        assert(v@.subrange(2, v@.len() as int) == hostname@.skip(2));
        r.push(rest);
    }
    assert(texts(r@) =~= san_names(hostname@));
    r
}

/// The serial number of the leaf certificate for `hostname`: the first
/// eight bytes of the SHA-256 digest of its UTF-8 text, so the same host
/// always gets the same serial.
pub fn leaf_serial(hostname: &str) -> (r: Vec<u8>)
    ensures
        r@ == sha256_of(vstd::utf8::encode_utf8(hostname@)).take(8),
{
    let d = sha256(hostname.as_bytes());
    let mut r: Vec<u8> = Vec::new();
    let mut i: usize = 0;
    while i < 8
        invariant
            d@.len() == 32,
            i <= 8,
            r@ == d@.take(i as int),
        decreases 8 - i,
    {
        r.push(d[i]);
        assert(d@.take(i + 1) == d@.take(i as int).push(d@[i as int]));
        i += 1;
    }
    r
}

/// A new leaf certificate for `hostname`: the [`leaf_profile`] certificate
/// for a fresh key, issued by the CA (under the [`ca_profile`] subject) and
/// signed with the CA's key. The CA's key must read as a key (else a TLS
/// error `ca key: …`) and its certificate as PEM (else the error of
/// [`Ca::cert_der`]); the other failures are certificate
/// errors.
pub fn generate_for(hostname: &str, ca: &Ca) -> (r: Result<CertPair, Error>)
    ensures
        pem_cert_der(vstd::utf8::encode_utf8(ca.cert_pem@)) is Err ==> r is Err,
        r matches Err(e) ==> e is Cert || e is Tls,
        r matches Err(Error::Tls(m)) ==> m@.len() >= 8 && (m@.take(8) == "ca key: "@ || m@.take(
            14,
        ) == "parse ca pem: "@),
{
    let ca_key = match key_from_pem(ca.key_pem.as_str()) {
        Ok(k) => k,
        Err(m) => {
            let mut t = owned("ca key: ");
            push_str(&mut t, m.as_str());
            proof {
                reveal_strlit("ca key: ");
            }
            assert(t@.take(8) =~= "ca key: "@);
            return Err(Error::Tls(t));
        },
    };
    match ca.cert_der() {
        Ok(_) => {},
        Err(e) => {
            proof {
                reveal_strlit("parse ca pem: ");
            }
            match &e {
                Error::Tls(m) => {
                    assert(m@.take(14) =~= "parse ca pem: "@);
                },
                _ => {},
            }
            return Err(e);
        },
    }
    let leaf = leaf_profile(hostname);
    let params = params_of(&leaf)?;
    let issuer_profile = ca_profile();
    let issuer = params_of(&issuer_profile)?;
    let leaf_key = match key_generate() {
        Ok(k) => k,
        Err(m) => return Err(Error::Cert(m)),
    };
    let cert = match sign_by(&params, &leaf_key, issuer, ca_key) {
        Ok(c) => c,
        Err(m) => return Err(Error::Cert(m)),
    };
    Ok(CertPair { cert_pem: cert, key_pem: key_pem(&leaf_key) })
}


/// In-memory cache of generated certificates, by hostname.
#[derive(Debug)]
pub struct CertStore {
    inner: TextMap<CertPair>,
}

impl CertStore {
    /// The cached certificates, by hostname.
    pub closed spec fn pairs(&self) -> Map<Seq<char>, CertPair> {
        self.inner.map()
    }

    /// Construct a new empty store.
    pub fn new() -> (s: Self)
        ensures
            s.pairs() == Map::<Seq<char>, CertPair>::empty(),
    {
        CertStore { inner: TextMap::new() }
    }

    /// Get a cached certificate.
    pub fn get(&self, hostname: &str) -> (r: Option<CertPair>)
        ensures
            r is Some <==> self.pairs().contains_key(hostname@),
            r matches Some(p) ==> p.cert_pem@ == self.pairs()[hostname@].cert_pem@ && p.key_pem@
                == self.pairs()[hostname@].key_pem@,
    {
        match self.inner.get(hostname) {
            Some(p) => Some(p.copy()),
            None => None,
        }
    }

    /// Insert a certificate.
    pub fn put(&mut self, hostname: &str, pair: CertPair)
        ensures
            final(self).pairs() == old(self).pairs().insert(hostname@, pair),
    {
        self.inner.insert(owned(hostname), pair);
    }

    /// Number of cached certificates.
    pub fn len(&self) -> (n: usize)
        ensures
            n == self.pairs().len(),
    {
        let n = self.inner.len();
        proof {
            crate::text_map::lemma_map_len(self.inner.entries_seq());
        }
        n
    }

    /// Returns true if empty.
    pub fn is_empty(&self) -> (r: bool)
        ensures
            r == (self.pairs().len() == 0),
    {
        self.len() == 0
    }

    /// Clear the cache.
    pub fn clear(&mut self)
        ensures
            final(self).pairs() == Map::<Seq<char>, CertPair>::empty(),
    {
        self.inner = TextMap::new();
    }
}

} // verus!
