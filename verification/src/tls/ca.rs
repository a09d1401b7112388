//! The local certificate authority (CA): its PEM material and the
//! fingerprint it is known by.

use vstd::prelude::*;
use crate::common::error::Error;
use crate::text::{lines_of, owned, push_str, starts_with, text_lines, trim, trimmed};

use crate::tls::x509::{ca_profile, key_generate, key_pem, params_of, sign_self};

verus! {

/// The SHA-256 digest of a byte sequence.
pub uninterp spec fn sha256_of(bytes: Seq<u8>) -> Seq<u8>;

/// The bytes that standard (padded) base64 text decodes to, if it is valid.
pub uninterp spec fn base64_standard(text: Seq<char>) -> Option<Seq<u8>>;

/// The text that `String::from_utf8_lossy` reads from a byte sequence.
pub uninterp spec fn utf8_lossy(bytes: Seq<u8>) -> Seq<char>;

/// The DER bytes of the first certificate in PEM text, or the parser's
/// error message.
pub uninterp spec fn pem_cert_der(pem: Seq<u8>) -> Result<Seq<u8>, Seq<char>>;

/// `sha2::Sha256::digest`: the SHA-256 digest of `bytes`, which is 32
/// bytes long (the output size of `Sha256`).
#[verifier::external_body]
pub(crate) fn sha256(bytes: &[u8]) -> (r: Vec<u8>)
    ensures
        r@ == sha256_of(bytes@),
        r@.len() == 32,
{
    <sha2::Sha256 as sha2::Digest>::digest(bytes).to_vec()
}

/// `base64::engine::general_purpose::STANDARD.decode`: the decoded bytes,
/// or nothing when the text is not valid standard base64.
#[verifier::external_body]
fn base64_decode(text: &str) -> (r: Option<Vec<u8>>)
    ensures
        match r {
            Some(v) => base64_standard(text@) == Some(v@),
            None => base64_standard(text@) is None,
        },
{
    base64::Engine::decode(&base64::engine::general_purpose::STANDARD, text).ok()
}

/// `String::from_utf8_lossy`: the text of `bytes`, each invalid sequence
/// replaced by U+FFFD; for valid UTF-8, exactly the text the bytes encode.
#[verifier::external_body]
fn from_utf8_lossy(bytes: &[u8]) -> (r: String)
    ensures
        r@ == utf8_lossy(bytes@),
        vstd::utf8::valid_utf8(bytes@) ==> r@ == vstd::utf8::decode_utf8(bytes@),
{
    String::from_utf8_lossy(bytes).into_owned()
}

/// `CertificateDer::from_pem_slice`: the DER bytes of the first
/// certificate in the PEM text, or the parser's error as text.
#[verifier::external_body]
fn pem_to_der(pem: &[u8]) -> (r: Result<Vec<u8>, String>)
    ensures
        match r {
            Ok(v) => pem_cert_der(pem@) == Ok::<Seq<u8>, Seq<char>>(v@),
            Err(e) => pem_cert_der(pem@) == Err::<Seq<u8>, Seq<char>>(e@),
        },
{
    match <rustls_pki_types::CertificateDer as rustls_pki_types::pem::PemObject>::from_pem_slice(
        pem,
    ) {
        Ok(c) => Ok(c.to_vec()),
        Err(e) => Err(e.to_string()),
    }
}

/// A line that carries base64 payload: not a `-----` marker, not blank.
pub open spec fn payload_line(t: Seq<char>) -> bool {
    !starts_with(t, "-----"@) && t.len() > 0
}

/// The bytes that the payload lines decode to, in order; a line that is
/// not valid base64 adds nothing.
pub open spec fn pem_payload(lines: Seq<Seq<char>>) -> Seq<u8>
    decreases lines.len(),
{
    if lines.len() == 0 {
        Seq::empty()
    } else {
        let t = trimmed(lines.last());
        let rest = pem_payload(lines.drop_last());
        if payload_line(t) {
            match base64_standard(t) {
                Some(d) => rest + d,
                None => rest,
            }
        } else {
            rest
        }
    }
}

/// What a certificate's fingerprint is taken over: the decoded PEM
/// payload, or the bytes themselves when there is none (DER input).
pub open spec fn pem_stripped(bytes: Seq<u8>) -> Seq<u8> {
    let p = pem_payload(text_lines(utf8_lossy(bytes)));
    if p.len() == 0 {
        bytes
    } else {
        p
    }
}

/// Lower-case hexadecimal digit of `n < 16`.
pub open spec fn lower_hex(n: u8) -> char {
    if n < 10 {
        (n + 48) as char
    } else {
        (n + 87) as char
    }
}

/// Bytes in lower-case hex, two digits each, separated by `:`.
pub open spec fn hex_colon(d: Seq<u8>) -> Seq<char>
    decreases d.len(),
{
    if d.len() == 0 {
        Seq::empty()
    } else if d.len() == 1 {
        seq![lower_hex(d[0] / 16), lower_hex(d[0] % 16)]
    } else {
        hex_colon(d.drop_last()) + seq![':', lower_hex(d.last() / 16), lower_hex(d.last() % 16)]
    }
}

/// The lower-case hex digit of `n < 16`.
fn lower_hex_char(n: u8) -> (c: char)
    requires
        n < 16,
    ensures
        c == lower_hex(n),
{
    if n < 10 {
        (n + 48) as char
    } else {
        (n + 87) as char
    }
}

/// A digest as colon-separated lower-case hex pairs.
pub fn hex_fingerprint(digest: &[u8]) -> (r: String)
    ensures
        r@ == hex_colon(digest@),
{
    let mut r = String::new();
    let mut i: usize = 0;
    while i < digest.len()
        invariant
            i <= digest@.len(),
            r@ == hex_colon(digest@.take(i as int)),
        decreases digest.len() - i,
    {
        let b = digest[i];
        assert(digest@.take(i + 1).drop_last() == digest@.take(i as int));
        assert(digest@.take(i + 1).last() == b);
        let ghost prev = r@;
        if i > 0 {
            r.push(':');
        } else {
            assert(digest@.take(1) =~= seq![b]);
        }
        r.push(lower_hex_char(b / 16));
        r.push(lower_hex_char(b % 16));
        if i > 0 {
            assert(r@ =~= prev + seq![':', lower_hex(b / 16), lower_hex(b % 16)]);
        } else {
            assert(r@ =~= seq![lower_hex(b / 16), lower_hex(b % 16)]);
        }
        i += 1;
    }
    assert(digest@.take(digest@.len() as int) == digest@);
    r
}

/// The decoded PEM payload of `bytes`, or `bytes` when there is none.
pub fn strip_pem(bytes: &[u8]) -> (r: Vec<u8>)
    ensures
        r@ == pem_stripped(bytes@),
{
    let s = from_utf8_lossy(bytes);
    let lines = lines_of(s.as_str());
    let ghost ls = lines@.map_values(|x: String| x@);
    let mut out: Vec<u8> = Vec::new();
    let mut i: usize = 0;
    while i < lines.len()
        invariant
            i <= lines@.len(),
            ls == lines@.map_values(|x: String| x@),
            out@ == pem_payload(ls.take(i as int)),
        decreases lines.len() - i,
    {
        assert(ls.take(i + 1).drop_last() == ls.take(i as int));
        assert(ls.take(i + 1).last() == lines@[i as int]@);
        let t = trim(lines[i].as_str());
        let tv = crate::text::chars_of(t.as_str());
        let marker = crate::text::chars_of("-----");
        if !crate::text::vec_starts_with(&tv, &marker) && !t.as_str().is_empty() {
            match base64_decode(t.as_str()) {
                Some(d) => {
                    let mut j: usize = 0;
                    let ghost before = out@;
                    while j < d.len()
                        invariant
                            j <= d@.len(),
                            out@ == before + d@.take(j as int),
                        decreases d.len() - j,
                    {
                        out.push(d[j]);
                        assert(d@.take(j + 1) == d@.take(j as int).push(d@[j as int]));
                        assert(out@ =~= before + d@.take(j + 1));
                        j += 1;
                    }
                    assert(d@.take(d@.len() as int) == d@);
                },
                None => {},
            }
        }
        i += 1;
    }
    assert(ls.take(lines@.len() as int) == ls);
    if out.len() == 0 {
        let mut all: Vec<u8> = Vec::new();
        let mut k: usize = 0;
        while k < bytes.len()
            invariant
                k <= bytes@.len(),
                all@ == bytes@.take(k as int),
            decreases bytes.len() - k,
        {
            all.push(bytes[k]);
            assert(bytes@.take(k + 1) == bytes@.take(k as int).push(bytes@[k as int]));
            k += 1;
        }
        assert(bytes@.take(bytes@.len() as int) == bytes@);
        all
    } else {
        out
    }
}

/// The SHA-256 fingerprint of a PEM or DER certificate, taken over the
/// decoded payload.
pub open spec fn fingerprint_text(bytes: Seq<u8>) -> Seq<char> {
    hex_colon(sha256_of(pem_stripped(bytes)))
}

/// Compute the SHA-256 fingerprint of a PEM or DER certificate
/// (colon-separated lower-case hex).
pub fn fingerprint_of(bytes: &[u8]) -> (r: String)
    ensures
        r@ == fingerprint_text(bytes@),
{
    let stripped = strip_pem(bytes);
    let digest = sha256(stripped.as_slice());
    hex_fingerprint(digest.as_slice())
}

/// The local CA: keypair + certificate.
#[derive(Debug, Clone)]
pub struct Ca {
    /// The CA's PEM-encoded certificate.
    pub cert_pem: String,
    /// The CA's PEM-encoded private key.
    pub key_pem: String,
    /// The CA certificate's SHA-256 fingerprint (colon-separated).
    pub fingerprint: String,
}

impl Ca {
    /// The CA of a certificate and key, fingerprinted.
    pub fn from_pems(cert_pem: String, key_pem: String) -> (ca: Self)
        ensures
            ca.cert_pem == cert_pem,
            ca.key_pem == key_pem,
            ca.fingerprint@ == fingerprint_text(vstd::utf8::encode_utf8(cert_pem@)),
    {
        let fingerprint = fingerprint_of(cert_pem.as_str().as_bytes());
        Ca { cert_pem, key_pem, fingerprint }
    }

    /// A new local CA, made in memory (saving it is the caller's business):
    /// the [`ca_profile`] certificate, self-signed with a fresh key. Any
    /// failure is a certificate error; the CA is fingerprinted from its
    /// certificate text.
    pub fn generate() -> (r: Result<Ca, Error>)
        ensures
            r matches Ok(ca) ==> ca.fingerprint@ == fingerprint_text(
                vstd::utf8::encode_utf8(ca.cert_pem@),
            ),
            r matches Err(e) ==> e is Cert,
    {
        let profile = ca_profile();
        let params = params_of(&profile)?;
        let key = match key_generate() {
            Ok(k) => k,
            Err(m) => return Err(Error::Cert(m)),
        };
        let cert = match sign_self(&params, &key) {
            Ok(c) => c,
            Err(m) => return Err(Error::Cert(m)),
        };
        Ok(Ca::from_pems(cert, key_pem(&key)))
    }

    /// The DER-encoded certificate bytes (for trust operations).
    pub fn cert_der(&self) -> (r: Result<Vec<u8>, Error>)
        ensures
            match pem_cert_der(vstd::utf8::encode_utf8(self.cert_pem@)) {
                Ok(d) => r is Ok && r->Ok_0@ == d,
                Err(e) => r matches Err(Error::Tls(m)) && m@ == "parse ca pem: "@ + e,
            },
    {
        match pem_to_der(self.cert_pem.as_str().as_bytes()) {
            Ok(d) => Ok(d),
            Err(e) => {
                let mut m = owned("parse ca pem: ");
                push_str(&mut m, e.as_str());
                Err(Error::Tls(m))
            },
        }
    }
}

} // verus!
