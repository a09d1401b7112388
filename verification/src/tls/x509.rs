//! What a certificate carries (its profile) and signing it with rcgen.
//!
//! The profile of the local CA and of each leaf certificate is decided
//! here, with exact contracts; rcgen turns a profile into parameters, makes
//! keys and signs. Key generation is random and the validity period starts
//! at the current time, so nothing is claimed of the PEM texts that come
//! back.

use vstd::prelude::*;
use crate::common::error::Error;
use crate::process::spawn::texts;
use crate::text::owned;
use crate::tls::ca::sha256_of;
use crate::tls::cert::{CA_VALIDITY_DAYS, LEAF_VALIDITY_DAYS, leaf_san_names, leaf_serial, san_names};

verus! {

/// `rcgen::CertificateParams`, carried opaquely.
#[verifier::external_type_specification]
#[verifier::external_body]
pub struct ExCertificateParams(rcgen::CertificateParams);

/// `rcgen::KeyPair`, carried opaquely.
#[verifier::external_type_specification]
#[verifier::external_body]
pub struct ExKeyPair(rcgen::KeyPair);

/// A key usage a certificate allows.
#[derive(Debug, Clone, Copy, PartialEq, Eq, Structural)]
pub enum KeyUsage {
    /// Digital signatures.
    DigitalSignature,
    /// Key encipherment.
    KeyEncipherment,
    /// Signing certificates.
    KeyCertSign,
    /// Signing revocation lists.
    CrlSign,
}

/// A part of a certificate's subject name.
#[derive(Debug, Clone, Copy, PartialEq, Eq, Structural)]
pub enum NamePart {
    /// The common name (CN).
    CommonName,
    /// The organization (O).
    Organization,
    /// The organizational unit (OU).
    Unit,
}

/// What a certificate carries.
#[derive(Debug)]
pub struct CertProfile {
    /// The subject's common name.
    pub common_name: String,
    /// The subject's organization, if any.
    pub organization: Option<String>,
    /// The subject's organizational unit, if any.
    pub unit: Option<String>,
    /// The subject alternative names.
    pub sans: Vec<String>,
    /// The serial number's bytes.
    pub serial: Vec<u8>,
    /// Days the certificate stays valid, from the moment it is made.
    pub validity_days: i64,
    /// Whether it is a CA certificate (without a path-length limit).
    pub is_ca: bool,
    /// The key usages, in order.
    pub usages: Vec<KeyUsage>,
    /// Whether it is for TLS server authentication.
    pub server_auth: bool,
}

/// The view of an optional string.
pub open spec fn opt_text(o: Option<String>) -> Option<Seq<char>> {
    match o {
        Some(s) => Some(s@),
        None => None,
    }
}

/// The profile of the leaf certificate for `hostname`: named after it,
/// covering [`san_names`], with the hostname's serial, valid for
/// [`LEAF_VALIDITY_DAYS`] days, for digital signatures and key
/// encipherment, for TLS server authentication.
pub open spec fn is_leaf_profile(p: CertProfile, hostname: Seq<char>) -> bool {
    &&& p.common_name@ == hostname
    &&& p.organization is None
    &&& p.unit is None
    &&& texts(p.sans@) == san_names(hostname)
    &&& p.serial@ == sha256_of(vstd::utf8::encode_utf8(hostname)).take(8)
    &&& p.validity_days == LEAF_VALIDITY_DAYS
    &&& !p.is_ca
    &&& p.usages@ == seq![KeyUsage::DigitalSignature, KeyUsage::KeyEncipherment]
    &&& p.server_auth
}

/// The common name of the local CA.
pub const CA_NAME: &'static str = "Portless Local CA";

/// The profile of the local CA: `Portless Local CA` of organization
/// `Portless`, unit `Local Development`, that name as its only alternative
/// name, serial `01 02 03 04 05 06 07 08`, valid for [`CA_VALIDITY_DAYS`]
/// days, a CA for signing certificates and revocation lists and for
/// digital signatures.
pub open spec fn is_ca_profile(p: CertProfile) -> bool {
    &&& p.common_name@ == CA_NAME@
    &&& opt_text(p.organization) == Some("Portless"@)
    &&& opt_text(p.unit) == Some("Local Development"@)
    &&& texts(p.sans@) == seq![CA_NAME@]
    &&& p.serial@ == seq![1u8, 2u8, 3u8, 4u8, 5u8, 6u8, 7u8, 8u8]
    &&& p.validity_days == CA_VALIDITY_DAYS
    &&& p.is_ca
    &&& p.usages@ == seq![KeyUsage::KeyCertSign, KeyUsage::CrlSign, KeyUsage::DigitalSignature]
    &&& !p.server_auth
}

/// The profile of the leaf certificate for `hostname`.
pub fn leaf_profile(hostname: &str) -> (p: CertProfile)
    ensures
        is_leaf_profile(p, hostname@),
{
    CertProfile {
        common_name: owned(hostname),
        organization: None,
        unit: None,
        sans: leaf_san_names(hostname),
        serial: leaf_serial(hostname),
        validity_days: LEAF_VALIDITY_DAYS,
        is_ca: false,
        usages: vec![KeyUsage::DigitalSignature, KeyUsage::KeyEncipherment],
        server_auth: true,
    }
}

/// The profile of the local CA.
pub fn ca_profile() -> (p: CertProfile)
    ensures
        is_ca_profile(p),
{
    let mut sans: Vec<String> = Vec::new();
    sans.push(owned(CA_NAME));
    assert(texts(sans@) =~= seq![CA_NAME@]);
    CertProfile {
        common_name: owned(CA_NAME),
        organization: Some(owned("Portless")),
        unit: Some(owned("Local Development")),
        sans,
        serial: vec![1u8, 2u8, 3u8, 4u8, 5u8, 6u8, 7u8, 8u8],
        validity_days: CA_VALIDITY_DAYS,
        is_ca: true,
        usages: vec![KeyUsage::KeyCertSign, KeyUsage::CrlSign, KeyUsage::DigitalSignature],
        server_auth: false,
    }
}

// ---------------------------------------------------------------------------
// rcgen
// ---------------------------------------------------------------------------

/// `CertificateParams::new`: parameters with `sans` as alternative names
/// (an IP address where a name parses as one, else a DNS name), or the text
/// of rcgen's error when a name is not valid. Nothing is claimed of either.
#[verifier::external_body]
fn params_new(sans: Vec<String>) -> Result<rcgen::CertificateParams, String> {
    rcgen::CertificateParams::new(sans).map_err(|e| e.to_string())
}

/// `DistinguishedName::push` on the parameters' subject: sets that part of
/// the subject name to `value`.
#[verifier::external_body]
fn params_subject(p: &mut rcgen::CertificateParams, part: NamePart, value: &str) {
    let ty = match part {
        NamePart::CommonName => rcgen::DnType::CommonName,
        NamePart::Organization => rcgen::DnType::OrganizationName,
        NamePart::Unit => rcgen::DnType::OrganizationalUnitName,
    };
    p.distinguished_name.push(ty, value);
}

/// Sets the validity period to start at `OffsetDateTime::now_utc()` and to
/// last `days` days (`Duration::days`).
#[verifier::external_body]
fn params_validity(p: &mut rcgen::CertificateParams, days: i64)
    requires
        0 <= days <= 36500,
{
    let now = time::OffsetDateTime::now_utc();
    p.not_before = now;
    p.not_after = now + time::Duration::days(days);
}

/// Sets the serial number (`SerialNumber::from`).
#[verifier::external_body]
fn params_serial(p: &mut rcgen::CertificateParams, serial: &Vec<u8>) {
    p.serial_number = Some(rcgen::SerialNumber::from(serial.clone()));
}

/// Marks the parameters as a CA's, without a path-length limit
/// (`IsCa::Ca(BasicConstraints::Unconstrained)`).
#[verifier::external_body]
fn params_ca(p: &mut rcgen::CertificateParams) {
    p.is_ca = rcgen::IsCa::Ca(rcgen::BasicConstraints::Unconstrained);
}

/// Appends a key usage (`KeyUsagePurpose`).
#[verifier::external_body]
fn params_usage(p: &mut rcgen::CertificateParams, usage: KeyUsage) {
    p.key_usages.push(
        match usage {
            KeyUsage::DigitalSignature => rcgen::KeyUsagePurpose::DigitalSignature,
            KeyUsage::KeyEncipherment => rcgen::KeyUsagePurpose::KeyEncipherment,
            KeyUsage::KeyCertSign => rcgen::KeyUsagePurpose::KeyCertSign,
            KeyUsage::CrlSign => rcgen::KeyUsagePurpose::CrlSign,
        },
    );
}

/// Appends TLS server authentication to the extended key usages
/// (`ExtendedKeyUsagePurpose::ServerAuth`).
#[verifier::external_body]
fn params_server_auth(p: &mut rcgen::CertificateParams) {
    p.extended_key_usages.push(rcgen::ExtendedKeyUsagePurpose::ServerAuth);
}

/// `KeyPair::generate`: a fresh random key pair, or rcgen's error text.
#[verifier::external_body]
pub(crate) fn key_generate() -> Result<rcgen::KeyPair, String> {
    rcgen::KeyPair::generate().map_err(|e| e.to_string())
}

/// `KeyPair::from_pem`: the key pair a PEM text holds, or rcgen's error
/// text.
#[verifier::external_body]
pub(crate) fn key_from_pem(pem: &str) -> Result<rcgen::KeyPair, String> {
    rcgen::KeyPair::from_pem(pem).map_err(|e| e.to_string())
}

/// `KeyPair::serialize_pem`: the key pair as PEM text.
#[verifier::external_body]
pub(crate) fn key_pem(key: &rcgen::KeyPair) -> String {
    key.serialize_pem()
}

/// `CertificateParams::self_signed` and `Certificate::pem`: the certificate
/// signed by its own key, as PEM text, or rcgen's error text.
#[verifier::external_body]
pub(crate) fn sign_self(p: &rcgen::CertificateParams, key: &rcgen::KeyPair) -> Result<String, String> {
    p.self_signed(key).map(|c| c.pem()).map_err(|e| e.to_string())
}

/// `Issuer::new`, `CertificateParams::signed_by` and `Certificate::pem`:
/// the certificate for `key`, issued under `issuer`'s subject and signed
/// by `issuer_key`, as PEM text, or rcgen's error text.
#[verifier::external_body]
pub(crate) fn sign_by(
    p: &rcgen::CertificateParams,
    key: &rcgen::KeyPair,
    issuer: rcgen::CertificateParams,
    issuer_key: rcgen::KeyPair,
) -> Result<String, String> {
    let issuer = rcgen::Issuer::new(issuer, issuer_key);
    p.signed_by(key, &issuer).map(|c| c.pem()).map_err(|e| e.to_string())
}

/// The rcgen parameters that carry `profile`; a certificate error when a
/// name is not valid.
pub(crate) fn params_of(profile: &CertProfile) -> (r: Result<rcgen::CertificateParams, Error>)
    requires
        0 <= profile.validity_days <= 36500,
    ensures
        r matches Err(e) ==> e is Cert,
{
    let mut p = match params_new(crate::routing::match_::clone_strings(&profile.sans)) {
        Ok(p) => p,
        Err(m) => return Err(Error::Cert(m)),
    };
    params_subject(&mut p, NamePart::CommonName, profile.common_name.as_str());
    match &profile.organization {
        Some(o) => params_subject(&mut p, NamePart::Organization, o.as_str()),
        None => {},
    }
    match &profile.unit {
        Some(u) => params_subject(&mut p, NamePart::Unit, u.as_str()),
        None => {},
    }
    params_validity(&mut p, profile.validity_days);
    params_serial(&mut p, &profile.serial);
    if profile.is_ca {
        params_ca(&mut p);
    }
    let mut i: usize = 0;
    while i < profile.usages.len()
        invariant
            i <= profile.usages@.len(),
        decreases profile.usages.len() - i,
    {
        params_usage(&mut p, profile.usages[i]);
        i += 1;
    }
    if profile.server_auth {
        params_server_auth(&mut p);
    }
    Ok(p)
}

} // verus!
