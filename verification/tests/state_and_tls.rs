use portless::common::error::Error;
use portless::routing::match_::Route;
use portless::routing::tld::Tld;
use portless::state::proxy_state::ProxyState;
use portless::state::registry::{Registry, RegistryFile, SCHEMA_VERSION};
use portless::tls::ca::{fingerprint_of, hex_fingerprint, strip_pem, Ca};
use portless::tls::cert::{
    generate_for, leaf_san_names, leaf_serial, CertPair, CertStore, CA_VALIDITY_DAYS,
    LEAF_VALIDITY_DAYS,
};
use portless::tls::x509::{ca_profile, leaf_profile, KeyUsage, CA_NAME};
use sha2::Digest;

#[test]
fn proxy_state_round_trip() {
    let s = ProxyState::new(true, 443, Tld::default());
    assert_eq!(s.port, 443);
    assert!(s.https);
    assert_eq!(s.tld.as_str(), "localhost");
}

#[test]
fn url_for_default_ports() {
    let s = ProxyState::new(true, 443, Tld::default());
    assert_eq!(s.url_for("myapp.localhost"), "https://myapp.localhost");
    let s = ProxyState::new(false, 80, Tld::default());
    assert_eq!(s.url_for("myapp.localhost"), "http://myapp.localhost");
}

#[test]
fn url_for_non_default_ports() {
    let s = ProxyState::new(true, 1355, Tld::default());
    assert_eq!(s.url_for("myapp.localhost"), "https://myapp.localhost:1355");
    let s = ProxyState::new(false, 443, Tld::default());
    assert_eq!(s.url_for("myapp.localhost"), "http://myapp.localhost:443");
}

#[test]
fn in_memory_round_trip() {
    let mut reg = Registry::in_memory("/tmp/portless-test");
    let r = Route::new("myapp.localhost", 3000, 1234, None, vec![]);
    reg.insert(r, false).unwrap();
    let got = reg.get("myapp.localhost").unwrap();
    assert_eq!(got.port, 3000);
    assert_eq!(reg.len(), 1);
    assert!(!reg.persist_enabled());
    assert_eq!(reg.file_path(), "/tmp/portless-test/routes.json");
}

#[test]
fn duplicate_without_force_errors() {
    let mut reg = Registry::in_memory("/tmp/portless-test");
    let r1 = Route::new("myapp.localhost", 3000, 1, None, vec![]);
    let r2 = Route::new("myapp.localhost", 3001, 2, None, vec![]);
    reg.insert(r1, false).unwrap();
    let r = reg.insert(r2, false);
    assert!(matches!(r, Err(Error::RouteExists(_))));
    assert_eq!(reg.get("myapp.localhost").unwrap().port, 3000);
    let r3 = Route::new("myapp.localhost", 3002, 3, None, vec![]);
    reg.insert(r3, true).unwrap();
    assert_eq!(reg.get("myapp.localhost").unwrap().port, 3002);
}

#[test]
fn remove_clears_entry() {
    let mut reg = Registry::in_memory("/tmp/portless-test");
    reg.insert(Route::new("a.localhost", 3000, 1, None, vec![]), false).unwrap();
    assert!(reg.remove("a.localhost").is_some());
    assert!(reg.get("a.localhost").is_none());
    assert!(reg.is_empty());
}

#[test]
fn persistence_round_trip() {
    let mut reg = Registry::in_memory("/tmp/portless-test");
    reg.insert(Route::new("myapp.localhost", 3000, 1, None, vec![]), false).unwrap();
    let snap = reg.snapshot();
    assert_eq!(snap.version, SCHEMA_VERSION);
    assert_eq!(snap.routes.len(), 1);
    let mut reg2 = Registry::in_memory("/tmp/portless-other");
    reg2.reload_from(Some(snap));
    assert_eq!(reg2.get("myapp.localhost").unwrap().port, 3000);
    reg2.reload_from(None);
    assert!(reg2.is_empty());
    assert!(RegistryFile::new().routes.is_empty());
}

fn expected_fingerprint(bytes: &[u8]) -> String {
    sha2::Sha256::digest(bytes).iter().map(|b| format!("{b:02x}")).collect::<Vec<_>>().join(":")
}

#[test]
fn fingerprint_is_stable() {
    let f1 = fingerprint_of(b"-----BEGIN CERTIFICATE-----\nAAAA\n-----END CERTIFICATE-----\n");
    let f2 = fingerprint_of(b"-----BEGIN CERTIFICATE-----\nAAAA\n-----END CERTIFICATE-----\n");
    assert_eq!(f1, f2);
}

#[test]
fn fingerprint_hashes_the_decoded_body() {
    let pem = b"-----BEGIN CERTIFICATE-----\nAAAA\n-----END CERTIFICATE-----\n";
    assert_eq!(strip_pem(pem), vec![0u8, 0, 0]);
    assert_eq!(fingerprint_of(pem), expected_fingerprint(&[0, 0, 0]));
    // Input that holds no base64 lines is hashed as it is.
    assert_eq!(strip_pem(b"%%%"), b"%%%".to_vec());
    assert_eq!(fingerprint_of(b"%%%"), expected_fingerprint(b"%%%"));
}

#[test]
fn hex_fingerprint_format() {
    assert_eq!(hex_fingerprint(&[0x00, 0xab, 0x10]), "00:ab:10");
    assert_eq!(hex_fingerprint(&[]), "");
}

#[test]
fn ca_from_pems_fingerprints_the_cert() {
    let cert = "-----BEGIN CERTIFICATE-----\nAAAA\n-----END CERTIFICATE-----\n".to_string();
    let ca = Ca::from_pems(cert.clone(), "key".to_string());
    assert_eq!(ca.fingerprint, fingerprint_of(cert.as_bytes()));
    assert_eq!(ca.cert_der().unwrap(), vec![0u8, 0, 0]);
    let bad = Ca::from_pems("not pem".to_string(), "key".to_string());
    assert!(matches!(bad.cert_der(), Err(Error::Tls(_))));
}

#[test]
fn leaf_names_and_serial() {
    assert_eq!(leaf_san_names("myapp.localhost"), vec!["myapp.localhost"]);
    assert_eq!(leaf_san_names("*.myapp.localhost"), vec!["*.myapp.localhost", "myapp.localhost"]);
    let serial = leaf_serial("myapp.localhost");
    let digest = sha2::Sha256::digest(b"myapp.localhost");
    assert_eq!(serial, digest[..8].to_vec());
}

#[test]
fn cert_store_round_trip() {
    let mut s = CertStore::new();
    assert!(s.get("x").is_none());
    s.put("x", CertPair { cert_pem: "a".into(), key_pem: "b".into() });
    let got = s.get("x").unwrap();
    assert_eq!(got.cert_pem, "a");
    assert_eq!(s.len(), 1);
    s.clear();
    assert!(s.is_empty());
}

#[test]
fn generate_leaf_for_hostname() {
    let ca = Ca::generate().unwrap();
    let pair = generate_for("myapp.localhost", &ca).unwrap();
    assert!(pair.cert_pem.contains("BEGIN CERTIFICATE"));
    assert!(pair.key_pem.contains("PRIVATE KEY"));
}

#[test]
fn generate_and_reload() {
    let ca1 = Ca::generate().unwrap();
    assert!(!ca1.cert_pem.is_empty());
    assert!(!ca1.key_pem.is_empty());
    let ca2 = Ca::from_pems(ca1.cert_pem.clone(), ca1.key_pem.clone());
    assert_eq!(ca1.fingerprint, ca2.fingerprint);
    assert!(ca1.cert_der().is_ok());
}

#[test]
fn leaf_needs_a_readable_ca_key() {
    let bad = Ca::from_pems("not a certificate".to_string(), "not a key".to_string());
    match generate_for("myapp.localhost", &bad) {
        Err(Error::Tls(m)) => assert!(m.starts_with("ca key: ")),
        other => panic!("unexpected: {:?}", other.map(|p| p.cert_pem)),
    }
}

#[test]
fn certificate_profiles() {
    let leaf = leaf_profile("*.localhost");
    assert_eq!(leaf.common_name, "*.localhost");
    assert_eq!(leaf.sans, vec!["*.localhost".to_string(), "localhost".to_string()]);
    assert_eq!(leaf.serial, leaf_serial("*.localhost"));
    assert_eq!(leaf.validity_days, LEAF_VALIDITY_DAYS);
    assert_eq!(leaf.usages, vec![KeyUsage::DigitalSignature, KeyUsage::KeyEncipherment]);
    assert!(leaf.server_auth && !leaf.is_ca);
    let ca = ca_profile();
    assert_eq!(ca.common_name, CA_NAME);
    assert_eq!(ca.organization.as_deref(), Some("Portless"));
    assert_eq!(ca.unit.as_deref(), Some("Local Development"));
    assert_eq!(ca.serial, vec![1, 2, 3, 4, 5, 6, 7, 8]);
    assert_eq!(ca.validity_days, CA_VALIDITY_DAYS);
    assert_eq!(ca.usages, vec![KeyUsage::KeyCertSign, KeyUsage::CrlSign, KeyUsage::DigitalSignature]);
    assert!(ca.is_ca && !ca.server_auth);
}
