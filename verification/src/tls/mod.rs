//! Local CA and per-hostname certificates.

pub mod ca;
pub mod cert;
pub mod x509;
