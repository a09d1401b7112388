//! Hostname parsing, validation, and routing logic.

pub mod hostname;
pub mod tld;
pub mod match_;
