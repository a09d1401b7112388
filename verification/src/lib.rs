//! Portless: stable, named local development hostnames.

use vstd::prelude::*;

pub mod cli;
pub mod common;
pub mod config;
pub mod dashboard;
pub mod discovery;
pub mod hosts;
pub mod platform;
pub mod process;
pub mod proxy;
pub mod routing;
pub mod service;
pub mod state;
pub mod tailscale;
pub mod tls;
pub mod trust;
pub mod worktree;
pub mod text;
pub mod text_map;

verus! {

/// The crate's version (as in `Cargo.toml`).
pub const VERSION: &'static str = "0.1.0";

/// Default TLD when none is configured.
pub const DEFAULT_TLD: &'static str = "localhost";

/// Default HTTPS port for the proxy.
pub const DEFAULT_HTTPS_PORT: u16 = 443;

/// Default plain-HTTP port when TLS is disabled.
pub const DEFAULT_HTTP_PORT: u16 = 80;

/// Lowest port in the dynamic range assigned to child processes.
pub const DEFAULT_PORT_RANGE_START: u16 = 4000;

/// Exclusive upper bound of the dynamic port range.
pub const DEFAULT_PORT_RANGE_END: u16 = 5000;

} // verus!
