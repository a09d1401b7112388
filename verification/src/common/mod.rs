//! Shared types, errors, constants, and helpers used across all modules.

use vstd::prelude::*;

pub mod error;
pub mod net;
pub mod report;
pub mod types;

verus! {

/// Hostname header used by the proxy to pass the original host upstream.
pub const X_PORTLESS_HOST: &'static str = "x-portless-host";

/// Hop counter used to detect forwarding loops.
pub const X_PORTLESS_HOPS: &'static str = "x-portless-hops";

/// Marker header set on proxied requests.
pub const X_PORTLESS_PROXIED: &'static str = "x-portless-proxied";

/// GitHub repository owner used for issue reporting and links.
pub const REPO_OWNER: &'static str = "muhammad-fiaz";

/// GitHub repository name used for issue reporting and links.
pub const REPO_NAME: &'static str = "portless";

/// Full GitHub issues URL.
pub const ISSUES_URL: &'static str = "https://github.com/muhammad-fiaz/portless/issues";

} // verus!
