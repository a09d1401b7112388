//! OS-specific helpers (paths, privilege, system identity).

pub mod paths;
pub mod privilege;
pub mod system;
