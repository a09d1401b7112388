//! State: the route registry and the proxy's settings.

pub mod proxy_state;
pub mod registry;
