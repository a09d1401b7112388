//! Child process management: commands, environments, signals and logs.

pub mod spawn;
pub mod logs;
pub mod kill;
