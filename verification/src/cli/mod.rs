//! The command-line interface: what each command decides.

pub mod commands;
pub mod opts;
pub mod plan;
