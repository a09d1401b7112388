//! Project discovery: package manager, framework, monorepo, scripts.

pub mod framework;
pub mod json;
pub mod package_manager;
pub mod monorepo;
pub mod project;
