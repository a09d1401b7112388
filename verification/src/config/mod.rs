//! Project configuration: `portless.json`, `package.json` `"portless"` key, and environment.

pub mod env;
pub mod portless_json;
