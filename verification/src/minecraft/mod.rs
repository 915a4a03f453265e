pub mod assets;
pub mod auth;
pub mod java;
pub mod launcher;
pub mod libraries;
pub mod rule_interpreter;
pub mod progress;
pub mod version;
