//! LiquidLauncher's launcher logic: reading Minecraft version profiles, building the
//! command line, interpreting library rules, and keeping the marketplace and Modrinth
//! state that the launcher shows and stages.

pub mod app;
pub mod auth;
pub mod error;
pub mod minecraft;
pub mod utils;
