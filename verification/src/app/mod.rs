//! The launcher's own logic around the game: the LiquidBounce API's data, the marketplace of
//! add-ons, themes and scripts, mods from Modrinth, and the builds to choose from.

pub mod builds;
pub mod client;
pub mod client_api;
pub mod marketplace;
pub mod modrinth;
pub mod modrinth_query;
pub mod network;
pub mod options;
pub mod updater;
pub mod vanilla;
pub mod webview;
