//! What the launcher fetches from LiquidBounce's content delivery.

pub mod content;
