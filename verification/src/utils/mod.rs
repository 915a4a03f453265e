pub mod assoc;
pub mod checksum;
pub mod extract;
pub mod format;
pub mod hosts;
pub mod maven;
pub mod order;
pub mod os;
pub mod pattern;
pub mod text;
pub mod json;
