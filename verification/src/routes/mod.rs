//! What the endpoints of the API compute.

pub mod dns;
pub mod settings;
pub mod stats;
