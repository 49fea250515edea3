//! The statistics endpoints.

pub mod common;
pub mod history;
pub mod order;
pub mod over_time;
pub mod top_clients;
pub mod top_domains;
