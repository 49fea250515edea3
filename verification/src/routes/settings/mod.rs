//! The settings endpoints.

pub mod ftl;
pub mod ftldb;
pub mod network;
