//! The services of the API, which the endpoints call.

pub mod lists;
