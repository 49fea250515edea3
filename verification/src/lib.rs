//! The core of an HTTP API in front of a DNS metrics daemon: the binary
//! protocol spoken with the daemon, a bounds-checked model of its shared
//! memory, the paginated query history and the top-N statistics.

pub mod databases;
pub mod env;
pub mod ftl;
pub mod routes;
pub mod sequences;
pub mod services;
pub mod settings;
pub mod text;
pub mod util;
