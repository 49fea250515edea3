//! The databases: the archive of queries and the gravity database.

pub mod common;
pub mod ftl;

pub use self::common::{
    load_ftl_db_config, load_gravity_db_config, CustomDBConfig, DatabaseService,
    FakeDatabaseService,
};
