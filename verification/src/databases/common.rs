//! What the databases share: how a connection is configured and obtained.

use crate::env::Env;
use crate::settings::FtlConfEntry;
use crate::util::{is_error, Error, ErrorKind};
use vstd::prelude::*;

verus! {

/// How many connections a pool of the API holds.
pub const POOL_SIZE: u32 = 8;

/// The configuration of a pool of database connections.
#[derive(Debug, PartialEq, Eq)]
pub struct CustomDBConfig {
    /// Where the database is.
    pub url: String,
    /// How many connections the pool holds.
    pub pool_size: u32,
    /// The schema to create the database with, for tests.
    pub test_schema: Option<String>,
}

/// Something that hands out connections to a database.
pub trait DatabaseService<C> {
    /// Get a connection.
    fn get_connection(&self) -> Result<C, Error>;
}

/// Load the configuration of the gravity database: it is where the daemon's
/// settings say, and its pool holds eight connections.
pub fn load_gravity_db_config(env: &Env) -> (r: Result<CustomDBConfig, Error>)
    ensures
        r matches Ok(config) && config.url@ == FtlConfEntry::GravityDb.value(env)
            && config.pool_size == POOL_SIZE && config.test_schema is None,
{
    Ok(
        CustomDBConfig {
            url: FtlConfEntry::GravityDb.read(env),
            pool_size: POOL_SIZE,
            test_schema: None,
        },
    )
}

/// Load the configuration of the archive of queries: it is where the
/// daemon's settings say, and its pool holds eight connections.
pub fn load_ftl_db_config(env: &Env) -> (r: Result<CustomDBConfig, Error>)
    ensures
        r matches Ok(config) && config.url@ == FtlConfEntry::DbFile.value(env) && config.pool_size
            == POOL_SIZE && config.test_schema is None,
{
    Ok(
        CustomDBConfig {
            url: FtlConfEntry::DbFile.read(env),
            pool_size: POOL_SIZE,
            test_schema: None,
        },
    )
}

/// A service for where the databases are disabled: it has no connection to give.
pub struct FakeDatabaseService;

impl<C> DatabaseService<C> for FakeDatabaseService {
    fn get_connection(&self) -> (r: Result<C, Error>)
        ensures
            is_error::<C>(r, ErrorKind::Unknown),
    {
        Err(Error::from(ErrorKind::Unknown))
    }
}

} // verus!
