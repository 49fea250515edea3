//! The statistics of the daemon's database.

use crate::ftl::connection::{
    eom_reading, i32_reading, i64_reading, str_reading, typed, FtlConnection, ProtocolError,
    ValueTag,
};
use vstd::prelude::*;

verus! {

/// The command which asks the daemon for the statistics of its database.
pub const DBSTATS: &'static str = "dbstats";

/// How long the version of SQLite can be, in bytes.
pub const VERSION_CAPACITY: usize = 64;

/// The statistics of the daemon's database.
#[derive(Debug, PartialEq, Eq)]
pub struct DbStats {
    /// How many queries the database holds.
    pub queries: i32,
    /// The size of the database file, in bytes.
    pub filesize: i64,
    /// The version of SQLite which the daemon uses.
    pub sqlite_version: String,
}

/// The statistics, by their texts.
pub struct DbStatsView {
    pub queries: i32,
    pub filesize: i64,
    pub sqlite_version: Seq<char>,
}

impl View for DbStats {
    type V = DbStatsView;

    open spec fn view(&self) -> DbStatsView {
        DbStatsView {
            queries: self.queries,
            filesize: self.filesize,
            sqlite_version: self.sqlite_version@,
        }
    }
}

/// What the answer to `dbstats` holds: an `i32`, an `i64`, a text of at most
/// 64 bytes and the end of the message, one behind the other. The first of
/// them that cannot be read fails the answer.
pub open spec fn db_stats_reading(bytes: Seq<u8>) -> Result<DbStatsView, ProtocolError> {
    let (queries, first) = i32_reading(bytes);
    match typed(ValueTag::I32, queries) {
        Err(e) => Err(e),
        Ok(queries) => {
            let (filesize, second) = i64_reading(bytes.skip(first));
            match typed(ValueTag::I64, filesize) {
                Err(e) => Err(e),
                Ok(filesize) => {
                    let (version, third) = str_reading(
                        bytes.skip(first).skip(second),
                        VERSION_CAPACITY as int,
                    );
                    match typed(ValueTag::Str, version) {
                        Err(e) => Err(e),
                        Ok(sqlite_version) => match eom_reading(
                            bytes.skip(first).skip(second).skip(third),
                        ).0 {
                            Err(e) => Err(e),
                            Ok(_) => Ok(DbStatsView { queries, filesize, sqlite_version }),
                        },
                    }
                },
            }
        },
    }
}

/// Read in the daemon's database stats
pub fn read_db_stats(con: &mut FtlConnection) -> (r: Result<DbStats, ProtocolError>)
    ensures
        match db_stats_reading(old(con)@) {
            Ok(stats) => r matches Ok(s) && s@ == stats,
            Err(e) => r matches Err(x) && x == e,
        },
{
    let queries = match con.read_i32() {
        Ok(v) => v,
        Err(e) => { return Err(e); },
    };
    let filesize = match con.read_i64() {
        Ok(v) => v,
        Err(e) => { return Err(e); },
    };
    let mut version_buffer: Vec<u8> = vec![0u8; VERSION_CAPACITY];
    let sqlite_version = match con.read_str(version_buffer.as_mut_slice()) {
        Ok(v) => v.to_owned(),
        Err(e) => { return Err(e); },
    };
    match con.expect_eom() {
        Ok(_) => {},
        Err(e) => { return Err(e); },
    }
    Ok(DbStats { queries, filesize, sqlite_version })
}

} // verus!
