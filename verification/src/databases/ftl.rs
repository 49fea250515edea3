//! The archive of queries.
//!
//! The archive as the library sees it is a table of rows. Who runs the API
//! brings the rows from the database.

use crate::ftl::memory_model::{FtlDnssecType, FtlQueryReplyType};
use crate::routes::stats::history::endpoints::{cut, to_byte, to_time, Query, QueryReply};
use crate::util::{is_error, Error, ErrorKind};
use vstd::prelude::*;

verus! {

/// The entries of the table of the archive's properties.
#[derive(Clone, Copy, Debug, PartialEq, Eq, Structural)]
pub enum FtlTableEntry {
    Version,
    LastTimestamp,
    FirstCounterTimestamp,
}

/// The entries of the table of the archive's counters.
#[derive(Clone, Copy, Debug, PartialEq, Eq, Structural)]
pub enum CounterTableEntry {
    TotalQueries,
    BlockedQueries,
}

/// A query as the archive holds it.
#[derive(Debug, PartialEq, Eq)]
pub struct FtlDbQuery {
    pub id: i32,
    pub timestamp: i32,
    pub query_type: i32,
    pub status: i32,
    pub domain: String,
    pub client: String,
    pub upstream: Option<String>,
}

impl FtlDbQuery {
    /// How the history shows an archived query. The archive keeps no DNSSEC
    /// state, no kind of answer and no response time: they are shown as
    /// unknown and as zero. The time, the type and the status are cut to
    /// what the reply can hold, as those of a query in memory are.
    pub open spec fn shown(&self) -> Query {
        Query {
            timestamp: cut(self.timestamp as int, u64::MAX as int),
            query_type: cut(self.query_type as int, u8::MAX as int),
            status: cut(self.status as int, u8::MAX as int),
            domain: self.domain@,
            client: self.client@,
            dnssec: 5,
            reply: 0,
            response_time: 0,
        }
    }
}

impl From<FtlDbQuery> for QueryReply {
    fn from(query: FtlDbQuery) -> (reply: QueryReply)
        ensures
            reply@ == query.shown(),
    {
        QueryReply {
            timestamp: to_time(query.timestamp as i64),
            query_type: to_byte(query.query_type),
            status: to_byte(query.status),
            domain: query.domain,
            client: query.client,
            dnssec: FtlDnssecType::Unknown.to_number(),
            reply: FtlQueryReplyType::Unknown.to_number(),
            response_time: 0,
        }
    }
}

impl vstd::std_specs::convert::FromSpecImpl<FtlDbQuery> for QueryReply {
    open spec fn obeys_from_spec() -> bool {
        true
    }

    /// An archived query as the history shows it. The archive keeps no
    /// DNSSEC state, no kind of answer and no response time: they are shown
    /// as unknown and as zero.
    open spec fn from_spec(query: FtlDbQuery) -> QueryReply {
        QueryReply {
            timestamp: cut(query.timestamp as int, u64::MAX as int) as u64,
            query_type: cut(query.query_type as int, u8::MAX as int) as u8,
            status: cut(query.status as int, u8::MAX as int) as u8,
            domain: query.domain,
            client: query.client,
            dnssec: 5,
            reply: 0,
            response_time: 0,
        }
    }
}

/// The archive of queries: its rows, in the order in which they were
/// archived. Every row has a higher number than the rows before it: no
/// archive can be made otherwise.
pub struct FtlDatabase {
    queries: Vec<FtlDbQuery>,
}

impl FtlDatabase {
    /// The rows of the archive, the oldest first.
    pub closed spec fn rows(&self) -> Seq<FtlDbQuery> {
        self.queries@
    }

    /// Whether the rows of the archive stand as the archive numbers them:
    /// every row has a higher number than the rows before it. This holds
    /// of every archive that `new` and `insert` make.
    pub open spec fn well_formed(&self) -> bool {
        forall|i: int, j: int|
            0 <= i < j < self.rows().len() ==> self.rows()[i].id < self.rows()[j].id
    }

    #[verifier::type_invariant]
    spec fn numbered(&self) -> bool {
        self.well_formed()
    }


    /// An archive without rows.
    pub fn new() -> (db: FtlDatabase)
        ensures
            db.rows() == Seq::<FtlDbQuery>::empty(),
            db.well_formed(),
    {
        FtlDatabase { queries: Vec::new() }
    }

    /// Put a row behind the rows of the archive. Its number has to be higher
    /// than theirs; the archive fails on another row, and stays as it is.
    pub fn insert(&mut self, query: FtlDbQuery) -> (r: Result<(), Error>)
        ensures
            old(self).rows().len() == 0 || old(self).rows().last().id < query.id ==> r is Ok
                && final(self).rows() == old(self).rows().push(query),
            old(self).rows().len() > 0 && old(self).rows().last().id >= query.id ==> is_error(
                r,
                ErrorKind::FtlDatabase,
            ) && final(self).rows() == old(self).rows(),
            final(self).well_formed(),
    {
        proof {
            use_type_invariant(&*self);
        }
        let len = self.queries.len();
        if len > 0 && self.queries[len - 1].id >= query.id {
            return Err(Error::from(ErrorKind::FtlDatabase));
        }
        let mut taken = FtlDatabase { queries: Vec::new() };
        std::mem::swap(self, &mut taken);
        let mut rows = taken.queries;
        rows.push(query);
        *self = FtlDatabase { queries: rows };
        proof {
            assert forall|i: int, j: int| 0 <= i < j < self.rows().len() implies self.rows()[i].id
                < self.rows()[j].id by {
                if j == len {
                    if i < len - 1 {
                        assert(old(self).rows()[i].id < old(self).rows()[len - 1].id);
                    }
                } else {
                    assert(old(self).rows()[i].id < old(self).rows()[j].id);
                }
            }
        }
        Ok(())
    }

    /// How many rows the archive has. They are numbered as those of every
    /// archive are.
    pub fn len(&self) -> (len: usize)
        ensures
            len == self.rows().len(),
            self.well_formed(),
    {
        proof {
            use_type_invariant(self);
        }
        self.queries.len()
    }

    /// The row at an index, counted from the oldest.
    pub fn get(&self, index: usize) -> (row: &FtlDbQuery)
        requires
            index < self.rows().len(),
        ensures
            *row == self.rows()[index as int],
    {
        &self.queries[index]
    }
}

} // verus!
