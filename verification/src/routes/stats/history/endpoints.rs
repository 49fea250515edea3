//! The request and the reply of the history endpoint.

use crate::ftl::memory_model::{FtlDnssecType, FtlQueryReplyType, FtlQueryStatus, FtlQueryType};
use crate::routes::stats::history::cursor::HistoryCursor;
use vstd::prelude::*;

verus! {

/// A number of the daemon or of the archive cut to what the reply can hold:
/// a number below zero is shown as zero, one above the highest as the
/// highest.
pub open spec fn cut(n: int, most: int) -> int {
    if n < 0 {
        0
    } else if n > most {
        most
    } else {
        n
    }
}

/// A number as a time of the reply.
pub fn to_time(n: i64) -> (r: u64)
    ensures
        r == cut(n as int, u64::MAX as int),
{
    if n < 0 {
        0
    } else {
        n as u64
    }
}

/// A number as a type or a status of the reply.
pub fn to_byte(n: i32) -> (r: u8)
    ensures
        r == cut(n as int, u8::MAX as int),
{
    if n < 0 {
        0
    } else if n > 255 {
        255
    } else {
        n as u8
    }
}

/// A number as a response time of the reply.
pub fn to_response_time(n: u64) -> (r: u32)
    ensures
        r == cut(n as int, u32::MAX as int),
{
    if n > 0xffff_ffff {
        0xffff_ffff
    } else {
        n as u32
    }
}

/// The structure of queries returned by the history endpoint
#[derive(Debug, PartialEq, Eq)]
pub struct QueryReply {
    pub timestamp: u64,
    pub query_type: u8,
    pub status: u8,
    pub domain: String,
    pub client: String,
    pub dnssec: u8,
    pub reply: u8,
    pub response_time: u32,
}

/// A query of the reply, by its texts.
pub struct Query {
    pub timestamp: int,
    pub query_type: int,
    pub status: int,
    pub domain: Seq<char>,
    pub client: Seq<char>,
    pub dnssec: int,
    pub reply: int,
    pub response_time: int,
}

impl View for QueryReply {
    type V = Query;

    open spec fn view(&self) -> Query {
        Query {
            timestamp: self.timestamp as int,
            query_type: self.query_type as int,
            status: self.status as int,
            domain: self.domain@,
            client: self.client@,
            dnssec: self.dnssec as int,
            reply: self.reply as int,
            response_time: self.response_time as int,
        }
    }
}

/// The structure returned by the history endpoint
#[derive(Debug, PartialEq, Eq)]
pub struct HistoryReply {
    pub history: Vec<QueryReply>,
    pub cursor: Option<String>,
}

/// The reply, by its texts.
pub struct History {
    pub history: Seq<Query>,
    pub cursor: Option<Seq<char>>,
}

/// The queries of a reply, by their texts.
pub open spec fn queries_of(queries: Seq<QueryReply>) -> Seq<Query> {
    Seq::new(queries.len(), |i: int| queries[i]@)
}

impl View for HistoryReply {
    type V = History;

    open spec fn view(&self) -> History {
        History {
            history: queries_of(self.history@),
            cursor: match self.cursor {
                Some(text) => Some(text@),
                None => None,
            },
        }
    }
}

/// Represents the possible GET parameters on `/stats/history`
#[derive(Debug)]
pub struct HistoryParams {
    pub cursor: Option<HistoryCursor>,
    pub from: Option<u64>,
    pub until: Option<u64>,
    pub domain: Option<String>,
    pub client: Option<String>,
    pub upstream: Option<String>,
    pub query_type: Option<FtlQueryType>,
    pub status: Option<FtlQueryStatus>,
    pub blocked: Option<bool>,
    pub dnssec: Option<FtlDnssecType>,
    pub reply: Option<FtlQueryReplyType>,
    pub limit: Option<usize>,
}

impl HistoryParams {
    /// How many queries are asked for: a hundred, where nothing is said.
    pub open spec fn wanted(&self) -> nat {
        match self.limit {
            Some(limit) => limit as nat,
            None => 100,
        }
    }

    /// Whether the parameters ask for everything: they filter nothing, name
    /// no cursor, and set the usual limit.
    pub open spec fn is_default(&self) -> bool {
        &&& self.cursor is None
        &&& self.from is None
        &&& self.until is None
        &&& self.domain is None
        &&& self.client is None
        &&& self.upstream is None
        &&& self.query_type is None
        &&& self.status is None
        &&& self.blocked is None
        &&& self.dnssec is None
        &&& self.reply is None
        &&& self.limit == Some(100usize)
    }
}

impl Default for HistoryParams {
    fn default() -> (params: HistoryParams)
        ensures
            params.is_default(),
    {
        HistoryParams {
            cursor: None,
            from: None,
            until: None,
            domain: None,
            client: None,
            upstream: None,
            query_type: None,
            status: None,
            blocked: None,
            dnssec: None,
            reply: None,
            limit: Some(100),
        }
    }
}

} // verus!
