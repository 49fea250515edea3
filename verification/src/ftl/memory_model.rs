//! The records which the daemon keeps in shared memory, as plain values.

use crate::settings::FtlPrivacyLevel;
use crate::text::{byte_of_text, parse_byte};
use crate::util::{is_error, Error, ErrorKind};
use std::collections::HashMap;
use vstd::prelude::*;

verus! {

/// The record type that a query asked for.
#[derive(Clone, Copy, Debug, PartialEq, Eq, Structural)]
pub enum FtlQueryType {
    A,
    AAAA,
    ANY,
    SRV,
    SOA,
    PTR,
    TXT,
}

impl FtlQueryType {
    /// The ordinal under which the daemon stores the value.
    pub open spec fn ordinal(self) -> int {
        match self {
            FtlQueryType::A => 1,
            FtlQueryType::AAAA => 2,
            FtlQueryType::ANY => 3,
            FtlQueryType::SRV => 4,
            FtlQueryType::SOA => 5,
            FtlQueryType::PTR => 6,
            FtlQueryType::TXT => 7,
        }
    }

    /// Get the query type from its ordinal value.
    pub fn from_number(num: isize) -> (r: Option<Self>)
        ensures
            r is Some <==> 1 <= num <= 7,
            r matches Some(value) ==> value.ordinal() == num,
    {
        match num {
            1 => Some(FtlQueryType::A),
            2 => Some(FtlQueryType::AAAA),
            3 => Some(FtlQueryType::ANY),
            4 => Some(FtlQueryType::SRV),
            5 => Some(FtlQueryType::SOA),
            6 => Some(FtlQueryType::PTR),
            7 => Some(FtlQueryType::TXT),
            _ => None,
        }
    }

    /// The ordinal of the value.
    pub fn to_number(self) -> (n: u8)
        ensures
            n == self.ordinal(),
    {
        match self {
            FtlQueryType::A => 1,
            FtlQueryType::AAAA => 2,
            FtlQueryType::ANY => 3,
            FtlQueryType::SRV => 4,
            FtlQueryType::SOA => 5,
            FtlQueryType::PTR => 6,
            FtlQueryType::TXT => 7,
        }
    }
}
/// The outcome of a query, as the daemon records it.
#[derive(Clone, Copy, Debug, PartialEq, Eq, Structural)]
pub enum FtlQueryStatus {
    Unknown,
    Gravity,
    Forward,
    Cache,
    Wildcard,
    Blacklist,
    ExternalBlockIp,
    ExternalBlockNull,
    ExternalBlockNxdomainRa,
}

impl FtlQueryStatus {
    /// The ordinal under which the daemon stores the value.
    pub open spec fn ordinal(self) -> int {
        match self {
            FtlQueryStatus::Unknown => 0,
            FtlQueryStatus::Gravity => 1,
            FtlQueryStatus::Forward => 2,
            FtlQueryStatus::Cache => 3,
            FtlQueryStatus::Wildcard => 4,
            FtlQueryStatus::Blacklist => 5,
            FtlQueryStatus::ExternalBlockIp => 6,
            FtlQueryStatus::ExternalBlockNull => 7,
            FtlQueryStatus::ExternalBlockNxdomainRa => 8,
        }
    }

    /// Get the query status from its ordinal value.
    pub fn from_number(num: isize) -> (r: Option<Self>)
        ensures
            r is Some <==> 0 <= num <= 8,
            r matches Some(value) ==> value.ordinal() == num,
    {
        match num {
            0 => Some(FtlQueryStatus::Unknown),
            1 => Some(FtlQueryStatus::Gravity),
            2 => Some(FtlQueryStatus::Forward),
            3 => Some(FtlQueryStatus::Cache),
            4 => Some(FtlQueryStatus::Wildcard),
            5 => Some(FtlQueryStatus::Blacklist),
            6 => Some(FtlQueryStatus::ExternalBlockIp),
            7 => Some(FtlQueryStatus::ExternalBlockNull),
            8 => Some(FtlQueryStatus::ExternalBlockNxdomainRa),
            _ => None,
        }
    }

    /// The ordinal of the value.
    pub fn to_number(self) -> (n: u8)
        ensures
            n == self.ordinal(),
    {
        match self {
            FtlQueryStatus::Unknown => 0,
            FtlQueryStatus::Gravity => 1,
            FtlQueryStatus::Forward => 2,
            FtlQueryStatus::Cache => 3,
            FtlQueryStatus::Wildcard => 4,
            FtlQueryStatus::Blacklist => 5,
            FtlQueryStatus::ExternalBlockIp => 6,
            FtlQueryStatus::ExternalBlockNull => 7,
            FtlQueryStatus::ExternalBlockNxdomainRa => 8,
        }
    }
}
/// The kind of answer that a query got.
#[derive(Clone, Copy, Debug, PartialEq, Eq, Structural)]
pub enum FtlQueryReplyType {
    Unknown,
    NODATA,
    NXDOMAIN,
    CNAME,
    IP,
    DOMAIN,
    RRNAME,
    SERVFAIL,
    REFUSED,
    NOTIMP,
    OTHER,
}

impl FtlQueryReplyType {
    /// The ordinal under which the daemon stores the value.
    pub open spec fn ordinal(self) -> int {
        match self {
            FtlQueryReplyType::Unknown => 0,
            FtlQueryReplyType::NODATA => 1,
            FtlQueryReplyType::NXDOMAIN => 2,
            FtlQueryReplyType::CNAME => 3,
            FtlQueryReplyType::IP => 4,
            FtlQueryReplyType::DOMAIN => 5,
            FtlQueryReplyType::RRNAME => 6,
            FtlQueryReplyType::SERVFAIL => 7,
            FtlQueryReplyType::REFUSED => 8,
            FtlQueryReplyType::NOTIMP => 9,
            FtlQueryReplyType::OTHER => 10,
        }
    }

    /// Get the query reply type from its ordinal value.
    pub fn from_number(num: isize) -> (r: Option<Self>)
        ensures
            r is Some <==> 0 <= num <= 10,
            r matches Some(value) ==> value.ordinal() == num,
    {
        match num {
            0 => Some(FtlQueryReplyType::Unknown),
            1 => Some(FtlQueryReplyType::NODATA),
            2 => Some(FtlQueryReplyType::NXDOMAIN),
            3 => Some(FtlQueryReplyType::CNAME),
            4 => Some(FtlQueryReplyType::IP),
            5 => Some(FtlQueryReplyType::DOMAIN),
            6 => Some(FtlQueryReplyType::RRNAME),
            7 => Some(FtlQueryReplyType::SERVFAIL),
            8 => Some(FtlQueryReplyType::REFUSED),
            9 => Some(FtlQueryReplyType::NOTIMP),
            10 => Some(FtlQueryReplyType::OTHER),
            _ => None,
        }
    }

    /// The ordinal of the value.
    pub fn to_number(self) -> (n: u8)
        ensures
            n == self.ordinal(),
    {
        match self {
            FtlQueryReplyType::Unknown => 0,
            FtlQueryReplyType::NODATA => 1,
            FtlQueryReplyType::NXDOMAIN => 2,
            FtlQueryReplyType::CNAME => 3,
            FtlQueryReplyType::IP => 4,
            FtlQueryReplyType::DOMAIN => 5,
            FtlQueryReplyType::RRNAME => 6,
            FtlQueryReplyType::SERVFAIL => 7,
            FtlQueryReplyType::REFUSED => 8,
            FtlQueryReplyType::NOTIMP => 9,
            FtlQueryReplyType::OTHER => 10,
        }
    }
}
/// The DNSSEC state of a query's answer.
#[derive(Clone, Copy, Debug, PartialEq, Eq, Structural)]
pub enum FtlDnssecType {
    Unspecified,
    Secure,
    Insecure,
    Bogus,
    Abandoned,
    Unknown,
}

impl FtlDnssecType {
    /// The ordinal under which the daemon stores the value.
    pub open spec fn ordinal(self) -> int {
        match self {
            FtlDnssecType::Unspecified => 0,
            FtlDnssecType::Secure => 1,
            FtlDnssecType::Insecure => 2,
            FtlDnssecType::Bogus => 3,
            FtlDnssecType::Abandoned => 4,
            FtlDnssecType::Unknown => 5,
        }
    }

    /// Get the DNSSEC type from its ordinal value.
    pub fn from_number(num: isize) -> (r: Option<Self>)
        ensures
            r is Some <==> 0 <= num <= 5,
            r matches Some(value) ==> value.ordinal() == num,
    {
        match num {
            0 => Some(FtlDnssecType::Unspecified),
            1 => Some(FtlDnssecType::Secure),
            2 => Some(FtlDnssecType::Insecure),
            3 => Some(FtlDnssecType::Bogus),
            4 => Some(FtlDnssecType::Abandoned),
            5 => Some(FtlDnssecType::Unknown),
            _ => None,
        }
    }

    /// The ordinal of the value.
    pub fn to_number(self) -> (n: u8)
        ensures
            n == self.ordinal(),
    {
        match self {
            FtlDnssecType::Unspecified => 0,
            FtlDnssecType::Secure => 1,
            FtlDnssecType::Insecure => 2,
            FtlDnssecType::Bogus => 3,
            FtlDnssecType::Abandoned => 4,
            FtlDnssecType::Unknown => 5,
        }
    }
}
impl FtlQueryType {
    /// The query type that the text of a request names: the one whose ordinal
    /// the text spells in decimal digits, which one plus sign may precede.
    pub open spec fn named_by(text: Seq<char>) -> Option<int> {
        match byte_of_text(text) {
            Some(number) => if 1 <= number <= 7 {
                Some(number as int)
            } else {
                None
            },
            None => None,
        }
    }

    /// Read the query type from the text of a request. A text which is no
    /// number, or the number of no query type, is a bad request.
    pub fn from_value(text: &str) -> (r: Result<Self, Error>)
        ensures
            match FtlQueryType::named_by(text@) {
                Some(number) => r matches Ok(value) && value.ordinal() == number,
                None => is_error(r, ErrorKind::BadRequest),
            },
    {
        let number = match parse_byte(text) {
            Some(number) => number,
            None => { return Err(Error::from(ErrorKind::BadRequest)); },
        };
        match FtlQueryType::from_number(number as isize) {
            Some(value) => Ok(value),
            None => Err(Error::from(ErrorKind::BadRequest)),
        }
    }
}

impl FtlQueryStatus {
    /// The query status that the text of a request names: the one whose ordinal
    /// the text spells in decimal digits, which one plus sign may precede.
    pub open spec fn named_by(text: Seq<char>) -> Option<int> {
        match byte_of_text(text) {
            Some(number) => if 0 <= number <= 8 {
                Some(number as int)
            } else {
                None
            },
            None => None,
        }
    }

    /// Read the query status from the text of a request. A text which is no
    /// number, or the number of no query status, is a bad request.
    pub fn from_value(text: &str) -> (r: Result<Self, Error>)
        ensures
            match FtlQueryStatus::named_by(text@) {
                Some(number) => r matches Ok(value) && value.ordinal() == number,
                None => is_error(r, ErrorKind::BadRequest),
            },
    {
        let number = match parse_byte(text) {
            Some(number) => number,
            None => { return Err(Error::from(ErrorKind::BadRequest)); },
        };
        match FtlQueryStatus::from_number(number as isize) {
            Some(value) => Ok(value),
            None => Err(Error::from(ErrorKind::BadRequest)),
        }
    }
}

impl FtlQueryReplyType {
    /// The kind of answer that the text of a request names: the one whose ordinal
    /// the text spells in decimal digits, which one plus sign may precede.
    pub open spec fn named_by(text: Seq<char>) -> Option<int> {
        match byte_of_text(text) {
            Some(number) => if 0 <= number <= 10 {
                Some(number as int)
            } else {
                None
            },
            None => None,
        }
    }

    /// Read the kind of answer from the text of a request. A text which is no
    /// number, or the number of no kind of answer, is a bad request.
    pub fn from_value(text: &str) -> (r: Result<Self, Error>)
        ensures
            match FtlQueryReplyType::named_by(text@) {
                Some(number) => r matches Ok(value) && value.ordinal() == number,
                None => is_error(r, ErrorKind::BadRequest),
            },
    {
        let number = match parse_byte(text) {
            Some(number) => number,
            None => { return Err(Error::from(ErrorKind::BadRequest)); },
        };
        match FtlQueryReplyType::from_number(number as isize) {
            Some(value) => Ok(value),
            None => Err(Error::from(ErrorKind::BadRequest)),
        }
    }
}

impl FtlDnssecType {
    /// The DNSSEC state that the text of a request names: the one whose ordinal
    /// the text spells in decimal digits, which one plus sign may precede.
    pub open spec fn named_by(text: Seq<char>) -> Option<int> {
        match byte_of_text(text) {
            Some(number) => if 0 <= number <= 5 {
                Some(number as int)
            } else {
                None
            },
            None => None,
        }
    }

    /// Read the DNSSEC state from the text of a request. A text which is no
    /// number, or the number of no DNSSEC state, is a bad request.
    pub fn from_value(text: &str) -> (r: Result<Self, Error>)
        ensures
            match FtlDnssecType::named_by(text@) {
                Some(number) => r matches Ok(value) && value.ordinal() == number,
                None => is_error(r, ErrorKind::BadRequest),
            },
    {
        let number = match parse_byte(text) {
            Some(number) => number,
            None => { return Err(Error::from(ErrorKind::BadRequest)); },
        };
        match FtlDnssecType::from_number(number as isize) {
            Some(value) => Ok(value),
            None => Err(Error::from(ErrorKind::BadRequest)),
        }
    }
}

/// The byte with which the daemon begins every record, to guard against a
/// foreign memory layout.
pub const MAGIC_BYTE: u8 = 0x57;

/// The ordinals of the statuses which mark a query as blocked.
pub const BLOCKED_STATUSES: [i32; 6] = [1, 4, 5, 6, 7, 8];

/// The statuses which mark a query as blocked.
pub open spec fn blocked_statuses() -> Set<FtlQueryStatus> {
    set![
        FtlQueryStatus::Gravity,
        FtlQueryStatus::Wildcard,
        FtlQueryStatus::Blacklist,
        FtlQueryStatus::ExternalBlockIp,
        FtlQueryStatus::ExternalBlockNull,
        FtlQueryStatus::ExternalBlockNxdomainRa,
    ]
}

impl FtlQueryStatus {
    /// Whether the status marks a query as blocked.
    pub fn is_blocked(self) -> (blocked: bool)
        ensures
            blocked == blocked_statuses().contains(self),
    {
        match self {
            FtlQueryStatus::Gravity => true,
            FtlQueryStatus::Wildcard => true,
            FtlQueryStatus::Blacklist => true,
            FtlQueryStatus::ExternalBlockIp => true,
            FtlQueryStatus::ExternalBlockNull => true,
            FtlQueryStatus::ExternalBlockNxdomainRa => true,
            FtlQueryStatus::Unknown => false,
            FtlQueryStatus::Forward => false,
            FtlQueryStatus::Cache => false,
        }
    }
}

/// The set of blocked statuses has six members, which are the statuses with
/// the ordinals 1, 4, 5, 6, 7 and 8: a query which gravity, a wildcard, the
/// blacklist or an upstream blocked. No other status is in it.
pub proof fn lemma_blocked_statuses(status: FtlQueryStatus)
    ensures
        blocked_statuses().contains(status) <==> (status.ordinal() == 1 || 4 <= status.ordinal()
            <= 8),
        blocked_statuses().finite(),
        blocked_statuses().len() == 6,
        forall|i: int| 0 <= i < 6 ==> 0 <= #[trigger] BLOCKED_STATUSES@[i] <= 8,
        blocked_statuses().contains(status) <==> exists|i: int|
            0 <= i < 6 && #[trigger] BLOCKED_STATUSES@[i] == status.ordinal(),
{
    let ordinals = BLOCKED_STATUSES@;
    assert(ordinals[0] == 1 && ordinals[1] == 4 && ordinals[2] == 5 && ordinals[3] == 6
        && ordinals[4] == 7 && ordinals[5] == 8);
}

/// One DNS query, as the daemon keeps it.
#[derive(Clone, Copy, Debug, PartialEq, Eq, Structural)]
pub struct FtlQuery {
    pub magic: u8,
    pub query_type: FtlQueryType,
    pub status: FtlQueryStatus,
    pub privacy_level: FtlPrivacyLevel,
    pub reply_type: FtlQueryReplyType,
    pub dnssec_type: FtlDnssecType,
    pub timestamp: i64,
    pub domain_id: i32,
    pub client_id: i32,
    /// Below zero where no upstream answered.
    pub upstream_id: i32,
    /// The place of the query among the queries in memory, as the daemon
    /// writes it. The history names a query by where it stands in the
    /// table, which is this place in what the daemon writes.
    pub id: i32,
    /// Saved in units of 1/10 milliseconds (1 = 0.1ms, 2 = 0.2ms,
    /// 2500 = 250.0ms, etc.)
    pub response_time: u64,
    /// The row of the query in the archive; not above zero while it has none.
    pub database_id: i64,
    pub time_index: u32,
    pub is_complete: bool,
}

impl FtlQuery {
    /// Check if the query was blocked.
    pub fn is_blocked(&self) -> (blocked: bool)
        ensures
            blocked == blocked_statuses().contains(self.status),
    {
        self.status.is_blocked()
    }

    /// Whether the archive holds the query already.
    pub open spec fn is_archived(&self) -> bool {
        self.database_id > 0
    }
}

/// The reference to the name of a client or an upstream, as the daemon's
/// record gives it: there is none where the record marks the name as
/// unknown, nor where the reference is zero, the place of the empty string.
pub open spec fn name_at(id: usize, is_unknown: bool) -> Option<usize> {
    if is_unknown || id == 0 {
        None
    } else {
        Some(id)
    }
}

/// Tell where the table of strings holds the name of a record, if the
/// record has a name.
pub fn name_reference(id: usize, is_unknown: bool) -> (name: Option<usize>)
    ensures
        name == name_at(id, is_unknown),
{
    if is_unknown || id == 0 {
        None
    } else {
        Some(id)
    }
}

/// A client of the resolver.
#[derive(Clone, Copy, Debug, PartialEq, Eq)]
pub struct FtlClient {
    pub magic: u8,
    pub query_count: i32,
    pub blocked_count: i32,
    /// Where the table of strings holds the client's address.
    pub ip_str_id: usize,
    /// Where the table of strings holds the client's name, if it has one.
    pub name_str_id: Option<usize>,
}

impl FtlClient {
    /// A client with the given counts and string references.
    pub fn new(
        query_count: i32,
        blocked_count: i32,
        ip_str_id: usize,
        name_str_id: Option<usize>,
    ) -> (client: FtlClient)
        ensures
            client == (FtlClient {
                magic: MAGIC_BYTE,
                query_count,
                blocked_count,
                ip_str_id,
                name_str_id,
            }),
    {
        FtlClient { magic: MAGIC_BYTE, query_count, blocked_count, ip_str_id, name_str_id }
    }

    /// The client's address: the string under `ip_str_id`, empty where the table has none.
    pub open spec fn ip(&self, strings: &FtlStrings) -> Seq<char> {
        strings.text(self.ip_str_id)
    }

    /// The client's name: the string under `name_str_id`, empty where the
    /// table has none; nothing where the client has no name.
    pub open spec fn name(&self, strings: &FtlStrings) -> Option<Seq<char>> {
        match self.name_str_id {
            Some(id) => Some(strings.text(id)),
            None => None,
        }
    }

    /// Get the address of the client.
    pub fn get_ip<'a>(&self, strings: &'a FtlStrings) -> (ip: &'a str)
        ensures
            ip@ == self.ip(strings),
    {
        strings.get_str_or_empty(self.ip_str_id)
    }

    /// Get the name of the client, if it has one.
    pub fn get_name<'a>(&self, strings: &'a FtlStrings) -> (name: Option<&'a str>)
        ensures
            name is Some == self.name(strings) is Some,
            name matches Some(n) ==> self.name(strings) == Some(n@),
    {
        match self.name_str_id {
            Some(id) => Some(strings.get_str_or_empty(id)),
            None => None,
        }
    }
}

/// A record of the shared memory, which begins with the magic byte.
pub trait Marked: Copy {
    /// The first byte of the record.
    spec fn mark(&self) -> u8;

    /// Get the first byte of the record.
    fn get_mark(&self) -> (mark: u8)
        ensures
            mark == self.mark(),
    ;
}

impl Marked for FtlQuery {
    open spec fn mark(&self) -> u8 {
        self.magic
    }

    fn get_mark(&self) -> (mark: u8) {
        self.magic
    }
}

impl Marked for FtlClient {
    open spec fn mark(&self) -> u8 {
        self.magic
    }

    fn get_mark(&self) -> (mark: u8) {
        self.magic
    }
}

impl Marked for FtlDomain {
    open spec fn mark(&self) -> u8 {
        self.magic
    }

    fn get_mark(&self) -> (mark: u8) {
        self.magic
    }
}

impl Marked for FtlUpstream {
    open spec fn mark(&self) -> u8 {
        self.magic
    }

    fn get_mark(&self) -> (mark: u8) {
        self.magic
    }
}

impl Marked for FtlOverTime {
    open spec fn mark(&self) -> u8 {
        self.magic
    }

    fn get_mark(&self) -> (mark: u8) {
        self.magic
    }
}

/// Whether every record begins with the magic byte.
pub open spec fn all_marked<T: Marked>(records: Seq<T>) -> bool {
    forall|i: int| 0 <= i < records.len() ==> (#[trigger] records[i]).mark() == MAGIC_BYTE
}

/// Check if every record begins with the magic byte.
pub fn check_marks<T: Marked>(records: &[T]) -> (r: bool)
    ensures
        r == all_marked(records@),
{
    let mut i: usize = 0;
    while i < records.len()
        invariant
            i <= records.len(),
            forall|j: int| 0 <= j < i ==> (#[trigger] records@[j]).mark() == MAGIC_BYTE,
        decreases records.len() - i,
    {
        if records[i].get_mark() != MAGIC_BYTE {
            return false;
        }
        i = i + 1;
    }
    true
}

/// A record which counts its queries and, among them, the blocked ones.
pub trait Counted: Copy {
    /// The count of the record: of its blocked queries, or of all its queries.
    spec fn counted(&self, blocked: bool) -> int;

    /// Get the count of the record: of its blocked queries, or of all its queries.
    fn count(&self, blocked: bool) -> (n: i32)
        ensures
            n == self.counted(blocked),
    ;
}

impl Counted for FtlClient {
    open spec fn counted(&self, blocked: bool) -> int {
        if blocked {
            self.blocked_count as int
        } else {
            self.query_count as int
        }
    }

    fn count(&self, blocked: bool) -> (n: i32) {
        if blocked {
            self.blocked_count
        } else {
            self.query_count
        }
    }
}

impl Counted for FtlDomain {
    open spec fn counted(&self, blocked: bool) -> int {
        if blocked {
            self.blocked_count as int
        } else {
            self.query_count as int
        }
    }

    fn count(&self, blocked: bool) -> (n: i32) {
        if blocked {
            self.blocked_count
        } else {
            self.query_count
        }
    }
}

/// A domain that was asked for.
#[derive(Clone, Copy, Debug, PartialEq, Eq)]
pub struct FtlDomain {
    pub magic: u8,
    pub query_count: i32,
    pub blocked_count: i32,
    /// Where the table of strings holds the domain.
    pub domain_str_id: usize,
}

impl FtlDomain {
    /// A domain with the given counts and string reference.
    pub fn new(query_count: i32, blocked_count: i32, domain_str_id: usize) -> (domain: FtlDomain)
        ensures
            domain == (FtlDomain { magic: MAGIC_BYTE, query_count, blocked_count, domain_str_id }),
    {
        FtlDomain { magic: MAGIC_BYTE, query_count, blocked_count, domain_str_id }
    }

    /// The domain: the string under `domain_str_id`, empty where the table has none.
    pub open spec fn domain(&self, strings: &FtlStrings) -> Seq<char> {
        strings.text(self.domain_str_id)
    }

    /// Get the domain.
    pub fn get_domain<'a>(&self, strings: &'a FtlStrings) -> (domain: &'a str)
        ensures
            domain@ == self.domain(strings),
    {
        strings.get_str_or_empty(self.domain_str_id)
    }
}

/// An upstream resolver.
#[derive(Clone, Copy, Debug, PartialEq, Eq)]
pub struct FtlUpstream {
    pub magic: u8,
    pub query_count: i32,
    pub failed_count: i32,
    /// Where the table of strings holds the upstream's address.
    pub ip_str_id: usize,
    /// Where the table of strings holds the upstream's name, if it has one.
    pub name_str_id: Option<usize>,
}

impl FtlUpstream {
    /// An upstream with the given counts and string references.
    pub fn new(
        query_count: i32,
        failed_count: i32,
        ip_str_id: usize,
        name_str_id: Option<usize>,
    ) -> (upstream: FtlUpstream)
        ensures
            upstream == (FtlUpstream {
                magic: MAGIC_BYTE,
                query_count,
                failed_count,
                ip_str_id,
                name_str_id,
            }),
    {
        FtlUpstream { magic: MAGIC_BYTE, query_count, failed_count, ip_str_id, name_str_id }
    }

    /// The upstream's address: the string under `ip_str_id`, empty where the table has none.
    pub open spec fn ip(&self, strings: &FtlStrings) -> Seq<char> {
        strings.text(self.ip_str_id)
    }

    /// Get the address of the upstream.
    pub fn get_ip<'a>(&self, strings: &'a FtlStrings) -> (ip: &'a str)
        ensures
            ip@ == self.ip(strings),
    {
        strings.get_str_or_empty(self.ip_str_id)
    }
}

/// One interval of the time series.
#[derive(Clone, Copy, Debug, PartialEq, Eq, Structural)]
pub struct FtlOverTime {
    pub magic: u8,
    pub timestamp: i64,
    pub total_queries: i32,
    pub blocked_queries: i32,
}

/// The live totals. The tables hold room beyond them: what stands at or
/// after a total is no record.
#[derive(Clone, Copy, Debug, PartialEq, Eq, Structural)]
pub struct FtlCounters {
    pub total_queries: i32,
    pub blocked_queries: i32,
    pub total_clients: i32,
    pub total_domains: i32,
    pub total_upstreams: i32,
    pub over_time_slots: i32,
}

impl Default for FtlCounters {
    fn default() -> (counters: FtlCounters)
        ensures
            counters == (FtlCounters {
                total_queries: 0,
                blocked_queries: 0,
                total_clients: 0,
                total_domains: 0,
                total_upstreams: 0,
                over_time_slots: 0,
            }),
    {
        FtlCounters {
            total_queries: 0,
            blocked_queries: 0,
            total_clients: 0,
            total_domains: 0,
            total_upstreams: 0,
            over_time_slots: 0,
        }
    }
}

/// The daemon's settings which shape the output.
#[derive(Clone, Copy, Debug, PartialEq, Eq, Structural)]
pub struct FtlSettings {
    pub version: i32,
    pub privacy_level: FtlPrivacyLevel,
}

impl Default for FtlSettings {
    fn default() -> (settings: FtlSettings)
        ensures
            settings == (FtlSettings { version: 0, privacy_level: FtlPrivacyLevel::ShowAll }),
    {
        FtlSettings { version: 0, privacy_level: FtlPrivacyLevel::ShowAll }
    }
}

/// The table of strings: the records name their texts by a number in it.
pub struct FtlStrings {
    entries: HashMap<usize, String>,
}

impl View for FtlStrings {
    type V = Map<usize, Seq<char>>;

    closed spec fn view(&self) -> Map<usize, Seq<char>> {
        Map::new(|id: usize| self.entries@.contains_key(id), |id: usize| self.entries@[id]@)
    }
}

impl FtlStrings {
    /// The string under `id`, empty where the table has none.
    pub open spec fn text(&self, id: usize) -> Seq<char> {
        if self@.contains_key(id) {
            self@[id]
        } else {
            Seq::empty()
        }
    }

    /// An empty table.
    pub fn new() -> (strings: FtlStrings)
        ensures
            strings@ == Map::<usize, Seq<char>>::empty(),
    {
        let strings = FtlStrings { entries: HashMap::new() };
        assert(strings@ =~= Map::<usize, Seq<char>>::empty());
        strings
    }

    /// Put `text` under `id`, unless the table has a string under `id`
    /// already: what the table holds, it holds for good.
    pub fn insert(&mut self, id: usize, text: String) -> (added: bool)
        ensures
            added == !old(self)@.contains_key(id),
            added ==> final(self)@ == old(self)@.insert(id, text@),
            !added ==> final(self)@ == old(self)@,
    {
        broadcast use vstd::std_specs::hash::group_hash_axioms;

        if self.entries.contains_key(&id) {
            return false;
        }
        self.entries.insert(id, text);
        assert(self@ =~= old(self)@.insert(id, text@));
        true
    }

    /// Get the string under `id`, if there is one.
    pub fn get_str(&self, id: usize) -> (text: Option<&str>)
        ensures
            text is Some == self@.contains_key(id),
            text matches Some(t) ==> t@ == self@[id],
    {
        broadcast use vstd::std_specs::hash::group_hash_axioms;

        match self.entries.get(&id) {
            Some(text) => Some(text.as_str()),
            None => None,
        }
    }

    /// Get the string under `id`, or the empty string if there is none.
    pub fn get_str_or_empty(&self, id: usize) -> (text: &str)
        ensures
            text@ == self.text(id),
    {
        match self.get_str(id) {
            Some(text) => text,
            None => {
                proof {
                    reveal_strlit("");
                }
                ""
            },
        }
    }
}

} // verus!
