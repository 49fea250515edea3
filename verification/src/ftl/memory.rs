//! A snapshot of the daemon's shared memory.
//!
//! The daemon allots its tables with room to spare and counts what it has
//! filled. The snapshot hands out the counted part of each table and nothing
//! else, so that nothing outside it can see an unfilled record.

use crate::ftl::lock::ShmLockGuard;
use crate::ftl::memory_model::{all_marked, check_marks};
use crate::ftl::memory_model::{
    FtlClient, FtlCounters, FtlDomain, FtlOverTime, FtlQuery, FtlSettings, FtlStrings, FtlUpstream,
};
use vstd::prelude::*;
use vstd::slice::slice_subrange;

verus! {

/// How many records of a table of `capacity` records are filled, for a
/// counter of the daemon: as many as it counts, none where it counts below
/// zero, and never more than there are.
pub open spec fn valid_len(counter: i32, capacity: nat) -> int {
    if counter < 0 {
        0
    } else if counter > capacity {
        capacity as int
    } else {
        counter as int
    }
}

/// The filled part of a table.
pub open spec fn valid_part<T>(table: Seq<T>, counter: i32) -> Seq<T> {
    table.take(valid_len(counter, table.len()))
}

/// The filled part of a table.
fn counted<T>(table: &Vec<T>, counter: i32) -> (part: &[T])
    ensures
        part@ == valid_part(table@, counter),
{
    let len = if counter < 0 {
        0
    } else if counter as usize > table.len() {
        table.len()
    } else {
        counter as usize
    };
    slice_subrange(table.as_slice(), 0, len)
}

/// A snapshot of the daemon's shared memory.
pub struct FtlMemory {
    clients: Vec<FtlClient>,
    domains: Vec<FtlDomain>,
    over_time: Vec<FtlOverTime>,
    strings: FtlStrings,
    upstreams: Vec<FtlUpstream>,
    queries: Vec<FtlQuery>,
    counters: FtlCounters,
    settings: FtlSettings,
}

impl FtlMemory {
    /// The table of clients, with its spare room.
    pub closed spec fn client_table(&self) -> Seq<FtlClient> {
        self.clients@
    }

    /// The table of domains, with its spare room.
    pub closed spec fn domain_table(&self) -> Seq<FtlDomain> {
        self.domains@
    }

    /// The table of intervals, with its spare room.
    pub closed spec fn over_time_table(&self) -> Seq<FtlOverTime> {
        self.over_time@
    }

    /// The table of upstreams, with its spare room.
    pub closed spec fn upstream_table(&self) -> Seq<FtlUpstream> {
        self.upstreams@
    }

    /// The table of queries, with its spare room.
    pub closed spec fn query_table(&self) -> Seq<FtlQuery> {
        self.queries@
    }

    /// The table of strings.
    pub closed spec fn string_table(&self) -> FtlStrings {
        self.strings
    }

    /// The daemon's totals.
    pub closed spec fn totals(&self) -> FtlCounters {
        self.counters
    }

    /// The daemon's settings.
    pub closed spec fn live_settings(&self) -> FtlSettings {
        self.settings
    }

    /// The clients that the daemon has counted.
    pub open spec fn valid_clients(&self) -> Seq<FtlClient> {
        valid_part(self.client_table(), self.totals().total_clients)
    }

    /// The domains that the daemon has counted.
    pub open spec fn valid_domains(&self) -> Seq<FtlDomain> {
        valid_part(self.domain_table(), self.totals().total_domains)
    }

    /// The intervals that the daemon has counted.
    pub open spec fn valid_over_time(&self) -> Seq<FtlOverTime> {
        valid_part(self.over_time_table(), self.totals().over_time_slots)
    }

    /// The upstreams that the daemon has counted.
    pub open spec fn valid_upstreams(&self) -> Seq<FtlUpstream> {
        valid_part(self.upstream_table(), self.totals().total_upstreams)
    }

    /// The queries that the daemon has counted.
    pub open spec fn valid_queries(&self) -> Seq<FtlQuery> {
        valid_part(self.query_table(), self.totals().total_queries)
    }

    /// Whether two snapshots show the same to a reader: they agree in the
    /// totals, the settings, the strings and the counted part of each table.
    /// They may differ in the spare room.
    pub open spec fn shows_the_same(&self, other: &FtlMemory) -> bool {
        &&& self.totals() == other.totals()
        &&& self.live_settings() == other.live_settings()
        &&& self.string_table()@ == other.string_table()@
        &&& self.valid_clients() == other.valid_clients()
        &&& self.valid_domains() == other.valid_domains()
        &&& self.valid_over_time() == other.valid_over_time()
        &&& self.valid_upstreams() == other.valid_upstreams()
        &&& self.valid_queries() == other.valid_queries()
    }

    /// Whether the layout of the snapshot is the one the library knows: every
    /// counted record begins with the magic byte.
    pub open spec fn layout_matches(&self) -> bool {
        &&& all_marked(self.valid_clients())
        &&& all_marked(self.valid_domains())
        &&& all_marked(self.valid_over_time())
        &&& all_marked(self.valid_upstreams())
        &&& all_marked(self.valid_queries())
    }

    /// A snapshot of the given tables and totals.
    pub fn new(
        clients: Vec<FtlClient>,
        domains: Vec<FtlDomain>,
        over_time: Vec<FtlOverTime>,
        strings: FtlStrings,
        upstreams: Vec<FtlUpstream>,
        queries: Vec<FtlQuery>,
        counters: FtlCounters,
        settings: FtlSettings,
    ) -> (memory: FtlMemory)
        ensures
            memory.client_table() == clients@,
            memory.domain_table() == domains@,
            memory.over_time_table() == over_time@,
            memory.string_table() == strings,
            memory.upstream_table() == upstreams@,
            memory.query_table() == queries@,
            memory.totals() == counters,
            memory.live_settings() == settings,
    {
        FtlMemory { clients, domains, over_time, strings, upstreams, queries, counters, settings }
    }

    /// Check if the layout of the snapshot is the one the library knows.
    pub fn check_layout(&self) -> (r: bool)
        ensures
            r == self.layout_matches(),
    {
        let lock = self.lock();
        check_marks(self.clients(&lock)) && check_marks(self.domains(&lock)) && check_marks(
            self.over_time(&lock),
        ) && check_marks(self.upstreams(&lock)) && check_marks(self.queries(&lock))
    }

    /// Take the lock on the shared memory.
    pub fn lock(&self) -> (guard: ShmLockGuard) {
        ShmLockGuard::taken()
    }

    /// The daemon's totals.
    pub fn counters(&self, lock: &ShmLockGuard) -> (counters: FtlCounters)
        ensures
            counters == self.totals(),
    {
        self.counters
    }

    /// The daemon's settings.
    pub fn settings(&self, lock: &ShmLockGuard) -> (settings: FtlSettings)
        ensures
            settings == self.live_settings(),
    {
        self.settings
    }

    /// The table of strings.
    pub fn strings(&self, lock: &ShmLockGuard) -> (strings: &FtlStrings)
        ensures
            *strings == self.string_table(),
    {
        &self.strings
    }

    /// The clients that the daemon has counted.
    pub fn clients(&self, lock: &ShmLockGuard) -> (clients: &[FtlClient])
        ensures
            clients@ == self.valid_clients(),
    {
        counted(&self.clients, self.counters.total_clients)
    }

    /// The domains that the daemon has counted.
    pub fn domains(&self, lock: &ShmLockGuard) -> (domains: &[FtlDomain])
        ensures
            domains@ == self.valid_domains(),
    {
        counted(&self.domains, self.counters.total_domains)
    }

    /// The intervals that the daemon has counted.
    pub fn over_time(&self, lock: &ShmLockGuard) -> (over_time: &[FtlOverTime])
        ensures
            over_time@ == self.valid_over_time(),
    {
        counted(&self.over_time, self.counters.over_time_slots)
    }

    /// The upstreams that the daemon has counted.
    pub fn upstreams(&self, lock: &ShmLockGuard) -> (upstreams: &[FtlUpstream])
        ensures
            upstreams@ == self.valid_upstreams(),
    {
        counted(&self.upstreams, self.counters.total_upstreams)
    }

    /// The queries that the daemon has counted.
    pub fn queries(&self, lock: &ShmLockGuard) -> (queries: &[FtlQuery])
        ensures
            queries@ == self.valid_queries(),
    {
        counted(&self.queries, self.counters.total_queries)
    }
}

} // verus!
