//! The totals of the daemon and its time series.

use crate::env::Env;
use crate::ftl::memory::FtlMemory;
use crate::ftl::memory_model::FtlOverTime;
use crate::routes::stats::top_clients::{as_count, hides_clients};
use crate::settings::{FtlConfEntry, FtlPrivacyLevel};
use crate::util::{is_error, Error, ErrorKind};
use vstd::prelude::*;

verus! {

/// One interval of the time series, as the reply shows it.
#[derive(Clone, Copy, Debug, PartialEq, Eq, Structural)]
pub struct OverTimeItem {
    pub timestamp: u64,
    pub total_queries: usize,
    pub blocked_queries: usize,
}

/// How an interval is shown: its time and its counts, nothing below zero.
pub open spec fn over_time_item(slot: FtlOverTime) -> OverTimeItem {
    OverTimeItem {
        timestamp: as_count(slot.timestamp as int) as u64,
        total_queries: as_count(slot.total_queries as int) as usize,
        blocked_queries: as_count(slot.blocked_queries as int) as usize,
    }
}

/// Whether a privacy level hides the statistics altogether.
pub open spec fn hides_all(level: FtlPrivacyLevel) -> bool {
    level.ordinal() >= FtlPrivacyLevel::Maximum.ordinal()
}

/// The time series of a snapshot under a privacy level: the counted
/// intervals, or none where the level hides the statistics.
pub open spec fn over_time_history(memory: &FtlMemory, level: FtlPrivacyLevel) -> Seq<
    OverTimeItem,
> {
    if hides_all(level) {
        Seq::empty()
    } else {
        memory.valid_over_time().map_values(|slot: FtlOverTime| over_time_item(slot))
    }
}

/// Get the queries over time
pub fn get_over_time_history(ftl_memory: &FtlMemory, env: &Env) -> (r: Result<
    Vec<OverTimeItem>,
    Error,
>)
    ensures
        match FtlConfEntry::privacy_level(env) {
            None => is_error(r, ErrorKind::InvalidSettingValue),
            Some(level) => r matches Ok(items) && items@ == over_time_history(ftl_memory, level),
        },
{
    let level = match FtlConfEntry::read_privacy_level(env) {
        Ok(level) => level,
        Err(e) => { return Err(e); },
    };
    let mut items: Vec<OverTimeItem> = Vec::new();
    if level.at_least(FtlPrivacyLevel::Maximum) {
        return Ok(items);
    }
    let lock = ftl_memory.lock();
    let slots = ftl_memory.over_time(&lock);
    let mut i: usize = 0;
    while i < slots.len()
        invariant
            i <= slots.len(),
            items.len() == i,
            forall|j: int| 0 <= j < i ==> items@[j] == over_time_item(slots@[j]),
        decreases slots.len() - i,
    {
        let slot = &slots[i];
        items.push(
            OverTimeItem {
                timestamp: if slot.timestamp < 0 {
                    0
                } else {
                    slot.timestamp as u64
                },
                total_queries: if slot.total_queries < 0 {
                    0
                } else {
                    slot.total_queries as usize
                },
                blocked_queries: if slot.blocked_queries < 0 {
                    0
                } else {
                    slot.blocked_queries as usize
                },
            },
        );
        i = i + 1;
    }
    assert(items@ == slots@.map_values(|slot: FtlOverTime| over_time_item(slot)));
    Ok(items)
}

/// The totals of the daemon.
#[derive(Clone, Copy, Debug, PartialEq, Eq, Structural)]
pub struct Summary {
    pub total_queries: usize,
    pub blocked_queries: usize,
    /// The number of clients, unless the privacy level hides the clients.
    pub total_clients: Option<usize>,
    pub total_domains: usize,
    pub total_upstreams: usize,
}

/// The totals of a snapshot under a privacy level: the daemon's counts,
/// nothing below zero. The count of queries and of blocked queries is the
/// same under every level.
pub open spec fn summary_of(memory: &FtlMemory, level: FtlPrivacyLevel) -> Summary {
    Summary {
        total_queries: as_count(memory.totals().total_queries as int) as usize,
        blocked_queries: as_count(memory.totals().blocked_queries as int) as usize,
        total_clients: if hides_clients(level) {
            None
        } else {
            Some(as_count(memory.totals().total_clients as int) as usize)
        },
        total_domains: as_count(memory.totals().total_domains as int) as usize,
        total_upstreams: as_count(memory.totals().total_upstreams as int) as usize,
    }
}

/// A count of the daemon as a number.
fn count(n: i32) -> (r: usize)
    ensures
        r == as_count(n as int),
{
    if n < 0 {
        0
    } else {
        n as usize
    }
}

/// Get the summary data
pub fn get_summary(ftl_memory: &FtlMemory, env: &Env) -> (r: Result<Summary, Error>)
    ensures
        match FtlConfEntry::privacy_level(env) {
            None => is_error(r, ErrorKind::InvalidSettingValue),
            Some(level) => r == Ok::<Summary, Error>(summary_of(ftl_memory, level)),
        },
{
    let level = match FtlConfEntry::read_privacy_level(env) {
        Ok(level) => level,
        Err(e) => { return Err(e); },
    };
    let lock = ftl_memory.lock();
    let counters = ftl_memory.counters(&lock);
    Ok(
        Summary {
            total_queries: count(counters.total_queries),
            blocked_queries: count(counters.blocked_queries),
            total_clients: if level.at_least(FtlPrivacyLevel::HideDomainsAndClients) {
                None
            } else {
                Some(count(counters.total_clients))
            },
            total_domains: count(counters.total_domains),
            total_upstreams: count(counters.total_upstreams),
        },
    )
}

} // verus!
