//! The pages of the query history.
//!
//! The history is the queries in memory, the newest first, and behind them
//! the rows of the archive which are older than every query in memory, the
//! newest first. A page is the first queries of the history which pass the
//! filters of the request, from where the cursor of the request points. The
//! cursor of the reply names the last query of the page.
//!
//! A query in memory is named by its place, which is where it stands in the
//! table of queries. A row of the archive is part of the history where its
//! number is below the row of every query in memory: a query which stands
//! in memory and in the archive is shown once, as the query in memory.

use crate::databases::ftl::{FtlDatabase, FtlDbQuery};
use crate::ftl::memory::FtlMemory;
use crate::ftl::memory_model::{
    FtlClient, FtlDomain, FtlQuery, FtlStrings, FtlUpstream, BLOCKED_STATUSES,
};
use crate::routes::stats::history::cursor::HistoryCursor;
use crate::routes::stats::history::endpoints::{
    cut, queries_of, to_byte, to_response_time, to_time, History, HistoryParams, HistoryReply,
    Query, QueryReply,
};
use crate::text::text_equal;
use crate::util::Error;
use vstd::prelude::*;

verus! {

/// A query of the history: how it is shown, the upstream which answered it,
/// and the cursor which names it.
pub struct Entry {
    pub shown: Query,
    pub upstream: Option<Seq<char>>,
    pub cursor: HistoryCursor,
}

/// Whether a status with this ordinal marks a query as blocked.
pub open spec fn is_blocked_status(status: int) -> bool {
    status == 1 || 4 <= status <= 8
}

/// Whether a query passes the filters of a request. Every filter that is
/// set has to hold: the time is in the range from `from` to before `until`;
/// the domain, the client and the upstream are the ones asked for; so are
/// the type, the status, the DNSSEC state and the kind of answer; and the
/// query is blocked or not as asked.
pub open spec fn passes(params: &HistoryParams, shown: Query, upstream: Option<Seq<char>>) -> bool {
    &&& params.from matches Some(from) ==> shown.timestamp >= from
    &&& params.until matches Some(until) ==> shown.timestamp < until
    &&& params.domain matches Some(domain) ==> shown.domain == domain@
    &&& params.client matches Some(client) ==> shown.client == client@
    &&& params.upstream matches Some(wanted) ==> upstream == Some(wanted@)
    &&& params.query_type matches Some(query_type) ==> shown.query_type == query_type.ordinal()
    &&& params.status matches Some(status) ==> shown.status == status.ordinal()
    &&& params.blocked matches Some(blocked) ==> is_blocked_status(shown.status) == blocked
    &&& params.dnssec matches Some(dnssec) ==> shown.dnssec == dnssec.ordinal()
    &&& params.reply matches Some(reply) ==> shown.reply == reply.ordinal()
}

/// The filter of a request.
pub open spec fn passing(params: &HistoryParams) -> spec_fn(Entry) -> bool {
    |entry: Entry| passes(params, entry.shown, entry.upstream)
}

/// How an entry is shown.
pub open spec fn shown_of() -> spec_fn(Entry) -> Query {
    |entry: Entry| entry.shown
}

/// The name of a client, or its address where it has no name.
pub open spec fn client_label(client: FtlClient, strings: &FtlStrings) -> Seq<char> {
    match client.name(strings) {
        Some(name) => name,
        None => client.ip(strings),
    }
}

/// The domain of a query: that of the counted domain which the query names,
/// or no text where it names none.
pub open spec fn domain_text(memory: &FtlMemory, id: i32) -> Seq<char> {
    if 0 <= id < memory.valid_domains().len() {
        memory.valid_domains()[id as int].domain(&memory.string_table())
    } else {
        Seq::empty()
    }
}

/// The client of a query: the label of the counted client which the query
/// names, or no text where it names none.
pub open spec fn client_text(memory: &FtlMemory, id: i32) -> Seq<char> {
    if 0 <= id < memory.valid_clients().len() {
        client_label(memory.valid_clients()[id as int], &memory.string_table())
    } else {
        Seq::empty()
    }
}

/// The upstream of a query: the address of the counted upstream which the
/// query names, or none where it names none.
pub open spec fn upstream_text(memory: &FtlMemory, id: i32) -> Option<Seq<char>> {
    if 0 <= id < memory.valid_upstreams().len() {
        Some(memory.valid_upstreams()[id as int].ip(&memory.string_table()))
    } else {
        None
    }
}

/// How a query in memory is shown.
pub open spec fn live_shown(memory: &FtlMemory, query: FtlQuery) -> Query {
    Query {
        timestamp: cut(query.timestamp as int, u64::MAX as int),
        query_type: query.query_type.ordinal(),
        status: query.status.ordinal(),
        domain: domain_text(memory, query.domain_id),
        client: client_text(memory, query.client_id),
        dnssec: query.dnssec_type.ordinal(),
        reply: query.reply_type.ordinal(),
        response_time: cut(query.response_time as int, u32::MAX as int),
    }
}

/// The cursor which names the query at a place in memory: the place, and
/// the row of the query in the archive where it has one.
pub open spec fn live_cursor(place: int, query: FtlQuery) -> HistoryCursor {
    HistoryCursor {
        id: Some(place as i32),
        db_id: if query.database_id > 0 {
            Some(query.database_id)
        } else {
            None
        },
    }
}

/// The query at a place in memory as an entry of the history.
pub open spec fn live_entry(memory: &FtlMemory, place: int) -> Entry {
    let query = memory.valid_queries()[place];
    Entry {
        shown: live_shown(memory, query),
        upstream: upstream_text(memory, query.upstream_id),
        cursor: live_cursor(place, query),
    }
}

/// A row of the archive as an entry of the history.
pub open spec fn archive_entry(row: FtlDbQuery) -> Entry {
    Entry {
        shown: row.shown(),
        upstream: match row.upstream {
            Some(upstream) => Some(upstream@),
            None => None,
        },
        cursor: HistoryCursor { id: None, db_id: Some(row.id as i64) },
    }
}

/// The queries in memory as entries, the newest first.
pub open spec fn live_entries(memory: &FtlMemory) -> Seq<Entry> {
    Seq::new(
        memory.valid_queries().len(),
        |i: int| live_entry(memory, memory.valid_queries().len() - 1 - i),
    )
}

/// The rows of the archive as entries, the newest first.
pub open spec fn archive_entries(db: &FtlDatabase) -> Seq<Entry> {
    Seq::new(db.rows().len(), |i: int| archive_entry(db.rows()[db.rows().len() - 1 - i]))
}

/// Whether a place is one of the `count` places of the queries in memory.
pub open spec fn is_place(id: i32, count: nat) -> bool {
    0 <= id < count
}

/// How many of the queries in memory stand before the page: none without a
/// cursor; those up to and with the query at the place which the cursor
/// names; all where it names a place which memory does not have, or names
/// a row of the archive only.
pub open spec fn live_skip(live: Seq<Entry>, cursor: Option<HistoryCursor>) -> int {
    match cursor {
        None => 0,
        Some(c) => match c.id {
            Some(id) => if is_place(id, live.len()) {
                live.len() - id
            } else {
                live.len() as int
            },
            None => if c.db_id is Some {
                live.len() as int
            } else {
                0
            },
        },
    }
}

/// The lowest row which a query among these has in the archive, if one of
/// them has a row there.
pub open spec fn least_row(queries: Seq<FtlQuery>) -> Option<i64>
    decreases queries.len(),
{
    if queries.len() == 0 {
        None
    } else if queries.last().is_archived() {
        lower(Some(queries.last().database_id), least_row(queries.drop_last()))
    } else {
        least_row(queries.drop_last())
    }
}

/// The row of the archive from which on the archive adds nothing to the
/// memory: the lowest row of a query in memory. The daemon archives its
/// queries in the order of their places, so this is the row of the oldest
/// query in memory which has one.
pub open spec fn boundary(memory: &FtlMemory) -> Option<i64> {
    least_row(memory.valid_queries())
}

/// The row at which the cursor has the archive go on: the row which it
/// names, unless it names a query in memory by its place.
pub open spec fn cursor_row(live: Seq<Entry>, cursor: Option<HistoryCursor>) -> Option<i64> {
    match cursor {
        None => None,
        Some(c) => match c.id {
            Some(id) => if is_place(id, live.len()) {
                None
            } else {
                c.db_id
            },
            None => c.db_id,
        },
    }
}

/// The lower of two bounds, where none is no bound.
pub open spec fn lower(a: Option<i64>, b: Option<i64>) -> Option<i64> {
    match (a, b) {
        (Some(x), Some(y)) => if x <= y {
            Some(x)
        } else {
            Some(y)
        },
        (Some(x), None) => Some(x),
        (None, y) => y,
    }
}

/// Whether a row of the archive with the number `id` is below a bound.
pub open spec fn is_below(id: i64, bound: Option<i64>) -> bool {
    match bound {
        Some(b) => id < b,
        None => true,
    }
}

/// The entries of the archive below a bound.
pub open spec fn below(bound: Option<i64>) -> spec_fn(Entry) -> bool {
    |entry: Entry|
        match entry.cursor.db_id {
            Some(id) => is_below(id, bound),
            None => false,
        }
}

/// The rows of the archive which a page can show: those before the row of
/// every query in memory, and before the row at which the cursor has the
/// archive go on.
pub open spec fn archive_bound(memory: &FtlMemory, cursor: Option<HistoryCursor>) -> Option<i64> {
    lower(boundary(memory), cursor_row(live_entries(memory), cursor))
}

/// The history from where a cursor points: the queries in memory behind the
/// cursor, and the rows of the archive which a page can show.
pub open spec fn remaining(
    memory: &FtlMemory,
    db: &FtlDatabase,
    cursor: Option<HistoryCursor>,
) -> Seq<Entry> {
    live_entries(memory).skip(live_skip(live_entries(memory), cursor)) + archive_entries(
        db,
    ).filter(below(archive_bound(memory, cursor)))
}

/// The cursor which stands for the start of the history.
pub open spec fn start_cursor() -> HistoryCursor {
    HistoryCursor { id: None, db_id: None }
}

/// A page of the history: its queries, and the cursor behind which the next
/// page begins, if there is a next page.
pub struct Page {
    pub history: Seq<Query>,
    pub next: Option<HistoryCursor>,
}

/// The page which `limit` entries at most make of the entries that pass a
/// filter: the first `limit` of them, and the cursor of the last of these
/// where more of them are left. A page which may hold nothing, while
/// something is left, goes on where it began.
pub open spec fn page_of(
    matched: Seq<Entry>,
    limit: nat,
    cursor: Option<HistoryCursor>,
) -> Page {
    if matched.len() > limit {
        Page {
            history: matched.take(limit as int).map_values(shown_of()),
            next: Some(
                if limit == 0 {
                    match cursor {
                        Some(c) => c,
                        None => start_cursor(),
                    }
                } else {
                    matched[limit - 1].cursor
                },
            ),
        }
    } else {
        Page { history: matched.map_values(shown_of()), next: None }
    }
}

/// The page that the filters and the limit of a request make of the history
/// from where a cursor points.
pub open spec fn page_at(
    memory: &FtlMemory,
    db: &FtlDatabase,
    params: &HistoryParams,
    cursor: Option<HistoryCursor>,
) -> Page {
    page_of(remaining(memory, db, cursor).filter(passing(params)), params.wanted(), cursor)
}

/// The page that answers a request.
pub open spec fn history_page(memory: &FtlMemory, db: &FtlDatabase, params: &HistoryParams) -> Page {
    page_at(memory, db, params, params.cursor)
}

/// The reply which shows a page.
pub open spec fn reply_of(page: Page) -> History {
    History {
        history: page.history,
        cursor: match page.next {
            Some(cursor) => Some(cursor.encoded()),
            None => None,
        },
    }
}

/// The queries of a page while it is made.
struct PageBuilder {
    history: Vec<QueryReply>,
    last: Option<HistoryCursor>,
    more: bool,
    limit: usize,
}

impl PageBuilder {
    /// Whether the builder holds what a page makes of the entries `seen`:
    /// the first of those that pass, up to the limit, the cursor of the last
    /// of them, and whether one more passed.
    spec fn holds(&self, seen: Seq<Entry>, params: &HistoryParams) -> bool {
        let passed = seen.filter(passing(params));
        &&& self.limit == params.wanted()
        &&& if self.more {
            &&& passed.len() == self.limit + 1
            &&& queries_of(self.history@) == passed.take(self.limit as int).map_values(shown_of())
            &&& self.limit > 0 ==> self.last == Some(passed[self.limit - 1].cursor)
        } else {
            &&& passed.len() <= self.limit
            &&& queries_of(self.history@) == passed.map_values(shown_of())
            &&& passed.len() > 0 ==> self.last == Some(passed.last().cursor)
        }
    }

    /// Whether the page is full and a further query passed.
    spec fn is_over(&self) -> bool {
        self.more
    }

    /// A builder which has seen nothing.
    fn new(params: &HistoryParams) -> (builder: PageBuilder)
        ensures
            builder.holds(Seq::empty(), params),
            !builder.is_over(),
    {
        let limit = match params.limit {
            Some(limit) => limit,
            None => 100,
        };
        let builder = PageBuilder { history: Vec::new(), last: None, more: false, limit };
        proof {
            let passed = Seq::<Entry>::empty().filter(passing(params));
            assert(passed == Seq::<Entry>::empty());
            assert(queries_of(builder.history@) == passed.map_values(shown_of()));
        }
        builder
    }

    /// Whether the page is full and a further query passed.
    fn over(&self) -> (r: bool)
        ensures
            r == self.is_over(),
    {
        self.more
    }

    /// Show the builder an entry that does not pass the filter.
    proof fn pass_by(&self, seen: Seq<Entry>, entry: Entry, params: &HistoryParams)
        requires
            self.holds(seen, params),
            !passes(params, entry.shown, entry.upstream),
        ensures
            self.holds(seen.push(entry), params),
    {
        seen.lemma_filter_push(entry, passing(params));
    }

    /// Show the builder an entry that passes the filter.
    fn take(
        &mut self,
        reply: QueryReply,
        cursor: HistoryCursor,
        Ghost(seen): Ghost<Seq<Entry>>,
        Ghost(entry): Ghost<Entry>,
        Ghost(params): Ghost<&HistoryParams>,
    )
        requires
            old(self).holds(seen, params),
            !old(self).is_over(),
            passes(params, entry.shown, entry.upstream),
            reply@ == entry.shown,
            cursor == entry.cursor,
        ensures
            final(self).holds(seen.push(entry), params),
    {
        proof {
            seen.lemma_filter_push(entry, passing(params));
        }
        let ghost passed = seen.filter(passing(params));
        assert(queries_of(self.history@).len() == self.history@.len());
        assert(passed.map_values(shown_of()).len() == passed.len());
        if self.history.len() >= self.limit {
            self.more = true;
            proof {
                assert(passed.push(entry).take(self.limit as int) == passed);
            }
        } else {
            let ghost before = self.history@;
            self.history.push(reply);
            self.last = Some(cursor);
            proof {
                assert(queries_of(before.push(reply)) == queries_of(before).push(reply@));
                assert(passed.push(entry).map_values(shown_of()) == passed.map_values(
                    shown_of(),
                ).push(entry.shown));
            }
        }
    }

    /// The page, once the builder has seen `seen` of the entries `all`, and
    /// either all of them or one more than fit the page.
    fn finish(
        self,
        cursor: Option<HistoryCursor>,
        Ghost(seen): Ghost<Seq<Entry>>,
        Ghost(left): Ghost<Seq<Entry>>,
        Ghost(params): Ghost<&HistoryParams>,
    ) -> (r: (Vec<QueryReply>, Option<HistoryCursor>))
        requires
            self.holds(seen, params),
            self.is_over() || left.len() == 0,
        ensures
            queries_of(r.0@) == page_of(
                (seen + left).filter(passing(params)),
                params.wanted(),
                cursor,
            ).history,
            r.1 == page_of((seen + left).filter(passing(params)), params.wanted(), cursor).next,
    {
        let ghost passed = seen.filter(passing(params));
        let ghost matched = (seen + left).filter(passing(params));
        proof {
            Seq::filter_distributes_over_add(seen, left, passing(params));
            if left.len() == 0 {
                assert(left.filter(passing(params)) == Seq::<Entry>::empty());
                assert(matched == passed);
            }
            if self.more {
                assert(matched.take(self.limit as int) == passed.take(self.limit as int));
                if self.limit > 0 {
                    assert(matched[self.limit - 1] == passed[self.limit - 1]);
                }
            }
        }
        if self.more {
            let next = if self.limit == 0 {
                match cursor {
                    Some(c) => c,
                    None => HistoryCursor { id: None, db_id: None },
                }
            } else {
                match self.last {
                    Some(c) => c,
                    None => HistoryCursor { id: None, db_id: None },
                }
            };
            (self.history, Some(next))
        } else {
            (self.history, None)
        }
    }
}

/// Check if a status with this ordinal marks a query as blocked.
pub fn check_blocked_status(status: u8) -> (r: bool)
    ensures
        r == is_blocked_status(status as int),
{
    let ordinals = BLOCKED_STATUSES;
    let mut i: usize = 0;
    while i < 6
        invariant
            i <= 6,
            ordinals == BLOCKED_STATUSES,
            forall|j: int| 0 <= j < i ==> ordinals@[j] != status,
        decreases 6 - i,
    {
        if ordinals[i] == status as i32 {
            return true;
        }
        i = i + 1;
    }
    assert(ordinals@[0] == 1 && ordinals@[1] == 4 && ordinals@[2] == 5 && ordinals@[3] == 6
        && ordinals@[4] == 7 && ordinals@[5] == 8);
    false
}

/// Whether a text is the one asked for, where one is asked for.
fn text_passes(wanted: &Option<String>, text: &str) -> (r: bool)
    ensures
        r == (wanted matches Some(w) ==> text@ == w@),
{
    match wanted {
        Some(w) => text_equal(text, w.as_str()),
        None => true,
    }
}

/// Check if a query passes the filters of a request.
pub fn check_filters(
    params: &HistoryParams,
    timestamp: u64,
    query_type: u8,
    status: u8,
    domain: &str,
    client: &str,
    upstream: Option<&str>,
    dnssec: u8,
    reply: u8,
) -> (r: bool)
    ensures
        r == passes(
            params,
            Query {
                timestamp: timestamp as int,
                query_type: query_type as int,
                status: status as int,
                domain: domain@,
                client: client@,
                dnssec: dnssec as int,
                reply: reply as int,
                response_time: 0,
            },
            match upstream {
                Some(u) => Some(u@),
                None => None,
            },
        ),
{
    let time_passes = (match params.from {
        Some(from) => timestamp >= from,
        None => true,
    }) && (match params.until {
        Some(until) => timestamp < until,
        None => true,
    });
    let upstream_passes = match &params.upstream {
        Some(wanted) => match upstream {
            Some(u) => text_equal(u, wanted.as_str()),
            None => false,
        },
        None => true,
    };
    let kind_passes = (match params.query_type {
        Some(wanted) => query_type == wanted.to_number(),
        None => true,
    }) && (match params.status {
        Some(wanted) => status == wanted.to_number(),
        None => true,
    }) && (match params.blocked {
        Some(wanted) => check_blocked_status(status) == wanted,
        None => true,
    }) && (match params.dnssec {
        Some(wanted) => dnssec == wanted.to_number(),
        None => true,
    }) && (match params.reply {
        Some(wanted) => reply == wanted.to_number(),
        None => true,
    });
    time_passes && text_passes(&params.domain, domain) && text_passes(&params.client, client)
        && upstream_passes && kind_passes
}

/// The filters do not look at the response time.
pub proof fn lemma_response_time_unseen(
    params: &HistoryParams,
    shown: Query,
    other: Query,
    upstream: Option<Seq<char>>,
)
    requires
        other == (Query { response_time: other.response_time, ..shown }),
    ensures
        passes(params, shown, upstream) == passes(params, other, upstream),
{
}

/// Get the domain of a query.
fn get_domain_text<'a>(domains: &[FtlDomain], strings: &'a FtlStrings, id: i32) -> (text: &'a str)
    ensures
        text@ == (if 0 <= id < domains@.len() {
            domains@[id as int].domain(strings)
        } else {
            Seq::empty()
        }),
{
    if id >= 0 && (id as usize) < domains.len() {
        domains[id as usize].get_domain(strings)
    } else {
        proof {
            reveal_strlit("");
            assert(""@ == Seq::<char>::empty());
        }
        ""
    }
}

/// Get the client of a query.
fn get_client_text<'a>(clients: &[FtlClient], strings: &'a FtlStrings, id: i32) -> (text: &'a str)
    ensures
        text@ == (if 0 <= id < clients@.len() {
            client_label(clients@[id as int], strings)
        } else {
            Seq::empty()
        }),
{
    if id >= 0 && (id as usize) < clients.len() {
        let client = &clients[id as usize];
        match client.get_name(strings) {
            Some(name) => name,
            None => client.get_ip(strings),
        }
    } else {
        proof {
            reveal_strlit("");
            assert(""@ == Seq::<char>::empty());
        }
        ""
    }
}

/// Get the upstream of a query.
fn get_upstream_text<'a>(upstreams: &[FtlUpstream], strings: &'a FtlStrings, id: i32) -> (text:
    Option<&'a str>)
    ensures
        match text {
            Some(t) => 0 <= id < upstreams@.len() && t@ == upstreams@[id as int].ip(strings),
            None => !(0 <= id < upstreams@.len()),
        },
{
    if id >= 0 && (id as usize) < upstreams.len() {
        Some(upstreams[id as usize].get_ip(strings))
    } else {
        None
    }
}

/// Where the cursor has the queries in memory go on, and the row at which
/// it has the archive go on.
fn resume(len: usize, cursor: Option<HistoryCursor>, Ghost(memory): Ghost<&FtlMemory>) -> (r: (
    usize,
    Option<i64>,
))
    requires
        len == memory.valid_queries().len(),
    ensures
        r.0 == live_skip(live_entries(memory), cursor),
        r.1 == cursor_row(live_entries(memory), cursor),
{
    match cursor {
        None => (0, None),
        Some(c) => match c.id {
            Some(id) => {
                if id >= 0 && (id as usize) < len {
                    (len - id as usize, None)
                } else {
                    (len, c.db_id)
                }
            },
            None => match c.db_id {
                Some(row) => (len, Some(row)),
                None => (0, None),
            },
        },
    }
}

/// The lowest row of the queries is a row of one of them, and no query
/// among them has a lower row in the archive.
pub proof fn lemma_least_row(queries: Seq<FtlQuery>)
    ensures
        forall|i: int|
            0 <= i < queries.len() && (#[trigger] queries[i]).is_archived() ==> !is_below(
                queries[i].database_id,
                least_row(queries),
            ),
        least_row(queries) matches Some(row) ==> exists|i: int|
            0 <= i < queries.len() && (#[trigger] queries[i]).is_archived()
                && queries[i].database_id == row,
        least_row(queries) is None ==> forall|i: int|
            0 <= i < queries.len() ==> !(#[trigger] queries[i]).is_archived(),
    decreases queries.len(),
{
    if queries.len() > 0 {
        let rest = queries.drop_last();
        lemma_least_row(rest);
        assert forall|i: int| 0 <= i < queries.len() && (#[trigger] queries[i]).is_archived()
            implies !is_below(queries[i].database_id, least_row(queries)) by {
            if i < rest.len() {
                assert(rest[i] == queries[i]);
            }
        }
        if let Some(row) = least_row(queries) {
            if queries.last().is_archived() && queries.last().database_id == row {
                assert(queries[queries.len() - 1].database_id == row);
            } else {
                let i = choose|i: int|
                    0 <= i < rest.len() && (#[trigger] rest[i]).is_archived() && rest[i].database_id
                        == row;
                assert(queries[i] == rest[i]);
            }
        } else {
            assert forall|i: int| 0 <= i < queries.len() implies !(
            #[trigger] queries[i]).is_archived() by {
                if i < rest.len() {
                    assert(rest[i] == queries[i]);
                }
            }
        }
    }
}

/// Find the lowest row which a query in memory has in the archive.
fn lowest_row(queries: &[FtlQuery]) -> (row: Option<i64>)
    ensures
        row == least_row(queries@),
{
    let mut row: Option<i64> = None;
    let mut at: usize = 0;
    assert(queries@.take(0) == Seq::<FtlQuery>::empty());
    while at < queries.len()
        invariant
            at <= queries.len(),
            row == least_row(queries@.take(at as int)),
        decreases queries.len() - at,
    {
        proof {
            assert(queries@.take(at + 1).drop_last() == queries@.take(at as int));
            assert(queries@.take(at + 1).last() == queries@[at as int]);
        }
        if queries[at].database_id > 0 {
            row = lower_bound(Some(queries[at].database_id), row);
        }
        at = at + 1;
    }
    assert(queries@.take(at as int) == queries@);
    row
}

/// The lower of two bounds.
fn lower_bound(a: Option<i64>, b: Option<i64>) -> (r: Option<i64>)
    ensures
        r == lower(a, b),
{
    match (a, b) {
        (Some(x), Some(y)) => if x <= y {
            Some(x)
        } else {
            Some(y)
        },
        (Some(x), None) => Some(x),
        (None, y) => y,
    }
}

/// Where a page begins: how many of the queries in memory stand before it,
/// and the row before which the rows of the archive have to stand.
fn page_start(queries: &[FtlQuery], cursor: Option<HistoryCursor>, Ghost(memory): Ghost<&FtlMemory>) -> (r:
    (usize, Option<i64>))
    requires
        queries@ == memory.valid_queries(),
    ensures
        r.0 == live_skip(live_entries(memory), cursor),
        r.1 == archive_bound(memory, cursor),
{
    let (start, cursor_row) = resume(queries.len(), cursor, Ghost(memory));
    (start, lower_bound(lowest_row(queries), cursor_row))
}

/// Get the row before which the rows of the archive have to stand to be
/// part of the page at a cursor, if there is such a row.
pub fn get_archive_bound(ftl_memory: &FtlMemory, cursor: Option<HistoryCursor>) -> (bound: Option<
    i64,
>)
    ensures
        bound == archive_bound(ftl_memory, cursor),
{
    let lock = ftl_memory.lock();
    page_start(ftl_memory.queries(&lock), cursor, Ghost(ftl_memory)).1
}

/// Get the query history according to the specified parameters
pub fn get_history(ftl_memory: &FtlMemory, params: HistoryParams, db: &FtlDatabase) -> (r: Result<
    HistoryReply,
    Error,
>)
    ensures
        r matches Ok(reply) && reply@ == reply_of(history_page(ftl_memory, db, &params))
            && reply.history@.len() <= params.wanted(),
{
    let lock = ftl_memory.lock();
    let queries = ftl_memory.queries(&lock);
    let domains = ftl_memory.domains(&lock);
    let clients = ftl_memory.clients(&lock);
    let upstreams = ftl_memory.upstreams(&lock);
    let strings = ftl_memory.strings(&lock);

    let ghost live = live_entries(ftl_memory);
    let ghost archive = archive_entries(db);
    let len = queries.len();

    // If there is a cursor, skip to the referenced query
    let (start, bound) = page_start(queries, params.cursor, Ghost(ftl_memory));
    let ghost late = archive.filter(below(bound));
    let ghost rest = live.skip(start as int) + late;
    assert(rest == remaining(ftl_memory, db, params.cursor));

    // Go through the queries in memory, the newest first
    let mut page = PageBuilder::new(&params);
    let mut at: usize = start;
    assert(live.subrange(start as int, start as int) == Seq::<Entry>::empty());
    while at < len && !page.over()
        invariant
            start <= at <= len,
            len == queries.len(),
            queries@ == ftl_memory.valid_queries(),
            domains@ == ftl_memory.valid_domains(),
            clients@ == ftl_memory.valid_clients(),
            upstreams@ == ftl_memory.valid_upstreams(),
            *strings == ftl_memory.string_table(),
            live == live_entries(ftl_memory),
            page.holds(live.subrange(start as int, at as int), &params),
        decreases len - at,
    {
        let query = &queries[len - 1 - at];
        let ghost entry = live[at as int];
        let ghost seen = live.subrange(start as int, at as int);
        assert(entry == live_entry(ftl_memory, len - 1 - at));
        assert(live.subrange(start as int, at + 1) == seen.push(entry));
        let timestamp = to_time(query.timestamp);
        let query_type = query.query_type.to_number();
        let status = query.status.to_number();
        let domain = get_domain_text(domains, strings, query.domain_id);
        let client = get_client_text(clients, strings, query.client_id);
        let upstream = get_upstream_text(upstreams, strings, query.upstream_id);
        let dnssec = query.dnssec_type.to_number();
        let reply = query.reply_type.to_number();
        let passed = check_filters(
            &params,
            timestamp,
            query_type,
            status,
            domain,
            client,
            upstream,
            dnssec,
            reply,
        );
        proof {
            lemma_response_time_unseen(
                &params,
                entry.shown,
                Query { response_time: 0, ..entry.shown },
                entry.upstream,
            );
        }
        if passed {
            let shown = QueryReply {
                timestamp,
                query_type,
                status,
                domain: domain.to_owned(),
                client: client.to_owned(),
                dnssec,
                reply,
                response_time: to_response_time(query.response_time),
            };
            let cursor = HistoryCursor {
                id: Some((len - 1 - at) as i32),
                db_id: if query.database_id > 0 {
                    Some(query.database_id)
                } else {
                    None
                },
            };
            page.take(shown, cursor, Ghost(seen), Ghost(entry), Ghost(&params));
        } else {
            proof {
                page.pass_by(seen, entry, &params);
            }
        }
        at = at + 1;
    }

    // If there are not enough queries in memory, go through the archive
    let ghost from_memory = live.subrange(start as int, at as int);
    let rows = db.len();
    let mut seen_rows: usize = 0;
    proof {
        assert(archive.take(0).filter(below(bound)) == Seq::<Entry>::empty());
        assert(from_memory + Seq::<Entry>::empty() == from_memory);
    }
    while seen_rows < rows && !page.over()
        invariant
            seen_rows <= rows,
            rows == db.rows().len(),
            archive == archive_entries(db),
            at == len || (page.is_over() && seen_rows == 0),
            page.holds(from_memory + archive.take(seen_rows as int).filter(below(bound)), &params),
        decreases rows - seen_rows,
    {
        let row = db.get(rows - 1 - seen_rows);
        let ghost entry = archive[seen_rows as int];
        let ghost early = archive.take(seen_rows as int);
        let ghost seen = from_memory + early.filter(below(bound));
        proof {
            assert(entry == archive_entry(*row));
            assert(archive.take(seen_rows + 1) == early.push(entry));
            early.lemma_filter_push(entry, below(bound));
            assert(from_memory + early.filter(below(bound)).push(entry) == seen.push(entry));
        }
        let is_late = match bound {
            Some(b) => (row.id as i64) < b,
            None => true,
        };
        if is_late {
            let upstream = match &row.upstream {
                Some(u) => Some(u.as_str()),
                None => None,
            };
            let timestamp = to_time(row.timestamp as i64);
            let query_type = to_byte(row.query_type);
            let status = to_byte(row.status);
            let passed = check_filters(
                &params,
                timestamp,
                query_type,
                status,
                row.domain.as_str(),
                row.client.as_str(),
                upstream,
                5,
                0,
            );
            if passed {
                let shown = QueryReply {
                    timestamp,
                    query_type,
                    status,
                    domain: row.domain.clone(),
                    client: row.client.clone(),
                    dnssec: 5,
                    reply: 0,
                    response_time: 0,
                };
                let cursor = HistoryCursor { id: None, db_id: Some(row.id as i64) };
                page.take(shown, cursor, Ghost(seen), Ghost(entry), Ghost(&params));
            } else {
                proof {
                    page.pass_by(seen, entry, &params);
                }
            }
        }
        seen_rows = seen_rows + 1;
    }

    let ghost seen = from_memory + archive.take(seen_rows as int).filter(below(bound));
    let ghost left = if page.is_over() {
        live.skip(at as int) + archive.skip(seen_rows as int).filter(below(bound))
    } else {
        Seq::<Entry>::empty()
    };
    proof {
        let early = archive.take(seen_rows as int);
        let after = archive.skip(seen_rows as int);
        assert(archive == early + after);
        Seq::filter_distributes_over_add(early, after, below(bound));
        if page.is_over() {
            if at == len {
                assert(live.skip(at as int) == Seq::<Entry>::empty());
            } else {
                assert(seen_rows == 0);
                assert(early.filter(below(bound)) == Seq::<Entry>::empty());
            }
            assert(seen + left == rest);
        } else {
            assert(archive.take(rows as int) == archive);
            assert(live.subrange(start as int, len as int) == live.skip(start as int));
            assert(seen + left == rest);
        }
    }
    let (history, next) = page.finish(params.cursor, Ghost(seen), Ghost(left), Ghost(&params));

    // Get the next cursor
    let cursor = match next {
        Some(cursor) => match cursor.as_base64() {
            Ok(text) => Some(text),
            Err(e) => { return Err(e); },
        },
        None => None,
    };
    proof {
        let page = history_page(ftl_memory, db, &params);
        assert(queries_of(history@) == page.history);
        assert(queries_of(history@).len() == history@.len());
        assert(page.history.len() <= params.wanted());
    }
    Ok(HistoryReply { history, cursor })
}

/// What is to do for a request when the rows of the archive are loaded in
/// steps, the newest first.
#[derive(Debug, PartialEq, Eq)]
pub enum HistoryStep {
    /// The reply to the request.
    Reply(HistoryReply),
    /// The rows which were loaded do not settle the reply: load this many
    /// of the newest rows which a page can show, and ask again.
    Load(usize),
}

/// Whether a page made of the newest rows of the archive is settled: it is
/// the page which all the rows give. It is where a further query passed
/// the filters behind the page, and where fewer rows were there to load
/// than were asked for.
pub open spec fn is_settled(page: Page, loaded: nat, asked: nat) -> bool {
    page.next is Some || loaded < asked
}

/// How many rows to ask for after `asked` rows did not settle the reply:
/// twice as many, and one at the least.
pub open spec fn more_than(asked: nat) -> nat {
    if asked == 0 {
        1
    } else if 2 * asked > usize::MAX {
        usize::MAX as nat
    } else {
        2 * asked
    }
}

/// Get the query history from the newest rows of the archive, where they
/// settle it, or tell how many rows to load. `asked` is how many rows were
/// asked for; `newest` holds the rows which came.
pub fn get_history_step(
    ftl_memory: &FtlMemory,
    params: HistoryParams,
    newest: &FtlDatabase,
    asked: usize,
) -> (r: Result<HistoryStep, Error>)
    ensures
        r matches Ok(step) && match step {
            HistoryStep::Reply(reply) => reply@ == reply_of(
                history_page(ftl_memory, newest, &params),
            ) && is_settled(
                history_page(ftl_memory, newest, &params),
                newest.rows().len(),
                asked as nat,
            ),
            HistoryStep::Load(count) => !is_settled(
                history_page(ftl_memory, newest, &params),
                newest.rows().len(),
                asked as nat,
            ) && count == more_than(asked as nat),
        },
{
    let loaded = newest.len();
    let reply = match get_history(ftl_memory, params, newest) {
        Ok(reply) => reply,
        Err(e) => { return Err(e); },
    };
    if reply.cursor.is_some() || loaded < asked {
        Ok(HistoryStep::Reply(reply))
    } else if asked == 0 {
        Ok(HistoryStep::Load(1))
    } else if asked > usize::MAX / 2 {
        Ok(HistoryStep::Load(usize::MAX))
    } else {
        Ok(HistoryStep::Load(2 * asked))
    }
}

} // verus!
