//! What holds of the pages of the history: to follow the cursors from page
//! to page shows every query that passes the filters, once, in the order of
//! the history.

use crate::databases::ftl::FtlDatabase;
use crate::ftl::memory::FtlMemory;
use crate::routes::stats::history::cursor::HistoryCursor;
use crate::routes::stats::history::endpoints::{HistoryParams, Query};
use crate::routes::stats::history::get_history::{
    archive_bound, archive_entries, archive_entry, below, boundary, cursor_row, history_page,
    is_below, is_place, is_settled, lemma_least_row, live_entries, live_entry, live_skip, lower,
    page_at, passes, passing, remaining, shown_of, Entry,
};
use crate::sequences::{
    first_passing, lemma_filter_is_rest, lemma_filter_keeps_order, lemma_filter_same,
    lemma_first_passing_is, lemma_keeps_all, lemma_nth_passing, nth_passing,
};
use vstd::prelude::*;

verus! {

/// The places of the queries in memory are numbers which a cursor holds:
/// the daemon counts its queries in an `i32`.
pub proof fn lemma_places_fit(memory: &FtlMemory)
    ensures
        memory.valid_queries().len() <= i32::MAX,
{
}

/// The whole history: the queries in memory and, behind them, the rows of
/// the archive before the row of every query in memory.
pub open spec fn whole_history(memory: &FtlMemory, db: &FtlDatabase) -> Seq<Entry> {
    remaining(memory, db, None)
}

/// The queries of the pages which come of following the cursors, from the
/// page at `cursor` on, through `further` more pages at most.
pub open spec fn pages_from(
    memory: &FtlMemory,
    db: &FtlDatabase,
    params: &HistoryParams,
    cursor: Option<HistoryCursor>,
    further: nat,
) -> Seq<Query>
    decreases further,
{
    let page = page_at(memory, db, params, cursor);
    match page.next {
        Some(next) => if further > 0 {
            page.history + pages_from(memory, db, params, Some(next), (further - 1) as nat)
        } else {
            page.history
        },
        None => page.history,
    }
}

/// Whether the pages which come of following the cursors end within
/// `further` more pages.
pub open spec fn pages_end(
    memory: &FtlMemory,
    db: &FtlDatabase,
    params: &HistoryParams,
    cursor: Option<HistoryCursor>,
    further: nat,
) -> bool
    decreases further,
{
    match page_at(memory, db, params, cursor).next {
        Some(next) => further > 0 && pages_end(
            memory,
            db,
            params,
            Some(next),
            (further - 1) as nat,
        ),
        None => true,
    }
}

/// Whether a request asks for what another asks for, from a cursor of its
/// own: the two have the same filters and the same limit.
pub open spec fn asks_the_same(request: &HistoryParams, other: &HistoryParams) -> bool {
    &&& request.from == other.from
    &&& request.until == other.until
    &&& request.domain == other.domain
    &&& request.client == other.client
    &&& request.upstream == other.upstream
    &&& request.query_type == other.query_type
    &&& request.status == other.status
    &&& request.blocked == other.blocked
    &&& request.dnssec == other.dnssec
    &&& request.reply == other.reply
    &&& request.limit == other.limit
}

/// A request made again from another cursor.
pub open spec fn request_at(params: &HistoryParams, cursor: Option<HistoryCursor>) -> HistoryParams {
    HistoryParams { cursor, ..*params }
}

/// The page at a cursor is the page which answers the request when it is
/// made again from that cursor.
pub proof fn lemma_page_answers_request(
    memory: &FtlMemory,
    db: &FtlDatabase,
    params: &HistoryParams,
    cursor: Option<HistoryCursor>,
)
    ensures
        history_page(memory, db, &request_at(params, cursor)) == page_at(memory, db, params, cursor),
{
    lemma_request_at_cursor(memory, db, params, &request_at(params, cursor));
}

/// The page that answers a request is the page at the cursor of the
/// request: the pages which come of following the cursors are the pages
/// that answer the first request when it is made again with the cursor of
/// each reply.
pub proof fn lemma_request_at_cursor(
    memory: &FtlMemory,
    db: &FtlDatabase,
    params: &HistoryParams,
    request: &HistoryParams,
)
    requires
        asks_the_same(request, params),
    ensures
        history_page(memory, db, request) == page_at(memory, db, params, request.cursor),
{
    let rest = remaining(memory, db, request.cursor);
    assert forall|i: int| 0 <= i < rest.len() implies passing(request)(#[trigger] rest[i])
        == passing(params)(rest[i]) by {
        assert(passes(request, rest[i].shown, rest[i].upstream) == passes(
            params,
            rest[i].shown,
            rest[i].upstream,
        ));
    }
    lemma_filter_same(rest, passing(request), passing(params));
}

/// The rows of a well-formed archive stand in the history with falling numbers.
pub proof fn lemma_archive_falls(db: &FtlDatabase)
    requires
        db.well_formed(),
    ensures
        forall|i: int|
            0 <= i < archive_entries(db).len() ==> (#[trigger] archive_entries(db)[i]).cursor.id
                is None && archive_entries(db)[i].cursor.db_id is Some,
        forall|i: int, j: int|
            0 <= i < j < archive_entries(db).len() ==> archive_entries(db)[i].cursor.db_id->0
                > archive_entries(db)[j].cursor.db_id->0,
{
    let archive = archive_entries(db);
    let rows = db.rows();
    assert forall|i: int, j: int| 0 <= i < j < archive.len() implies archive[i].cursor.db_id->0
        > archive[j].cursor.db_id->0 by {
        assert(rows[rows.len() - 1 - j].id < rows[rows.len() - 1 - i].id);
    }
}

/// Of the rows of a well-formed archive, those below a bound are the rows
/// from the first of them on.
pub proof fn lemma_below_is_rest(db: &FtlDatabase, bound: Option<i64>)
    requires
        db.well_formed(),
    ensures
        archive_entries(db).filter(below(bound)) == archive_entries(db).skip(
            first_passing(archive_entries(db), below(bound)),
        ),
        0 <= first_passing(archive_entries(db), below(bound)) <= archive_entries(db).len(),
{
    let archive = archive_entries(db);
    let pass = below(bound);
    let from = first_passing(archive, pass);
    lemma_first_passing_is(archive, pass);
    lemma_archive_falls(db);
    assert forall|j: int| from <= j < archive.len() implies pass(#[trigger] archive[j]) by {
        assert(pass(archive[from]));
        if from < j {
            assert(archive[from].cursor.db_id->0 > archive[j].cursor.db_id->0);
        }
    }
    lemma_filter_is_rest(archive, pass, from);
}

/// The history goes on behind an entry where the cursor of the entry points:
/// what is left of the whole history from the cursor of its entry at an
/// index is the whole history behind that index.
pub proof fn lemma_cursor_resumes(memory: &FtlMemory, db: &FtlDatabase, at: int)
    requires
        db.well_formed(),
        0 <= at < whole_history(memory, db).len(),
    ensures
        remaining(memory, db, Some(whole_history(memory, db)[at].cursor)) == whole_history(
            memory,
            db,
        ).skip(at + 1),
{
    let live = live_entries(memory);
    let archive = archive_entries(db);
    let queries = memory.valid_queries();
    let whole = whole_history(memory, db);
    let edge = boundary(memory);
    let late = archive.filter(below(edge));
    assert(live.skip(0) == live);
    assert(whole == live + late);
    let cursor = whole[at].cursor;
    if at < live.len() {
        lemma_places_fit(memory);
        let id = (queries.len() - 1 - at) as i32;
        assert(cursor.id == Some(id));
        assert(is_place(id, live.len()));
        assert(live_skip(live, Some(cursor)) == at + 1);
        assert(cursor_row(live, Some(cursor)) is None);
        assert(archive_bound(memory, Some(cursor)) == edge);
        assert(live.skip(at + 1) + late == whole.skip(at + 1));
    } else {
        let k = at - live.len();
        lemma_below_is_rest(db, edge);
        lemma_archive_falls(db);
        let from = first_passing(archive, below(edge));
        assert(late == archive.skip(from));
        let entry = archive[from + k];
        assert(whole[at] == late[k]);
        assert(late[k] == entry);
        let row = entry.cursor.db_id->0;
        assert(cursor == HistoryCursor { id: None, db_id: Some(row) });
        assert(live_skip(live, Some(cursor)) == live.len());
        assert(cursor_row(live, Some(cursor)) == Some(row));
        lemma_first_passing_is(archive, below(edge));
        assert(below(edge)(archive[from]));
        assert(below(edge)(entry)) by {
            if k > 0 {
                assert(archive[from].cursor.db_id->0 > entry.cursor.db_id->0);
            }
        }
        assert(is_below(row, edge));
        let bound = archive_bound(memory, Some(cursor));
        assert(bound == lower(edge, Some(row)));
        assert(bound == Some(row));
        assert forall|j: int| 0 <= j < from + k + 1 implies !below(bound)(#[trigger] archive[j]) by {
            if j < from + k {
                assert(archive[j].cursor.db_id->0 > archive[from + k].cursor.db_id->0);
            }
        }
        assert forall|j: int| from + k + 1 <= j < archive.len() implies below(bound)(
            #[trigger] archive[j],
        ) by {
            assert(archive[from + k].cursor.db_id->0 > archive[j].cursor.db_id->0);
        }
        lemma_filter_is_rest(archive, below(bound), from + k + 1);
        assert(live.skip(live.len() as int) == Seq::<Entry>::empty());
        assert(archive.skip(from + k + 1) == late.skip(k + 1));
        assert(Seq::<Entry>::empty() + late.skip(k + 1) == whole.skip(at + 1));
    }
}

/// To follow the cursors from the history behind an index shows what passes
/// the filters of the history behind that index.
pub proof fn lemma_pages_go_on(
    memory: &FtlMemory,
    db: &FtlDatabase,
    params: &HistoryParams,
    cursor: Option<HistoryCursor>,
    from: int,
    further: nat,
)
    requires
        db.well_formed(),
        params.wanted() >= 1,
        0 <= from <= whole_history(memory, db).len(),
        remaining(memory, db, cursor) == whole_history(memory, db).skip(from),
        further >= whole_history(memory, db).len() - from,
    ensures
        pages_from(memory, db, params, cursor, further) == whole_history(memory, db).skip(
            from,
        ).filter(passing(params)).map_values(shown_of()),
        pages_end(memory, db, params, cursor, further),
    decreases further,
{
    let whole = whole_history(memory, db);
    let rest = whole.skip(from);
    let pass = passing(params);
    let matched = rest.filter(pass);
    let limit = params.wanted();
    let page = page_at(memory, db, params, cursor);
    if matched.len() > limit {
        let n = (limit - 1) as nat;
        lemma_nth_passing(rest, pass, n);
        let at = nth_passing(rest, pass, n);
        assert(rest[at] == whole[from + at]);
        assert(page.next == Some(whole[from + at].cursor));
        lemma_cursor_resumes(memory, db, from + at);
        assert(rest.skip(at + 1) == whole.skip(from + at + 1));
        lemma_pages_go_on(
            memory,
            db,
            params,
            page.next,
            from + at + 1,
            (further - 1) as nat,
        );
        let early = matched.take(limit as int);
        let late = matched.skip(limit as int);
        assert(matched == early + late);
        assert(matched.map_values(shown_of()) == early.map_values(shown_of()) + late.map_values(
            shown_of(),
        ));
    }
}

/// Pagination is complete. For every snapshot and every archive, the pages
/// which come of following the cursors from the first page on, under the
/// same filters and with a limit of one or more, end; together they show
/// the queries of the whole history that pass the filters, each once and in
/// the order of the history. A query which stands in memory and in the
/// archive is part of the whole history once, as the query in memory.
pub proof fn lemma_pages_are_complete(
    memory: &FtlMemory,
    db: &FtlDatabase,
    params: &HistoryParams,
    further: nat,
)
    requires
        db.well_formed(),
        params.wanted() >= 1,
        further >= whole_history(memory, db).len(),
    ensures
        pages_from(memory, db, params, None, further) == whole_history(memory, db).filter(
            passing(params),
        ).map_values(shown_of()),
        pages_end(memory, db, params, None, further),
{
    let whole = whole_history(memory, db);
    assert(whole.skip(0) == whole);
    lemma_pages_go_on(memory, db, params, None, 0, further);
}

/// All the pages which come of following the cursors from the first page
/// on. There are never more pages than the whole history has queries.
pub open spec fn all_pages(memory: &FtlMemory, db: &FtlDatabase, params: &HistoryParams) -> Seq<
    Query,
> {
    pages_from(memory, db, params, None, whole_history(memory, db).len())
}

/// Pagination is complete, whatever the snapshot and the archive hold. The
/// pages of a request with a limit of one or more, followed from the first
/// page by the cursor of each reply, end, and together they show exactly
/// the queries of the whole history which pass the filters, in its order.
pub proof fn lemma_pagination_is_complete(
    memory: &FtlMemory,
    db: &FtlDatabase,
    params: &HistoryParams,
)
    requires
        db.well_formed(),
        params.wanted() >= 1,
    ensures
        all_pages(memory, db, params) == whole_history(memory, db).filter(
            passing(params),
        ).map_values(shown_of()),
        pages_end(memory, db, params, None, whole_history(memory, db).len()),
{
    lemma_pages_are_complete(memory, db, params, whole_history(memory, db).len());
}

/// A page holds no more queries than the limit allows.
pub proof fn lemma_page_is_within_limit(
    memory: &FtlMemory,
    db: &FtlDatabase,
    params: &HistoryParams,
    cursor: Option<HistoryCursor>,
)
    ensures
        page_at(memory, db, params, cursor).history.len() <= params.wanted(),
{
}

/// No query stands twice in the whole history: its entries have different
/// cursors. A row of the archive in it is the row of no query in memory: a
/// query which memory and archive both hold is shown as the query in memory
/// and not as the row.
pub proof fn lemma_history_has_no_duplicates(memory: &FtlMemory, db: &FtlDatabase, i: int, j: int)
    requires
        db.well_formed(),
        0 <= i < j < whole_history(memory, db).len(),
    ensures
        whole_history(memory, db)[i].cursor != whole_history(memory, db)[j].cursor,
        j >= live_entries(memory).len() ==> whole_history(memory, db)[j].cursor.db_id is Some
            && is_below(whole_history(memory, db)[j].cursor.db_id->0, boundary(memory)),
        j >= live_entries(memory).len() ==> forall|k: int|
            0 <= k < memory.valid_queries().len() && (
            #[trigger] memory.valid_queries()[k]).is_archived()
                ==> memory.valid_queries()[k].database_id != whole_history(
                memory,
                db,
            )[j].cursor.db_id->0,
{
    let live = live_entries(memory);
    let archive = archive_entries(db);
    let queries = memory.valid_queries();
    let whole = whole_history(memory, db);
    let edge = boundary(memory);
    let late = archive.filter(below(edge));
    assert(live.skip(0) == live);
    assert(whole == live + late);
    lemma_below_is_rest(db, edge);
    lemma_archive_falls(db);
    lemma_places_fit(memory);
    lemma_least_row(queries);
    let from = first_passing(archive, below(edge));
    lemma_first_passing_is(archive, below(edge));
    if j < live.len() {
        assert(whole[i].cursor.id == Some((queries.len() - 1 - i) as i32));
        assert(whole[j].cursor.id == Some((queries.len() - 1 - j) as i32));
    } else {
        assert(whole[j] == archive[from + (j - live.len())]);
        assert(below(edge)(archive[from]));
        if j > live.len() {
            assert(archive[from].cursor.db_id->0 > whole[j].cursor.db_id->0);
        }
        assert(is_below(whole[j].cursor.db_id->0, edge));
        if i >= live.len() {
            assert(whole[i] == archive[from + (i - live.len())]);
        }
    }
}

/// Nothing is missing from the whole history. Every query in memory is
/// part of it, and every row of the archive below the rows of the queries
/// in memory. A row which is not part of it has a number which is not
/// below the row of some query in memory: the daemon holds the queries
/// from that one on in memory, where they are shown.
pub proof fn lemma_history_is_whole(memory: &FtlMemory, db: &FtlDatabase)
    ensures
        forall|place: int|
            0 <= place < memory.valid_queries().len() ==> whole_history(memory, db).contains(
                #[trigger] live_entry(memory, place),
            ),
        forall|r: int|
            0 <= r < db.rows().len() && is_below((#[trigger] db.rows()[r]).id as i64, boundary(memory))
                ==> whole_history(memory, db).contains(archive_entry(db.rows()[r])),
        forall|r: int|
            0 <= r < db.rows().len() && !is_below(
                (#[trigger] db.rows()[r]).id as i64,
                boundary(memory),
            ) ==> exists|place: int|
                0 <= place < memory.valid_queries().len() && (
                #[trigger] memory.valid_queries()[place]).is_archived()
                    && memory.valid_queries()[place].database_id <= db.rows()[r].id,
{
    let live = live_entries(memory);
    let archive = archive_entries(db);
    let queries = memory.valid_queries();
    let rows = db.rows();
    let whole = whole_history(memory, db);
    let edge = boundary(memory);
    let late = archive.filter(below(edge));
    assert(live.skip(0) == live);
    assert(whole == live + late);
    lemma_least_row(queries);
    assert forall|place: int| 0 <= place < queries.len() implies whole.contains(
        #[trigger] live_entry(memory, place),
    ) by {
        let at = queries.len() - 1 - place;
        assert(whole[at] == live[at]);
        assert(live[at] == live_entry(memory, place));
    }
    assert forall|r: int|
        0 <= r < rows.len() && is_below((#[trigger] rows[r]).id as i64, edge) implies whole.contains(
        archive_entry(rows[r]),
    ) by {
        let at = rows.len() - 1 - r;
        assert(archive[at] == archive_entry(rows[r]));
        assert(below(edge)(archive[at]));
        archive.lemma_filter_contains(below(edge), at);
        let found = choose|i: int| 0 <= i < late.len() && late[i] == archive[at];
        assert(whole[live.len() + found] == late[found]);
    }
}

/// Whether the times of the queries in memory rise with their places.
pub open spec fn times_rise(memory: &FtlMemory) -> bool {
    forall|i: int, j: int|
        0 <= i <= j < memory.valid_queries().len() ==> memory.valid_queries()[i].timestamp
            <= memory.valid_queries()[j].timestamp
}

/// Whether the times of the rows of the archive rise with the rows, and
/// none is later than the oldest query in memory.
pub open spec fn archive_is_older(memory: &FtlMemory, db: &FtlDatabase) -> bool {
    &&& forall|i: int, j: int|
        0 <= i <= j < db.rows().len() ==> (#[trigger] db.rows()[i]).timestamp <= (
        #[trigger] db.rows()[j]).timestamp
    &&& forall|i: int|
        0 <= i < db.rows().len() && memory.valid_queries().len() > 0 ==> (
        #[trigger] db.rows()[i]).timestamp <= memory.valid_queries()[0].timestamp
}

/// The history is ordered. Where the times of the daemon rise with the
/// places in memory and with the rows of the archive, and the archive is
/// older than the memory, the whole history shows the newest query first;
/// of two queries of the same time, the one which stands behind has the
/// lower place, or the lower row.
pub proof fn lemma_history_is_ordered(memory: &FtlMemory, db: &FtlDatabase, i: int, j: int)
    requires
        db.well_formed(),
        times_rise(memory),
        archive_is_older(memory, db),
        0 <= i < j < whole_history(memory, db).len(),
    ensures
        whole_history(memory, db)[i].shown.timestamp >= whole_history(
            memory,
            db,
        )[j].shown.timestamp,
        j < live_entries(memory).len() ==> whole_history(memory, db)[i].cursor.id->0
            > whole_history(memory, db)[j].cursor.id->0,
        i >= live_entries(memory).len() ==> whole_history(memory, db)[i].cursor.db_id->0
            > whole_history(memory, db)[j].cursor.db_id->0,
{
    let live = live_entries(memory);
    let archive = archive_entries(db);
    let queries = memory.valid_queries();
    let rows = db.rows();
    let whole = whole_history(memory, db);
    let edge = boundary(memory);
    let late = archive.filter(below(edge));
    assert(live.skip(0) == live);
    assert(whole == live + late);
    lemma_below_is_rest(db, edge);
    lemma_archive_falls(db);
    let from = first_passing(archive, below(edge));
    lemma_places_fit(memory);
    if j < live.len() {
        assert(whole[i].cursor.id == Some((queries.len() - 1 - i) as i32));
        assert(whole[j].cursor.id == Some((queries.len() - 1 - j) as i32));
        assert(queries[queries.len() - 1 - j].timestamp <= queries[queries.len() - 1 - i].timestamp);
    } else if i < live.len() {
        let k = from + (j - live.len());
        assert(whole[j] == archive[k]);
        let row = rows[rows.len() - 1 - k];
        assert(row.timestamp <= queries[0].timestamp);
        assert(queries[0].timestamp <= queries[queries.len() - 1 - i].timestamp);
    } else {
        let a = from + (i - live.len());
        let b = from + (j - live.len());
        assert(whole[i] == archive[a]);
        assert(whole[j] == archive[b]);
        assert(rows[rows.len() - 1 - b].timestamp <= rows[rows.len() - 1 - a].timestamp);
    }
}

/// The pages are ordered. Under the same conditions, the queries which the
/// pages show together, from the first page on, stand with the newest
/// first: none is newer than one before it.
pub proof fn lemma_pages_are_ordered(
    memory: &FtlMemory,
    db: &FtlDatabase,
    params: &HistoryParams,
    further: nat,
    i: int,
    j: int,
)
    requires
        db.well_formed(),
        times_rise(memory),
        archive_is_older(memory, db),
        params.wanted() >= 1,
        further >= whole_history(memory, db).len(),
        0 <= i < j < pages_from(memory, db, params, None, further).len(),
    ensures
        pages_from(memory, db, params, None, further)[i].timestamp >= pages_from(
            memory,
            db,
            params,
            None,
            further,
        )[j].timestamp,
{
    let whole = whole_history(memory, db);
    let passed = whole.filter(passing(params));
    lemma_pages_are_complete(memory, db, params, further);
    assert(pages_from(memory, db, params, None, further) == passed.map_values(shown_of()));
    lemma_filter_keeps_order(whole, passing(params), i, j);
    let (a, b) = choose|a: int, b: int|
        0 <= a < b < whole.len() && whole[a] == passed[i] && whole[b] == passed[j];
    lemma_history_is_ordered(memory, db, a, b);
}

/// Whether an archive holds the newest rows of another which a page at a
/// cursor can show: its rows, the newest first, are the first `asked` of
/// those of the other below the bound of the page, or all of them where
/// there are fewer.
pub open spec fn holds_newest(
    newest: &FtlDatabase,
    db: &FtlDatabase,
    memory: &FtlMemory,
    cursor: Option<HistoryCursor>,
    asked: nat,
) -> bool {
    let shown = archive_entries(db).filter(below(archive_bound(memory, cursor)));
    archive_entries(newest) == if asked < shown.len() {
        shown.take(asked as int)
    } else {
        shown
    }
}

/// The newest rows suffice. A page which is made of the newest rows of the
/// archive below the bound of the page, and which is settled, is the page
/// which the whole archive gives: to load the archive in steps changes no
/// reply.
pub proof fn lemma_newest_rows_suffice(
    memory: &FtlMemory,
    db: &FtlDatabase,
    newest: &FtlDatabase,
    params: &HistoryParams,
    cursor: Option<HistoryCursor>,
    asked: nat,
)
    requires
        holds_newest(newest, db, memory, cursor, asked),
        is_settled(page_at(memory, newest, params, cursor), newest.rows().len(), asked),
    ensures
        page_at(memory, newest, params, cursor) == page_at(memory, db, params, cursor),
{
    let bound = archive_bound(memory, cursor);
    let pass = passing(params);
    let live = live_entries(memory).skip(live_skip(live_entries(memory), cursor));
    let shown = archive_entries(db).filter(below(bound));
    let part = archive_entries(newest);
    assert forall|i: int| 0 <= i < part.len() implies below(bound)(#[trigger] part[i]) by {
        assert(part[i] == shown[i]);
        archive_entries(db).lemma_filter_pred(below(bound), i);
    }
    lemma_keeps_all(part, below(bound));
    assert(remaining(memory, newest, cursor) == live + part);
    assert(remaining(memory, db, cursor) == live + shown);
    if asked < shown.len() {
        let rest = shown.skip(asked as int);
        assert(shown == part + rest);
        assert(live + shown == (live + part) + rest);
        Seq::filter_distributes_over_add(live + part, rest, pass);
        let matched = (live + part).filter(pass);
        let limit = params.wanted();
        assert(part.len() == newest.rows().len());
        assert(matched.len() > limit);
        let all = matched + rest.filter(pass);
        assert(all.take(limit as int) == matched.take(limit as int));
    }
}

/// A page does not depend on the spare room of the tables: two snapshots
/// which agree in what the daemon has counted give the same page. No record
/// at or after the total of its table is read.
pub proof fn lemma_spare_room_unread(
    memory: &FtlMemory,
    other: &FtlMemory,
    db: &FtlDatabase,
    params: &HistoryParams,
    cursor: Option<HistoryCursor>,
)
    requires
        memory.shows_the_same(other),
    ensures
        live_entries(memory) == live_entries(other),
        page_at(memory, db, params, cursor) == page_at(other, db, params, cursor),
{
    assert(live_entries(memory) =~= live_entries(other));
}

} // verus!
