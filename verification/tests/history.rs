use pihole_api::databases::ftl::{FtlDatabase, FtlDbQuery};
use pihole_api::ftl::memory::FtlMemory;
use pihole_api::ftl::memory_model::{
    FtlClient, FtlCounters, FtlDnssecType, FtlDomain, FtlQuery, FtlQueryReplyType,
    FtlQueryStatus, FtlQueryType, FtlSettings, FtlStrings, FtlUpstream, MAGIC_BYTE,
};
use pihole_api::routes::stats::history::cursor::{CursorText, HistoryCursor};
use pihole_api::routes::stats::history::endpoints::{HistoryParams, HistoryReply, QueryReply};
use pihole_api::routes::stats::history::get_history::{
    check_blocked_status, check_filters, get_archive_bound, get_history, get_history_step,
    HistoryStep,
};
use pihole_api::settings::FtlPrivacyLevel;
use pihole_api::util::ErrorKind;

fn cursor(id: Option<i32>, db_id: Option<i64>) -> HistoryCursor {
    HistoryCursor { id, db_id }
}

/// The cursors which the tests go through
fn cursors() -> Vec<HistoryCursor> {
    let ids = [None, Some(0), Some(1), Some(-1), Some(9), Some(10), Some(i32::MAX), Some(i32::MIN)];
    let db_ids = [
        None,
        Some(0),
        Some(7),
        Some(-7),
        Some(1_000_000_007),
        Some(i64::MAX),
        Some(i64::MIN),
        Some(i64::MIN + 1),
    ];
    let mut cursors = Vec::new();
    for id in ids {
        for db_id in db_ids {
            cursors.push(cursor(id, db_id));
        }
    }
    cursors
}

/// A cursor is read back from its text
#[test]
fn cursor_round_trip() {
    for cursor in cursors() {
        let text = cursor.as_base64().unwrap();
        assert_eq!(HistoryCursor::from_text(&text), CursorText::Cursor(cursor));
        assert_eq!(HistoryCursor::from_own_json(&cursor.to_json()), Some(cursor));
    }
}

/// The JSON of a cursor
#[test]
fn cursor_json() {
    assert_eq!(cursor(Some(1), Some(2)).to_json(), b"{\"id\":1,\"db_id\":2}".to_vec());
    assert_eq!(cursor(None, None).to_json(), b"{\"id\":null,\"db_id\":null}".to_vec());
    assert_eq!(
        cursor(Some(-2147483648), Some(-9223372036854775808)).to_json(),
        b"{\"id\":-2147483648,\"db_id\":-9223372036854775808}".to_vec()
    );
    assert_eq!(cursor(Some(0), Some(10)).to_json(), b"{\"id\":0,\"db_id\":10}".to_vec());
}

/// The text of a cursor is the Base64 of its JSON
#[test]
fn cursor_text() {
    assert_eq!(cursor(Some(1), Some(2)).as_base64().unwrap(), "eyJpZCI6MSwiZGJfaWQiOjJ9");
    assert_eq!(
        cursor(None, None).as_base64().unwrap(),
        base64::encode("{\"id\":null,\"db_id\":null}")
    );
    assert_eq!(
        HistoryCursor::from_text("eyJpZCI6MSwiZGJfaWQiOjJ9"),
        CursorText::Cursor(cursor(Some(1), Some(2)))
    );
}

/// The JSON of a cursor is what `serde_json` makes of the same object
#[test]
fn cursor_json_is_json() {
    for cursor in cursors() {
        let mut object = serde_json::Map::new();
        object.insert(
            "id".to_owned(),
            match cursor.id {
                Some(id) => serde_json::Value::from(id),
                None => serde_json::Value::Null,
            },
        );
        object.insert(
            "db_id".to_owned(),
            match cursor.db_id {
                Some(id) => serde_json::Value::from(id),
                None => serde_json::Value::Null,
            },
        );
        let parsed: serde_json::Value = serde_json::from_slice(&cursor.to_json()).unwrap();
        assert_eq!(parsed, serde_json::Value::Object(object));
    }
}

/// What is no Base64 is malformed
#[test]
fn cursor_malformed() {
    assert_eq!(HistoryCursor::from_text(""), CursorText::Other(Vec::new()));
    assert_eq!(HistoryCursor::from_text("not base64!"), CursorText::Malformed);
    assert_eq!(HistoryCursor::from_text("eyJpZCI6MSwiZGJfaWQiOjJ"), CursorText::Malformed);
    assert_eq!(HistoryCursor::from_text("eyJpZCI6MSwiZGJfaWQiOjJ9 "), CursorText::Malformed);
}

/// The Base64 of bytes which the library did not write gives the bytes back,
/// for a JSON reader to judge
#[test]
fn cursor_in_another_spelling() {
    let other = |json: &str| {
        assert_eq!(
            HistoryCursor::from_text(&base64::encode(json)),
            CursorText::Other(json.as_bytes().to_vec())
        );
        assert_eq!(HistoryCursor::from_own_json(json.as_bytes()), None);
    };
    // Spellings of a cursor which a JSON reader takes
    other("{}");
    other("{\"id\":1}");
    other("{\"db_id\":2,\"id\":1}");
    other("{\"id\": 1,\"db_id\":2}");
    other("{\"id\":1,\"db_id\":2} ");
    other(" {\"id\":null , \"db_id\":null}");
    // Bytes which spell none
    other("{\"id\":1,\"db_id\":2");
    other("{\"id\":1,\"db_id\":2}}");
    other("{\"id\":01,\"db_id\":2}");
    other("{\"id\":-0,\"db_id\":2}");
    other("{\"id\":+1,\"db_id\":2}");
    other("{\"id\":-,\"db_id\":2}");
    other("{\"id\":,\"db_id\":2}");
    other("{\"id\":1,\"db_id\":}");
    other("{\"id\":1.0,\"db_id\":2}");
    other("{\"id\":nul,\"db_id\":2}");
    other("{\"id\":2147483648,\"db_id\":2}");
    other("{\"id\":-2147483649,\"db_id\":2}");
    other("{\"id\":1,\"db_id\":9223372036854775808}");
    other("{\"id\":1,\"db_id\":-9223372036854775809}");
    other("{\"id\":1,\"db_id\":99999999999999999999999999999}");
    other("{\"id\":");
    other("{\"id\":}");
    assert_eq!(
        HistoryCursor::from_text(&base64::encode([0xffu8, 0xfe])),
        CursorText::Other(vec![0xff, 0xfe])
    );
}

fn query(id: i32, timestamp: i64, database_id: i64) -> FtlQuery {
    FtlQuery {
        magic: MAGIC_BYTE,
        query_type: FtlQueryType::A,
        status: FtlQueryStatus::Forward,
        privacy_level: FtlPrivacyLevel::ShowAll,
        reply_type: FtlQueryReplyType::IP,
        dnssec_type: FtlDnssecType::Unspecified,
        timestamp,
        domain_id: id % 2,
        client_id: id % 2,
        upstream_id: 0,
        id,
        response_time: 2500,
        database_id,
        time_index: 0,
        is_complete: true,
    }
}

fn row(id: i32, timestamp: i32) -> FtlDbQuery {
    FtlDbQuery {
        id,
        timestamp,
        query_type: 1,
        status: 2,
        domain: if id % 2 == 0 { "even.com".to_owned() } else { "odd.com".to_owned() },
        client: "10.1.1.9".to_owned(),
        upstream: Some("8.8.8.8".to_owned()),
    }
}

/// Five queries in memory, of which the two oldest are archived as the rows
/// 4 and 5, behind one spare record; and the rows 1 to 5 in the archive.
fn test_memory() -> FtlMemory {
    let mut strings = FtlStrings::new();
    strings.insert(1, "even.com".to_owned());
    strings.insert(2, "odd.com".to_owned());
    strings.insert(3, "10.1.1.1".to_owned());
    strings.insert(4, "10.1.1.2".to_owned());
    strings.insert(5, "laptop".to_owned());
    strings.insert(6, "8.8.8.8".to_owned());
    let mut queries = vec![
        query(0, 100, 4),
        query(1, 101, 5),
        query(2, 102, 0),
        query(3, 102, 0),
        query(4, 104, 0),
        query(5, 999, 0),
    ];
    queries[2].status = FtlQueryStatus::Gravity;
    queries[2].upstream_id = -1;
    queries[3].query_type = FtlQueryType::AAAA;
    queries[3].dnssec_type = FtlDnssecType::Secure;
    queries[3].reply_type = FtlQueryReplyType::CNAME;
    queries[4].response_time = 5_000_000_000;
    FtlMemory::new(
        vec![FtlClient::new(3, 1, 3, None), FtlClient::new(2, 0, 4, Some(5))],
        vec![FtlDomain::new(3, 1, 1), FtlDomain::new(2, 0, 2)],
        Vec::new(),
        strings,
        vec![FtlUpstream::new(4, 0, 6, None)],
        queries,
        FtlCounters {
            total_queries: 5,
            blocked_queries: 1,
            total_clients: 2,
            total_domains: 2,
            total_upstreams: 1,
            over_time_slots: 0,
        },
        FtlSettings::default(),
    )
}

fn test_db() -> FtlDatabase {
    let mut db = FtlDatabase::new();
    for id in 1..=5 {
        db.insert(row(id, 90 + id)).unwrap();
    }
    db
}

fn shown(
    timestamp: u64,
    query_type: u8,
    status: u8,
    domain: &str,
    client: &str,
    dnssec: u8,
    reply: u8,
    response_time: u32,
) -> QueryReply {
    QueryReply {
        timestamp,
        query_type,
        status,
        domain: domain.to_owned(),
        client: client.to_owned(),
        dnssec,
        reply,
        response_time,
    }
}

/// The whole history of the test data: the five queries in memory, the
/// newest first, and the rows 3, 2 and 1 of the archive
fn whole_history() -> Vec<QueryReply> {
    vec![
        shown(104, 1, 2, "even.com", "10.1.1.1", 0, 4, u32::MAX),
        shown(102, 2, 2, "odd.com", "laptop", 1, 3, 2500),
        shown(102, 1, 1, "even.com", "10.1.1.1", 0, 4, 2500),
        shown(101, 1, 2, "odd.com", "laptop", 0, 4, 2500),
        shown(100, 1, 2, "even.com", "10.1.1.1", 0, 4, 2500),
        shown(93, 1, 2, "odd.com", "10.1.1.9", 5, 0, 0),
        shown(92, 1, 2, "even.com", "10.1.1.9", 5, 0, 0),
        shown(91, 1, 2, "odd.com", "10.1.1.9", 5, 0, 0),
    ]
}

fn params() -> HistoryParams {
    HistoryParams::default()
}

/// Follow the cursors from the first page to the last
fn all_pages(memory: &FtlMemory, db: &FtlDatabase, make: &dyn Fn() -> HistoryParams) -> (Vec<QueryReply>, usize) {
    let mut history = Vec::new();
    let mut pages = 0;
    let mut cursor = None;
    loop {
        let reply = get_history(memory, HistoryParams { cursor, ..make() }, db).unwrap();
        pages += 1;
        history.extend(reply.history);
        match reply.cursor {
            Some(text) => match HistoryCursor::from_text(&text) {
                CursorText::Cursor(next) => cursor = Some(next),
                other => panic!("the text of a cursor was read as {:?}", other),
            },
            None => return (history, pages),
        }
        assert!(pages < 100);
    }
}

/// The defaults of the parameters
#[test]
fn default_history_params() {
    let params = HistoryParams::default();
    assert_eq!(params.limit, Some(100));
    assert_eq!(params.cursor, None);
    assert_eq!(params.from, None);
    assert_eq!(params.until, None);
    assert_eq!(params.domain, None);
    assert_eq!(params.client, None);
    assert_eq!(params.upstream, None);
    assert_eq!(params.query_type, None);
    assert_eq!(params.status, None);
    assert_eq!(params.blocked, None);
    assert_eq!(params.dnssec, None);
    assert_eq!(params.reply, None);
}

/// Without filters the whole history is shown, the newest query first, and a
/// query which memory and archive both hold is shown once
#[test]
fn history_whole() {
    let reply = get_history(&test_memory(), params(), &test_db()).unwrap();
    assert_eq!(reply, HistoryReply { history: whole_history(), cursor: None });
}

/// The pages of every limit make up the whole history
#[test]
fn history_pages_are_complete() {
    for limit in 1..=9 {
        let (history, pages) = all_pages(&test_memory(), &test_db(), &|| HistoryParams {
            limit: Some(limit),
            ..params()
        });
        assert_eq!(history, whole_history());
        assert_eq!(pages, (8 + limit - 1) / limit);
    }
}

/// The pages of a filtered history make up the filtered history
#[test]
fn filtered_pages_are_complete() {
    let odd: Vec<QueryReply> =
        whole_history().into_iter().filter(|query| query.domain == "odd.com").collect();
    assert_eq!(odd.len(), 4);
    for limit in 1..=5 {
        let (history, _) = all_pages(&test_memory(), &test_db(), &|| HistoryParams {
            limit: Some(limit),
            domain: Some("odd.com".to_owned()),
            ..params()
        });
        assert_eq!(history, odd);
    }
}

/// The cursor of a page names the last query of the page
#[test]
fn history_cursors() {
    let page = |cursor: Option<HistoryCursor>, limit: usize| {
        get_history(
            &test_memory(),
            HistoryParams { cursor, limit: Some(limit), ..params() },
            &test_db(),
        )
        .unwrap()
    };
    let text = |id: Option<i32>, db_id: Option<i64>| Some(cursor(id, db_id).as_base64().unwrap());

    let first = page(None, 3);
    assert_eq!(first.history, whole_history()[0..3]);
    assert_eq!(first.cursor, text(Some(2), None));

    // The boundary: the last query in memory, which is archived as row 4
    let second = page(Some(cursor(Some(2), None)), 2);
    assert_eq!(second.history, whole_history()[3..5]);
    assert_eq!(second.cursor, text(Some(0), Some(4)));

    let third = page(Some(cursor(Some(0), Some(4))), 2);
    assert_eq!(third.history, whole_history()[5..7]);
    assert_eq!(third.cursor, text(None, Some(2)));

    let last = page(Some(cursor(None, Some(2))), 2);
    assert_eq!(last.history, whole_history()[7..8]);
    assert_eq!(last.cursor, None);

    // A page which ends with the history has no cursor
    assert_eq!(page(None, 8).cursor, None);
    assert_eq!(page(None, 7).cursor, text(None, Some(2)));

    // A page without room goes on where it began
    let none = page(Some(cursor(Some(2), None)), 0);
    assert_eq!(none.history, vec![]);
    assert_eq!(none.cursor, text(Some(2), None));
    assert_eq!(page(None, 0).cursor, text(None, None));
    assert_eq!(page(Some(cursor(None, None)), 3), first);
    assert_eq!(page(Some(cursor(None, Some(1))), 0).cursor, None);
}

/// A cursor which names no query in memory goes on in the archive
#[test]
fn history_stale_cursor() {
    let page = |id: Option<i32>, db_id: Option<i64>| {
        get_history(
            &test_memory(),
            HistoryParams { cursor: Some(cursor(id, db_id)), ..params() },
            &test_db(),
        )
        .unwrap()
        .history
    };
    assert_eq!(page(Some(77), None), whole_history()[5..8]);
    assert_eq!(page(Some(77), Some(3)), whole_history()[6..8]);
    // The record behind the total of queries is not in the history
    assert_eq!(page(Some(5), None), whole_history()[5..8]);
    // The archive adds nothing from the row of the oldest query in memory on
    assert_eq!(page(None, Some(100)), whole_history()[5..8]);
    assert_eq!(page(None, Some(1)), vec![]);
}

/// The filters of the history
#[test]
fn history_filters() {
    let filtered = |params: HistoryParams| {
        get_history(&test_memory(), params, &test_db()).unwrap().history
    };
    let whole = whole_history();
    let pick = |indexes: &[usize]| -> Vec<QueryReply> {
        indexes
            .iter()
            .map(|index| {
                let query = &whole[*index];
                shown(
                    query.timestamp,
                    query.query_type,
                    query.status,
                    &query.domain,
                    &query.client,
                    query.dnssec,
                    query.reply,
                    query.response_time,
                )
            })
            .collect()
    };
    // The time range holds its start and not its end
    assert_eq!(
        filtered(HistoryParams { from: Some(93), until: Some(102), ..params() }),
        pick(&[3, 4, 5])
    );
    assert_eq!(filtered(HistoryParams { from: Some(104), ..params() }), pick(&[0]));
    assert_eq!(filtered(HistoryParams { until: Some(92), ..params() }), pick(&[7]));
    assert_eq!(
        filtered(HistoryParams { domain: Some("even.com".to_owned()), ..params() }),
        pick(&[0, 2, 4, 6])
    );
    assert_eq!(
        filtered(HistoryParams { client: Some("laptop".to_owned()), ..params() }),
        pick(&[1, 3])
    );
    assert_eq!(
        filtered(HistoryParams { client: Some("10.1.1.9".to_owned()), ..params() }),
        pick(&[5, 6, 7])
    );
    assert_eq!(
        filtered(HistoryParams { client: Some("10.1.1.2".to_owned()), ..params() }),
        pick(&[])
    );
    // The blocked query has no upstream
    assert_eq!(
        filtered(HistoryParams { upstream: Some("8.8.8.8".to_owned()), ..params() }),
        pick(&[0, 1, 3, 4, 5, 6, 7])
    );
    assert_eq!(
        filtered(HistoryParams { query_type: Some(FtlQueryType::AAAA), ..params() }),
        pick(&[1])
    );
    assert_eq!(
        filtered(HistoryParams { status: Some(FtlQueryStatus::Gravity), ..params() }),
        pick(&[2])
    );
    assert_eq!(filtered(HistoryParams { blocked: Some(true), ..params() }), pick(&[2]));
    assert_eq!(
        filtered(HistoryParams { blocked: Some(false), ..params() }),
        pick(&[0, 1, 3, 4, 5, 6, 7])
    );
    assert_eq!(
        filtered(HistoryParams { dnssec: Some(FtlDnssecType::Secure), ..params() }),
        pick(&[1])
    );
    // The archive shows its rows with an unknown DNSSEC state and kind of answer
    assert_eq!(
        filtered(HistoryParams { dnssec: Some(FtlDnssecType::Unknown), ..params() }),
        pick(&[5, 6, 7])
    );
    assert_eq!(
        filtered(HistoryParams { reply: Some(FtlQueryReplyType::CNAME), ..params() }),
        pick(&[1])
    );
    assert_eq!(
        filtered(HistoryParams { reply: Some(FtlQueryReplyType::Unknown), ..params() }),
        pick(&[5, 6, 7])
    );
    // All filters have to hold
    assert_eq!(
        filtered(HistoryParams {
            domain: Some("even.com".to_owned()),
            blocked: Some(false),
            from: Some(92),
            ..params()
        }),
        pick(&[0, 4, 6])
    );
}

/// An empty memory shows the archive, an empty archive the memory
#[test]
fn history_of_one_source() {
    let empty = FtlMemory::new(
        Vec::new(),
        Vec::new(),
        Vec::new(),
        FtlStrings::new(),
        Vec::new(),
        Vec::new(),
        FtlCounters::default(),
        FtlSettings::default(),
    );
    let reply = get_history(&empty, params(), &test_db()).unwrap();
    assert_eq!(reply.history.len(), 5);
    assert_eq!(reply.history[0].timestamp, 95);
    assert_eq!(reply.cursor, None);

    let reply = get_history(&test_memory(), params(), &FtlDatabase::new()).unwrap();
    assert_eq!(reply.history, whole_history()[0..5]);
    assert_eq!(get_history(&empty, params(), &FtlDatabase::new()).unwrap().history, vec![]);
}

/// The archive takes its rows in rising order
#[test]
fn archive_rows_rise() {
    let mut db = test_db();
    assert_eq!(db.len(), 5);
    assert_eq!(db.insert(row(5, 200)).unwrap_err().kind(), ErrorKind::FtlDatabase);
    assert_eq!(db.insert(row(3, 200)).unwrap_err().kind(), ErrorKind::FtlDatabase);
    assert_eq!(db.len(), 5);
    db.insert(row(9, 200)).unwrap();
    assert_eq!(db.len(), 6);
    assert_eq!(db.get(5), &row(9, 200));
    assert_eq!(db.get(0), &row(1, 91));
}

/// An archived query as the history shows it
#[test]
fn archived_query_reply() {
    assert_eq!(
        QueryReply::from(row(2, 92)),
        shown(92, 1, 2, "even.com", "10.1.1.9", 5, 0, 0)
    );
    let odd = FtlDbQuery {
        id: 1,
        timestamp: -1,
        query_type: 257,
        status: -2,
        domain: String::new(),
        client: String::new(),
        upstream: None,
    };
    assert_eq!(QueryReply::from(odd), shown(0, 255, 0, "", "", 5, 0, 0));
}

/// The filters on their own
#[test]
fn filter_checks() {
    let none = params();
    assert!(check_filters(&none, 0, 0, 0, "", "", None, 0, 0));
    let some = HistoryParams {
        from: Some(10),
        until: Some(20),
        domain: Some("a".to_owned()),
        client: Some("b".to_owned()),
        upstream: Some("c".to_owned()),
        query_type: Some(FtlQueryType::A),
        status: Some(FtlQueryStatus::Gravity),
        blocked: Some(true),
        dnssec: Some(FtlDnssecType::Secure),
        reply: Some(FtlQueryReplyType::IP),
        ..params()
    };
    assert!(check_filters(&some, 10, 1, 1, "a", "b", Some("c"), 1, 4));
    assert!(check_filters(&some, 19, 1, 1, "a", "b", Some("c"), 1, 4));
    assert!(!check_filters(&some, 9, 1, 1, "a", "b", Some("c"), 1, 4));
    assert!(!check_filters(&some, 20, 1, 1, "a", "b", Some("c"), 1, 4));
    assert!(!check_filters(&some, 10, 2, 1, "a", "b", Some("c"), 1, 4));
    assert!(!check_filters(&some, 10, 1, 4, "a", "b", Some("c"), 1, 4));
    assert!(!check_filters(&some, 10, 1, 1, "x", "b", Some("c"), 1, 4));
    assert!(!check_filters(&some, 10, 1, 1, "a", "x", Some("c"), 1, 4));
    assert!(!check_filters(&some, 10, 1, 1, "a", "b", Some("x"), 1, 4));
    assert!(!check_filters(&some, 10, 1, 1, "a", "b", None, 1, 4));
    assert!(!check_filters(&some, 10, 1, 1, "a", "b", Some("c"), 0, 4));
    assert!(!check_filters(&some, 10, 1, 1, "a", "b", Some("c"), 1, 3));
    for status in 0..=255u8 {
        assert_eq!(check_blocked_status(status), [1, 4, 5, 6, 7, 8].contains(&status));
    }
}

/// A snapshot with these queries, all of them counted
fn memory_of(queries: Vec<FtlQuery>) -> FtlMemory {
    let mut strings = FtlStrings::new();
    strings.insert(1, "even.com".to_owned());
    strings.insert(2, "odd.com".to_owned());
    strings.insert(3, "10.1.1.1".to_owned());
    strings.insert(4, "10.1.1.2".to_owned());
    strings.insert(6, "8.8.8.8".to_owned());
    let total = queries.len() as i32;
    FtlMemory::new(
        vec![FtlClient::new(3, 1, 3, None), FtlClient::new(2, 0, 4, None)],
        vec![FtlDomain::new(3, 1, 1), FtlDomain::new(2, 0, 2)],
        Vec::new(),
        strings,
        vec![FtlUpstream::new(4, 0, 6, None)],
        queries,
        FtlCounters {
            total_queries: total,
            blocked_queries: 0,
            total_clients: 2,
            total_domains: 2,
            total_upstreams: 1,
            over_time_slots: 0,
        },
        FtlSettings::default(),
    )
}

/// A query in memory is named by the place where it stands, whatever the
/// record says of its place: the pages are complete all the same
#[test]
fn places_name_the_queries() {
    let mut queries = Vec::new();
    for place in 0..7 {
        // Every record claims the same place
        queries.push(query(3, 100 + place, 0));
    }
    let memory = memory_of(queries);
    let db = FtlDatabase::new();
    let first = get_history(&memory, HistoryParams { limit: Some(2), ..params() }, &db).unwrap();
    assert_eq!(
        first.cursor,
        Some(HistoryCursor { id: Some(5), db_id: None }.as_base64().unwrap())
    );
    for limit in 1..9 {
        let (history, pages) =
            all_pages(&memory, &db, &|| HistoryParams { limit: Some(limit), ..params() });
        let times: Vec<u64> = history.iter().map(|query| query.timestamp).collect();
        assert_eq!(times, vec![106, 105, 104, 103, 102, 101, 100]);
        assert_eq!(pages, (7 + limit - 1) / limit);
    }
}

/// The archive adds the rows below the row of every query in memory, so no
/// row is shown which a query in memory has
#[test]
fn no_row_of_a_live_query_is_shown() {
    // The oldest query has the row 10, a newer one the row 5
    let memory = memory_of(vec![query(0, 100, 10), query(1, 101, 5), query(2, 102, 0)]);
    let mut db = FtlDatabase::new();
    for (id, time) in [(3, 93), (5, 95), (7, 97), (10, 99)] {
        db.insert(row(id, time)).unwrap();
    }
    assert_eq!(get_archive_bound(&memory, None), Some(5));
    for limit in 1..6 {
        let (history, _) =
            all_pages(&memory, &db, &|| HistoryParams { limit: Some(limit), ..params() });
        let times: Vec<u64> = history.iter().map(|query| query.timestamp).collect();
        assert_eq!(times, vec![102, 101, 100, 93]);
    }
    // Without a row in memory the whole archive is part of the history
    let memory = memory_of(vec![query(0, 100, 0), query(1, 101, 0)]);
    assert_eq!(get_archive_bound(&memory, None), None);
    let (history, _) = all_pages(&memory, &db, &|| HistoryParams { limit: Some(2), ..params() });
    let times: Vec<u64> = history.iter().map(|query| query.timestamp).collect();
    assert_eq!(times, vec![101, 100, 99, 97, 95, 93]);
}

/// No page is longer than the limit, and a limit of nothing gives nothing
#[test]
fn pages_keep_the_limit() {
    let memory = test_memory();
    let db = test_db();
    for limit in 0..10 {
        let reply =
            get_history(&memory, HistoryParams { limit: Some(limit), ..params() }, &db).unwrap();
        assert_eq!(reply.history.len(), limit.min(8));
        assert_eq!(reply.cursor.is_some(), limit < 8);
    }
}

/// The numbers of an archived row are cut to what the reply holds, as those
/// of a query in memory are
#[test]
fn archived_numbers_are_cut() {
    let memory = memory_of(Vec::new());
    let mut db = FtlDatabase::new();
    db.insert(FtlDbQuery {
        id: 1,
        timestamp: -5,
        query_type: 256,
        status: -1,
        domain: "a".to_owned(),
        client: "b".to_owned(),
        upstream: None,
    })
    .unwrap();
    db.insert(FtlDbQuery {
        id: 2,
        timestamp: i32::MAX,
        query_type: 255,
        status: 0,
        domain: "c".to_owned(),
        client: "d".to_owned(),
        upstream: None,
    })
    .unwrap();
    let reply = get_history(&memory, params(), &db).unwrap();
    assert_eq!(
        reply.history,
        vec![shown(i32::MAX as u64, 255, 0, "c", "d", 5, 0, 0), shown(0, 255, 0, "a", "b", 5, 0, 0)]
    );
    // The filters see the numbers as they are shown
    let blocked = HistoryParams { until: Some(1), ..params() };
    assert_eq!(get_history(&memory, blocked, &db).unwrap().history.len(), 1);
    // A row out of turn is refused, and the archive stays as it is
    assert_eq!(db.insert(row(2, 1)).unwrap_err().kind(), ErrorKind::FtlDatabase);
    assert_eq!(db.len(), 2);
}

/// The newest `count` rows below a bound, as an archive
fn newest_rows(rows: &[FtlDbQuery], bound: Option<i64>, count: usize) -> FtlDatabase {
    let below: Vec<&FtlDbQuery> =
        rows.iter().filter(|row| bound.map_or(true, |bound| (row.id as i64) < bound)).collect();
    let mut db = FtlDatabase::new();
    for found in &below[below.len().saturating_sub(count)..] {
        db.insert(row(found.id, found.timestamp)).unwrap();
    }
    db
}

/// To load the archive in steps changes no reply
#[test]
fn history_in_steps() {
    let memory = test_memory();
    let rows: Vec<FtlDbQuery> = (1..=60).map(|id| row(id, id)).collect();
    let mut db = FtlDatabase::new();
    for found in &rows {
        db.insert(row(found.id, found.timestamp)).unwrap();
    }
    let requests: Vec<Box<dyn Fn() -> HistoryParams>> = vec![
        Box::new(|| HistoryParams { limit: Some(3), ..params() }),
        Box::new(|| HistoryParams { limit: Some(0), ..params() }),
        Box::new(|| HistoryParams { limit: Some(3), until: Some(20), ..params() }),
        Box::new(|| HistoryParams { limit: Some(3), until: Some(3), ..params() }),
        Box::new(|| HistoryParams { limit: Some(2), domain: Some("odd.com".to_owned()), ..params() }),
        Box::new(|| HistoryParams { limit: Some(5), domain: Some("none.com".to_owned()), ..params() }),
        Box::new(|| HistoryParams {
            limit: Some(4),
            cursor: Some(HistoryCursor { id: None, db_id: Some(30) }),
            from: Some(10),
            ..params()
        }),
    ];
    for request in &requests {
        let whole = get_history(&memory, request(), &db).unwrap();
        let bound = get_archive_bound(&memory, request().cursor);
        let mut asked = 1;
        let mut steps = 0;
        let reply = loop {
            let newest = newest_rows(&rows, bound, asked);
            match get_history_step(&memory, request(), &newest, asked).unwrap() {
                HistoryStep::Reply(reply) => break reply,
                HistoryStep::Load(count) => {
                    assert_eq!(count, 2 * asked);
                    asked = count;
                }
            }
            steps += 1;
            assert!(steps < 10);
        };
        assert_eq!(reply, whole);
    }
    // Nothing asked for settles nothing: one row is asked for
    assert_eq!(
        get_history_step(&memory, HistoryParams { limit: Some(9), ..params() }, &FtlDatabase::new(), 0),
        Ok(HistoryStep::Load(1))
    );
    assert_eq!(
        get_history_step(
            &memory,
            HistoryParams { limit: Some(9), ..params() },
            &newest_rows(&rows, None, 60),
            usize::MAX / 2 + 1
        )
        .map(|step| matches!(step, HistoryStep::Reply(_))),
        Ok(true)
    );
}
