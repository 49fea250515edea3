use pihole_api::databases::ftl::FtlDatabase;
use pihole_api::env::{Config, Env, PiholeFile};
use pihole_api::ftl::lock::{with_lock, FtlLock};
use pihole_api::ftl::memory::FtlMemory;
use pihole_api::ftl::memory_model::{
    Counted, FtlClient, FtlCounters, FtlDnssecType, FtlDomain, FtlOverTime, FtlQuery,
    FtlQueryReplyType, FtlQueryStatus, FtlQueryType, FtlSettings, FtlStrings, MAGIC_BYTE,
};
use pihole_api::routes::stats::history::cursor::HistoryCursor;
use pihole_api::routes::stats::history::get_history::get_archive_bound;
use pihole_api::routes::stats::order::sort_by_count;
use pihole_api::routes::stats::over_time::{
    get_over_time_history, get_summary, OverTimeItem, Summary,
};
use pihole_api::routes::stats::top_domains::{
    get_excluded_domains, get_top_domains, TopDomainItemReply, TopDomainParams, TopDomainsReply,
    HIDDEN_DOMAIN,
};
use pihole_api::settings::FtlPrivacyLevel;
use pihole_api::util::ErrorKind;

/// There are 6 domains, two without queries, one hidden, and one behind the total.
fn test_data() -> FtlMemory {
    let mut strings = FtlStrings::new();
    strings.insert(1, "example.com".to_owned());
    strings.insert(2, "example.net".to_owned());
    strings.insert(3, "github.com".to_owned());
    strings.insert(4, "hidden".to_owned());
    strings.insert(5, "idle.com".to_owned());
    strings.insert(6, "spare.com".to_owned());

    FtlMemory::new(
        vec![FtlClient::new(1, 0, 1, None); 3],
        vec![
            FtlDomain::new(10, 10, 1),
            FtlDomain::new(20, 0, 2),
            FtlDomain::new(40, 5, 3),
            FtlDomain::new(30, 30, 4),
            FtlDomain::new(0, 0, 5),
            FtlDomain::new(99, 99, 6),
        ],
        vec![
            FtlOverTime { magic: MAGIC_BYTE, timestamp: 600, total_queries: 7, blocked_queries: 2 },
            FtlOverTime { magic: MAGIC_BYTE, timestamp: 1200, total_queries: 3, blocked_queries: 0 },
            FtlOverTime { magic: MAGIC_BYTE, timestamp: -1, total_queries: -1, blocked_queries: -1 },
            FtlOverTime { magic: MAGIC_BYTE, timestamp: 9, total_queries: 9, blocked_queries: 9 },
        ],
        strings,
        Vec::new(),
        Vec::new(),
        FtlCounters {
            total_queries: 100,
            blocked_queries: 45,
            total_clients: 3,
            total_domains: 5,
            total_upstreams: 2,
            over_time_slots: 3,
        },
        FtlSettings::default(),
    )
}

fn env(setup_vars: &str, ftl_config: &str) -> Env {
    Env::test(Config::default())
        .file(PiholeFile::SetupVars, setup_vars)
        .file(PiholeFile::FtlConfig, ftl_config)
}

fn item(domain: &str, count: usize) -> TopDomainItemReply {
    TopDomainItemReply { domain: domain.to_owned(), count }
}

fn params(
    limit: Option<usize>,
    inactive: Option<bool>,
    ascending: Option<bool>,
    blocked: Option<bool>,
) -> TopDomainParams {
    TopDomainParams { limit, inactive, ascending, blocked }
}

/// The default behavior lists all active domains in descending order
#[test]
fn top_domains_default() {
    assert_eq!(
        get_top_domains(&test_data(), &env("", ""), TopDomainParams::default()).unwrap(),
        TopDomainsReply {
            top_domains: vec![
                item("github.com", 40),
                item("example.net", 20),
                item("example.com", 10)
            ],
            total_queries: Some(100),
            blocked_queries: None,
        }
    );
}

/// The blocked domains, the limit, the order and the inactive domains
#[test]
fn top_domains_params() {
    let top = |params: TopDomainParams| get_top_domains(&test_data(), &env("", ""), params).unwrap();
    assert_eq!(
        top(params(None, None, None, Some(true))),
        TopDomainsReply {
            top_domains: vec![item("example.com", 10), item("github.com", 5)],
            total_queries: None,
            blocked_queries: Some(45),
        }
    );
    assert_eq!(
        top(params(Some(1), None, None, None)).top_domains,
        vec![item("github.com", 40)]
    );
    assert_eq!(
        top(params(None, None, Some(true), None)).top_domains,
        vec![item("example.com", 10), item("example.net", 20), item("github.com", 40)]
    );
    assert_eq!(
        top(params(None, Some(true), None, None)).top_domains,
        vec![
            item("github.com", 40),
            item("example.net", 20),
            item("example.com", 10),
            item("idle.com", 0)
        ]
    );
    assert_eq!(HIDDEN_DOMAIN, "hidden");
}

/// Excluded domains are not shown
#[test]
fn top_domains_excluded() {
    let env = env("API_EXCLUDE_DOMAINS=github.com,,idle.com", "");
    assert_eq!(get_excluded_domains(&env), vec!["github.com".to_owned(), "idle.com".to_owned()]);
    assert_eq!(
        get_top_domains(&test_data(), &env, params(None, Some(true), None, None))
            .unwrap()
            .top_domains,
        vec![item("example.net", 20), item("example.com", 10)]
    );
}

/// The privacy levels from 1 on do not show any domains
#[test]
fn top_domains_privacy() {
    for (level, hidden) in [("0", false), ("1", true), ("2", true), ("3", true)] {
        let reply = get_top_domains(
            &test_data(),
            &env("", &format!("PRIVACYLEVEL={}", level)),
            params(None, None, None, Some(true)),
        )
        .unwrap();
        assert_eq!(reply.top_domains.is_empty(), hidden);
        assert_eq!(reply.total_queries, None);
        assert_eq!(reply.blocked_queries, Some(45));
    }
    assert_eq!(
        get_top_domains(&test_data(), &env("", "PRIVACYLEVEL=-1"), TopDomainParams::default())
            .unwrap_err()
            .kind(),
        ErrorKind::InvalidSettingValue
    );
}

/// The counted intervals, with nothing below zero
#[test]
fn over_time() {
    assert_eq!(
        get_over_time_history(&test_data(), &env("", "")).unwrap(),
        vec![
            OverTimeItem { timestamp: 600, total_queries: 7, blocked_queries: 2 },
            OverTimeItem { timestamp: 1200, total_queries: 3, blocked_queries: 0 },
            OverTimeItem { timestamp: 0, total_queries: 0, blocked_queries: 0 },
        ]
    );
    assert_eq!(
        get_over_time_history(&test_data(), &env("", "PRIVACYLEVEL=2")).unwrap().len(),
        3
    );
    assert_eq!(get_over_time_history(&test_data(), &env("", "PRIVACYLEVEL=3")).unwrap(), vec![]);
    assert_eq!(
        get_over_time_history(&test_data(), &env("", "PRIVACYLEVEL=4")).unwrap_err().kind(),
        ErrorKind::InvalidSettingValue
    );
}

/// The totals of the daemon
#[test]
fn summary() {
    let shown = Summary {
        total_queries: 100,
        blocked_queries: 45,
        total_clients: Some(3),
        total_domains: 5,
        total_upstreams: 2,
    };
    assert_eq!(get_summary(&test_data(), &env("", "")).unwrap(), shown);
    assert_eq!(get_summary(&test_data(), &env("", "PRIVACYLEVEL=1")).unwrap(), shown);
    assert_eq!(
        get_summary(&test_data(), &env("", "PRIVACYLEVEL=2")).unwrap(),
        Summary { total_clients: None, ..shown }
    );
    assert_eq!(
        get_summary(&test_data(), &env("", "PRIVACYLEVEL=x")).unwrap_err().kind(),
        ErrorKind::InvalidSettingValue
    );
}

/// The counts of the records
#[test]
fn counts() {
    let client = FtlClient::new(3, 1, 0, None);
    assert_eq!(client.count(false), 3);
    assert_eq!(client.count(true), 1);
    let domain = FtlDomain::new(4, 2, 0);
    assert_eq!(domain.count(false), 4);
    assert_eq!(domain.count(true), 2);
    let mut domains = vec![FtlDomain::new(1, 9, 1), FtlDomain::new(2, 8, 2), FtlDomain::new(2, 7, 3)];
    sort_by_count(&mut domains, false, false);
    assert_eq!(
        domains.iter().map(|domain| domain.domain_str_id).collect::<Vec<_>>(),
        vec![2, 3, 1]
    );
    let mut none: Vec<FtlDomain> = Vec::new();
    sort_by_count(&mut none, false, false);
    assert_eq!(none, vec![]);
}

/// A reading under the lock gives the lock back
#[test]
fn scoped_lock() {
    let mut lock = FtlLock::new();
    assert_eq!(with_lock(&mut lock, |_guard| 5), Some(5));
    assert_eq!(lock, FtlLock::new());

    lock.ftl_waiting_for_lock = true;
    assert_eq!(with_lock(&mut lock, |_guard| 5), None);
    assert_eq!(lock, FtlLock { held: false, ftl_waiting_for_lock: true });

    let mut held = FtlLock { held: true, ftl_waiting_for_lock: false };
    assert_eq!(with_lock(&mut held, |_guard| 5), None);
    assert!(held.held);
}

fn query(id: i32, database_id: i64) -> FtlQuery {
    FtlQuery {
        magic: MAGIC_BYTE,
        query_type: FtlQueryType::A,
        status: FtlQueryStatus::Forward,
        privacy_level: FtlPrivacyLevel::ShowAll,
        reply_type: FtlQueryReplyType::IP,
        dnssec_type: FtlDnssecType::Unspecified,
        timestamp: 100 + id as i64,
        domain_id: 0,
        client_id: 0,
        upstream_id: 0,
        id,
        response_time: 1,
        database_id,
        time_index: 0,
        is_complete: true,
    }
}

fn memory_of(queries: Vec<FtlQuery>) -> FtlMemory {
    let total_queries = queries.len() as i32;
    FtlMemory::new(
        Vec::new(),
        Vec::new(),
        Vec::new(),
        FtlStrings::new(),
        Vec::new(),
        queries,
        FtlCounters { total_queries, ..FtlCounters::default() },
        FtlSettings::default(),
    )
}

/// The row before which the rows of the archive have to stand
#[test]
fn archive_bound() {
    let cursor = |id: Option<i32>, db_id: Option<i64>| Some(HistoryCursor { id, db_id });
    let archived = memory_of(vec![query(0, 40), query(1, 41), query(2, 0)]);
    assert_eq!(get_archive_bound(&archived, None), Some(40));
    assert_eq!(get_archive_bound(&archived, cursor(Some(1), Some(41))), Some(40));
    assert_eq!(get_archive_bound(&archived, cursor(None, Some(30))), Some(30));
    assert_eq!(get_archive_bound(&archived, cursor(None, Some(50))), Some(40));
    assert_eq!(get_archive_bound(&archived, cursor(Some(9), Some(30))), Some(30));
    assert_eq!(get_archive_bound(&archived, cursor(Some(9), None)), Some(40));

    let fresh = memory_of(vec![query(0, 0), query(1, 0)]);
    assert_eq!(get_archive_bound(&fresh, None), None);
    assert_eq!(get_archive_bound(&fresh, cursor(None, Some(7))), Some(7));
    assert_eq!(get_archive_bound(&fresh, cursor(Some(0), Some(7))), None);
    assert_eq!(get_archive_bound(&memory_of(Vec::new()), None), None);
    assert_eq!(FtlDatabase::new().len(), 0);
}
