use pihole_api::env::{Config, Env, PiholeFile};
use pihole_api::ftl::memory::FtlMemory;
use pihole_api::ftl::memory_model::{FtlClient, FtlCounters, FtlSettings, FtlStrings};
use pihole_api::routes::stats::common::{get_excluded_clients, HIDDEN_CLIENT};
use pihole_api::routes::stats::order::sort_by_count;
use pihole_api::routes::stats::top_clients::{
    check_privacy_level_top_clients, get_top_clients, TopClientItemReply, TopClientParams,
    TopClientsReply,
};
use pihole_api::util::ErrorKind;

fn test_strings() -> FtlStrings {
    let mut strings = FtlStrings::new();
    strings.insert(1, "10.1.1.1".to_owned());
    strings.insert(2, "client1".to_owned());
    strings.insert(3, "10.1.1.2".to_owned());
    strings.insert(4, "10.1.1.3".to_owned());
    strings.insert(5, "client3".to_owned());
    strings.insert(6, "10.1.1.4".to_owned());
    strings.insert(7, "10.1.1.5".to_owned());
    strings.insert(8, "0.0.0.0".to_owned());
    strings
}

fn test_clients() -> Vec<FtlClient> {
    vec![
        FtlClient::new(30, 10, 1, Some(2)),
        FtlClient::new(20, 5, 3, None),
        FtlClient::new(10, 0, 4, Some(5)),
        FtlClient::new(40, 0, 6, None),
        FtlClient::new(0, 0, 7, None),
        FtlClient::new(0, 0, 8, None),
    ]
}

/// There are 6 clients, two inactive, one hidden, and two with names.
fn test_data() -> FtlMemory {
    FtlMemory::new(
        test_clients(),
        Vec::new(),
        Vec::new(),
        test_strings(),
        Vec::new(),
        Vec::new(),
        FtlCounters {
            total_queries: 100,
            blocked_queries: 15,
            total_clients: 6,
            ..FtlCounters::default()
        },
        FtlSettings::default(),
    )
}

fn item(name: &str, ip: &str, count: usize) -> TopClientItemReply {
    TopClientItemReply { name: name.to_owned(), ip: ip.to_owned(), count }
}

fn env(setup_vars: Option<&str>, ftl_config: &str) -> Env {
    let env = Env::test(Config::default());
    let env = match setup_vars {
        Some(content) => env.file(PiholeFile::SetupVars, content),
        None => env,
    };
    env.file(PiholeFile::FtlConfig, ftl_config)
}

fn params(
    limit: Option<usize>,
    inactive: Option<bool>,
    ascending: Option<bool>,
    blocked: Option<bool>,
) -> TopClientParams {
    TopClientParams { limit, inactive, ascending, blocked }
}

/// The default behavior lists all active clients in descending order
#[test]
fn default_params() {
    let reply =
        get_top_clients(&test_data(), &env(Some(""), ""), TopClientParams::default()).unwrap();
    assert_eq!(
        reply,
        TopClientsReply {
            top_clients: vec![
                item("", "10.1.1.4", 40),
                item("client1", "10.1.1.1", 30),
                item("", "10.1.1.2", 20),
                item("client3", "10.1.1.3", 10),
            ],
            total_queries: Some(100),
            blocked_queries: None,
        }
    );
}

/// Show only active blocked clients (active in terms of blocked query
/// count)
#[test]
fn blocked_clients() {
    let reply = get_top_clients(
        &test_data(),
        &env(Some(""), ""),
        params(None, None, None, Some(true)),
    )
    .unwrap();
    assert_eq!(
        reply,
        TopClientsReply {
            top_clients: vec![item("client1", "10.1.1.1", 10), item("", "10.1.1.2", 5)],
            total_queries: None,
            blocked_queries: Some(15),
        }
    );
}

/// The number of clients shown is <= the limit
#[test]
fn limit() {
    let reply =
        get_top_clients(&test_data(), &env(Some(""), ""), params(Some(2), None, None, None))
            .unwrap();
    assert_eq!(
        reply,
        TopClientsReply {
            top_clients: vec![item("", "10.1.1.4", 40), item("client1", "10.1.1.1", 30)],
            total_queries: Some(100),
            blocked_queries: None,
        }
    );
}

/// Same as the default behavior but in ascending order
#[test]
fn ascending() {
    let reply = get_top_clients(
        &test_data(),
        &env(Some(""), ""),
        params(None, None, Some(true), None),
    )
    .unwrap();
    assert_eq!(
        reply,
        TopClientsReply {
            top_clients: vec![
                item("client3", "10.1.1.3", 10),
                item("", "10.1.1.2", 20),
                item("client1", "10.1.1.1", 30),
                item("", "10.1.1.4", 40),
            ],
            total_queries: Some(100),
            blocked_queries: None,
        }
    );
}

/// Privacy level 2 does not show any clients
#[test]
fn privacy() {
    let reply =
        get_top_clients(&test_data(), &env(None, "PRIVACYLEVEL=2"), TopClientParams::default())
            .unwrap();
    assert_eq!(
        reply,
        TopClientsReply { top_clients: vec![], total_queries: Some(100), blocked_queries: None }
    );
}

/// Privacy level 2 does not show any clients, and has a
/// `"blocked_queries`" key instead of a `"total_queries"` key
#[test]
fn privacy_blocked() {
    let reply = get_top_clients(
        &test_data(),
        &env(None, "PRIVACYLEVEL=2"),
        params(None, None, None, Some(true)),
    )
    .unwrap();
    assert_eq!(
        reply,
        TopClientsReply { top_clients: vec![], total_queries: None, blocked_queries: Some(15) }
    );
}

/// Inactive clients are shown, but hidden clients are still not shown
#[test]
fn inactive_clients() {
    let reply = get_top_clients(
        &test_data(),
        &env(Some(""), ""),
        params(None, Some(true), None, None),
    )
    .unwrap();
    assert_eq!(
        reply,
        TopClientsReply {
            top_clients: vec![
                item("", "10.1.1.4", 40),
                item("client1", "10.1.1.1", 30),
                item("", "10.1.1.2", 20),
                item("client3", "10.1.1.3", 10),
                item("", "10.1.1.5", 0),
            ],
            total_queries: Some(100),
            blocked_queries: None,
        }
    );
}

/// Excluded clients are not shown
#[test]
fn excluded_clients() {
    let reply = get_top_clients(
        &test_data(),
        &env(Some("API_EXCLUDE_CLIENTS=client3,10.1.1.2"), ""),
        TopClientParams::default(),
    )
    .unwrap();
    assert_eq!(
        reply,
        TopClientsReply {
            top_clients: vec![item("", "10.1.1.4", 40), item("client1", "10.1.1.1", 30)],
            total_queries: Some(100),
            blocked_queries: None,
        }
    );
}

/// The privacy levels below 2 show the clients, the levels from 2 on do not
#[test]
fn privacy_threshold() {
    for (level, hidden) in [("0", false), ("1", false), ("2", true), ("3", true)] {
        let reply = get_top_clients(
            &test_data(),
            &env(None, &format!("PRIVACYLEVEL={}", level)),
            TopClientParams::default(),
        )
        .unwrap();
        assert_eq!(reply.top_clients.is_empty(), hidden);
        assert_eq!(reply.total_queries, Some(100));
        assert_eq!(reply.blocked_queries, None);
    }
}

/// A privacy level which is none fails the request
#[test]
fn privacy_level_invalid() {
    let error =
        get_top_clients(&test_data(), &env(None, "PRIVACYLEVEL=9"), TopClientParams::default())
            .unwrap_err();
    assert_eq!(error.kind(), ErrorKind::InvalidSettingValue);
    let error = check_privacy_level_top_clients(&env(None, "PRIVACYLEVEL=x"), false, 1)
        .unwrap_err();
    assert_eq!(error.kind(), ErrorKind::InvalidSettingValue);
}

/// The privacy check gives the count back under the right key
#[test]
fn privacy_check_reports_count() {
    assert_eq!(
        check_privacy_level_top_clients(&env(None, "PRIVACYLEVEL=3"), true, 7).unwrap(),
        Some(TopClientsReply {
            top_clients: vec![],
            total_queries: None,
            blocked_queries: Some(7)
        })
    );
    assert_eq!(
        check_privacy_level_top_clients(&env(None, "PRIVACYLEVEL=3"), false, 7).unwrap(),
        Some(TopClientsReply {
            top_clients: vec![],
            total_queries: Some(7),
            blocked_queries: None
        })
    );
    assert_eq!(check_privacy_level_top_clients(&env(None, ""), false, 7).unwrap(), None);
}

/// Clients behind the total of clients are not read, whatever stands there
#[test]
fn spare_room_is_not_read() {
    let mut clients = test_clients();
    clients.truncate(4);
    clients.push(FtlClient::new(1000, 1000, 1, Some(2)));
    clients.push(FtlClient::new(2000, 2000, 3, None));
    let memory = FtlMemory::new(
        clients,
        Vec::new(),
        Vec::new(),
        test_strings(),
        Vec::new(),
        Vec::new(),
        FtlCounters {
            total_queries: 100,
            blocked_queries: 15,
            total_clients: 4,
            ..FtlCounters::default()
        },
        FtlSettings::default(),
    );
    let reply = get_top_clients(&memory, &env(None, ""), TopClientParams::default()).unwrap();
    assert_eq!(
        reply.top_clients,
        vec![
            item("", "10.1.1.4", 40),
            item("client1", "10.1.1.1", 30),
            item("", "10.1.1.2", 20),
            item("client3", "10.1.1.3", 10),
        ]
    );
    let lock = memory.lock();
    assert_eq!(memory.clients(&lock).len(), 4);
}

/// A total below zero counts nothing, a total above the table counts the table
#[test]
fn totals_out_of_range() {
    let memory = |total_clients: i32| {
        FtlMemory::new(
            test_clients(),
            Vec::new(),
            Vec::new(),
            test_strings(),
            Vec::new(),
            Vec::new(),
            FtlCounters { total_queries: -5, total_clients, ..FtlCounters::default() },
            FtlSettings::default(),
        )
    };
    let below = memory(-1);
    let lock = below.lock();
    assert_eq!(below.clients(&lock).len(), 0);
    let reply = get_top_clients(&below, &env(None, ""), TopClientParams::default()).unwrap();
    assert_eq!(reply.top_clients, vec![]);
    assert_eq!(reply.total_queries, Some(0));
    let above = memory(7);
    let lock = above.lock();
    assert_eq!(above.clients(&lock).len(), 6);
}

/// Clients of the same count keep their order, in both directions
#[test]
fn sort_is_stable() {
    let mut clients = vec![
        FtlClient::new(5, 0, 1, None),
        FtlClient::new(7, 1, 2, None),
        FtlClient::new(5, 2, 3, None),
        FtlClient::new(7, 3, 4, None),
        FtlClient::new(5, 4, 5, None),
    ];
    let ids = |clients: &Vec<FtlClient>| -> Vec<usize> {
        clients.iter().map(|client| client.ip_str_id).collect()
    };
    sort_by_count(&mut clients, false, false);
    assert_eq!(ids(&clients), vec![2, 4, 1, 3, 5]);
    sort_by_count(&mut clients, false, true);
    assert_eq!(ids(&clients), vec![1, 3, 5, 2, 4]);
    sort_by_count(&mut clients, true, false);
    assert_eq!(ids(&clients), vec![5, 4, 3, 2, 1]);
}

/// A limit of zero shows no client, a limit above their number shows all
#[test]
fn limit_edges() {
    let reply =
        get_top_clients(&test_data(), &env(None, ""), params(Some(0), None, None, None)).unwrap();
    assert_eq!(reply.top_clients, vec![]);
    assert_eq!(reply.total_queries, Some(100));
    let reply =
        get_top_clients(&test_data(), &env(None, ""), params(Some(50), None, None, None))
            .unwrap();
    assert_eq!(reply.top_clients.len(), 4);
}

/// The excluded clients are the fields of the setting which are not empty
#[test]
fn excluded_clients_setting() {
    assert_eq!(
        get_excluded_clients(&env(Some("API_EXCLUDE_CLIENTS=a,,b,"), "")),
        vec!["a".to_owned(), "b".to_owned()]
    );
    assert_eq!(get_excluded_clients(&env(None, "")), Vec::<String>::new());
    assert_eq!(HIDDEN_CLIENT, "0.0.0.0");
}
