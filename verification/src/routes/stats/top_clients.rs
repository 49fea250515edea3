//! The clients with the most queries.

use crate::env::Env;
use crate::ftl::memory::FtlMemory;
use crate::ftl::memory_model::{FtlClient, FtlStrings};
use crate::routes::stats::common::{
    excluded_clients, is_excluded, is_hidden, remove_excluded_clients, remove_hidden_clients,
};
use crate::routes::stats::order::{
    count_of, is_ordered, lemma_sort_commutes_with_filter, lemma_sort_keeps_records,
    lemma_sort_orders, rank, sort_by_count, sort_records,
};
use crate::sequences::{lemma_filter_same, lemma_filter_thrice, lemma_filter_twice};
use crate::settings::{FtlConfEntry, FtlPrivacyLevel};
use crate::util::{Error, ErrorKind};
use vstd::prelude::*;

verus! {

/// Represents the possible GET parameters on `/stats/top_clients`
#[derive(Clone, Copy, Debug, PartialEq, Eq)]
pub struct TopClientParams {
    pub limit: Option<usize>,
    pub inactive: Option<bool>,
    pub ascending: Option<bool>,
    pub blocked: Option<bool>,
}

impl TopClientParams {
    /// How many clients are asked for: ten, where nothing is said.
    pub open spec fn wanted(&self) -> nat {
        match self.limit {
            Some(limit) => limit as nat,
            None => 10,
        }
    }

    /// Whether clients without queries are asked for as well.
    pub open spec fn with_inactive(&self) -> bool {
        self.inactive == Some(true)
    }

    /// Whether the clients with the fewest queries are asked for.
    pub open spec fn rising(&self) -> bool {
        self.ascending == Some(true)
    }

    /// Whether the blocked queries are to be counted.
    pub open spec fn of_blocked(&self) -> bool {
        self.blocked == Some(true)
    }
}

impl Default for TopClientParams {
    fn default() -> (params: TopClientParams)
        ensures
            params == (TopClientParams {
                limit: None,
                inactive: None,
                ascending: None,
                blocked: None,
            }),
    {
        TopClientParams { limit: None, inactive: None, ascending: None, blocked: None }
    }
}

/// Represents the reply structure for a top (blocked) client item
#[derive(Debug, PartialEq, Eq)]
pub struct TopClientItemReply {
    pub name: String,
    pub ip: String,
    pub count: usize,
}

/// A client of the reply, by its texts.
pub struct TopClientItem {
    pub name: Seq<char>,
    pub ip: Seq<char>,
    pub count: int,
}

impl View for TopClientItemReply {
    type V = TopClientItem;

    open spec fn view(&self) -> TopClientItem {
        TopClientItem { name: self.name@, ip: self.ip@, count: self.count as int }
    }
}

/// Represents the reply structure for top (blocked) clients
#[derive(Debug, PartialEq, Eq)]
pub struct TopClientsReply {
    pub top_clients: Vec<TopClientItemReply>,
    pub total_queries: Option<usize>,
    pub blocked_queries: Option<usize>,
}

/// The reply, by its texts.
pub struct TopClients {
    pub top_clients: Seq<TopClientItem>,
    pub total_queries: Option<int>,
    pub blocked_queries: Option<int>,
}

/// The items of a reply, by their texts.
pub open spec fn items_of(items: Seq<TopClientItemReply>) -> Seq<TopClientItem> {
    Seq::new(items.len(), |i: int| items[i]@)
}

impl View for TopClientsReply {
    type V = TopClients;

    open spec fn view(&self) -> TopClients {
        TopClients {
            top_clients: items_of(self.top_clients@),
            total_queries: match self.total_queries {
                Some(n) => Some(n as int),
                None => None,
            },
            blocked_queries: match self.blocked_queries {
                Some(n) => Some(n as int),
                None => None,
            },
        }
    }
}

/// A count of the daemon as a number of queries: nothing below zero.
pub open spec fn as_count(n: int) -> int {
    if n < 0 {
        0
    } else {
        n
    }
}

/// A count of the daemon as a number of queries.
fn to_count(n: i32) -> (count: usize)
    ensures
        count == as_count(n as int),
{
    if n < 0 {
        0
    } else {
        n as usize
    }
}

/// Whether a privacy level hides the clients.
pub open spec fn hides_clients(level: FtlPrivacyLevel) -> bool {
    level.ordinal() >= FtlPrivacyLevel::HideDomainsAndClients.ordinal()
}

/// The total that a reply reports: the daemon's count of blocked queries, or
/// of all queries.
pub open spec fn total_of(memory: &FtlMemory, blocked: bool) -> int {
    if blocked {
        as_count(memory.totals().blocked_queries as int)
    } else {
        as_count(memory.totals().total_queries as int)
    }
}

/// The reply with the given clients and the total: the total stands under
/// the blocked queries, or under all queries, and the other one is left out.
pub open spec fn reply_of(clients: Seq<TopClientItem>, blocked: bool, total: int) -> TopClients {
    if blocked {
        TopClients { top_clients: clients, total_queries: None, blocked_queries: Some(total) }
    } else {
        TopClients { top_clients: clients, total_queries: Some(total), blocked_queries: None }
    }
}

/// A client as the reply shows it: its name, or no text where it has none,
/// its address, and its count.
pub open spec fn item_of(client: FtlClient, strings: &FtlStrings, blocked: bool) -> TopClientItem {
    TopClientItem {
        name: match client.name(strings) {
            Some(name) => name,
            None => Seq::empty(),
        },
        ip: client.ip(strings),
        count: as_count(count_of(client, blocked)),
    }
}

/// Whether a client can stand in the statistics: it has a count above zero,
/// unless clients without are asked for; the settings do not leave it out;
/// and it does not stand for the hidden clients.
pub open spec fn is_shown(
    client: FtlClient,
    memory: &FtlMemory,
    env: &Env,
    inactive: bool,
    blocked: bool,
) -> bool {
    &&& inactive || count_of(client, blocked) > 0
    &&& !is_excluded(client, &memory.string_table(), excluded_clients(env))
    &&& !is_hidden(client, &memory.string_table())
}

/// The first `limit` of the clients, or all where there are fewer.
pub open spec fn first_of(clients: Seq<FtlClient>, limit: nat) -> Seq<FtlClient> {
    if limit < clients.len() {
        clients.take(limit as int)
    } else {
        clients
    }
}

/// The clients that can stand in the statistics, in the order of their count.
pub open spec fn ranked_clients(memory: &FtlMemory, env: &Env, params: TopClientParams) -> Seq<
    FtlClient,
> {
    sort_records(
        memory.valid_clients().filter(
            |client: FtlClient|
                is_shown(client, memory, env, params.with_inactive(), params.of_blocked()),
        ),
        params.of_blocked(),
        params.rising(),
    )
}

/// The clients of the reply: those of the counted clients that can stand in
/// the statistics, in the order of their count, cut at the limit.
pub open spec fn top_clients_of(memory: &FtlMemory, env: &Env, params: TopClientParams) -> Seq<
    FtlClient,
> {
    first_of(ranked_clients(memory, env, params), params.wanted())
}

/// To exclude clients does not change the order of the others: the clients
/// in their order under settings which exclude some are the clients in their
/// order under settings which exclude none, without the excluded ones.
pub proof fn lemma_exclusion_keeps_order(
    memory: &FtlMemory,
    env: &Env,
    bare: &Env,
    params: TopClientParams,
)
    requires
        excluded_clients(bare).len() == 0,
    ensures
        ranked_clients(memory, env, params) == ranked_clients(memory, bare, params).filter(
            |client: FtlClient|
                !is_excluded(client, &memory.string_table(), excluded_clients(env)),
        ),
{
    let clients = memory.valid_clients();
    let shown = |client: FtlClient|
        is_shown(client, memory, env, params.with_inactive(), params.of_blocked());
    let shown_bare = |client: FtlClient|
        is_shown(client, memory, bare, params.with_inactive(), params.of_blocked());
    let left_in = |client: FtlClient|
        !is_excluded(client, &memory.string_table(), excluded_clients(env));
    assert forall|i: int| 0 <= i < clients.len() implies shown(#[trigger] clients[i]) == (
    shown_bare(clients[i]) && left_in(clients[i])) by {
        let none = excluded_clients(bare);
        assert(!none.contains(clients[i].ip(&memory.string_table())));
        match clients[i].name(&memory.string_table()) {
            Some(name) => {
                assert(!none.contains(name));
            },
            None => {},
        }
    }
    lemma_filter_twice(clients, shown_bare, left_in, shown);
    lemma_sort_commutes_with_filter(
        clients.filter(shown_bare),
        left_in,
        params.of_blocked(),
        params.rising(),
    );
}

/// The reply to a request for the top clients, under a privacy level.
pub open spec fn top_clients_reply(
    memory: &FtlMemory,
    env: &Env,
    params: TopClientParams,
    level: FtlPrivacyLevel,
) -> TopClients {
    let blocked = params.of_blocked();
    if hides_clients(level) {
        reply_of(Seq::empty(), blocked, total_of(memory, blocked))
    } else {
        reply_of(
            top_clients_of(memory, env, params).map_values(
                |client: FtlClient| item_of(client, &memory.string_table(), blocked),
            ),
            blocked,
            total_of(memory, blocked),
        )
    }
}

/// Where the privacy level hides the clients, the reply names no client, and
/// it reports the total that it reports where the level hides nothing.
pub proof fn lemma_privacy_keeps_total(
    memory: &FtlMemory,
    env: &Env,
    params: TopClientParams,
    hiding: FtlPrivacyLevel,
    showing: FtlPrivacyLevel,
)
    requires
        hides_clients(hiding),
        !hides_clients(showing),
    ensures
        top_clients_reply(memory, env, params, hiding).top_clients.len() == 0,
        top_clients_reply(memory, env, params, hiding).total_queries == top_clients_reply(
            memory,
            env,
            params,
            showing,
        ).total_queries,
        top_clients_reply(memory, env, params, hiding).blocked_queries == top_clients_reply(
            memory,
            env,
            params,
            showing,
        ).blocked_queries,
        top_clients_reply(memory, env, params, hiding).total_queries is Some
            != top_clients_reply(memory, env, params, hiding).blocked_queries is Some,
{
}

/// The clients of the reply stand in the order of their count, descending or
/// ascending as asked; there are no more of them than asked for; each is a
/// counted client which the settings do not leave out and which does not
/// stand for the hidden clients; and none is without queries, unless such
/// clients are asked for.
pub proof fn lemma_top_clients_are_ranked(memory: &FtlMemory, env: &Env, params: TopClientParams)
    ensures
        is_ordered(top_clients_of(memory, env, params), params.of_blocked(), params.rising()),
        top_clients_of(memory, env, params).len() <= params.wanted(),
        forall|i: int|
            0 <= i < top_clients_of(memory, env, params).len() ==> is_shown(
                #[trigger] top_clients_of(memory, env, params)[i],
                memory,
                env,
                params.with_inactive(),
                params.of_blocked(),
            ),
{
    let blocked = params.of_blocked();
    let clients = memory.valid_clients();
    let shown = |client: FtlClient|
        is_shown(client, memory, env, params.with_inactive(), params.of_blocked());
    let kept = clients.filter(shown);
    let sorted = sort_records(kept, blocked, params.rising());
    let top = top_clients_of(memory, env, params);
    lemma_sort_orders(kept, blocked, params.rising());
    lemma_sort_keeps_records(kept, blocked, params.rising());
    assert forall|i: int| 0 <= i < top.len() implies is_shown(
        #[trigger] top[i],
        memory,
        env,
        params.with_inactive(),
        params.of_blocked(),
    ) by {
        assert(top[i] == sorted[i]);
        assert(sorted.contains(sorted[i]));
        vstd::seq_lib::to_multiset_contains(sorted, top[i]);
        vstd::seq_lib::to_multiset_contains(kept, top[i]);
        let j = choose|j: int| 0 <= j < kept.len() && kept[j] == top[i];
        clients.lemma_filter_pred(shown, j);
    }
    assert forall|i: int, j: int| 0 <= i <= j < top.len() implies rank(
        top[i],
        blocked,
        params.rising(),
    ) <= rank(top[j], blocked, params.rising()) by {
        assert(top[i] == sorted[i]);
        assert(top[j] == sorted[j]);
    }
}

/// The reply does not depend on the spare room of the tables: two snapshots
/// which agree in what the daemon has counted give the same reply. No client
/// at or after the total of clients is read.
pub proof fn lemma_spare_room_unread(
    memory: &FtlMemory,
    other: &FtlMemory,
    env: &Env,
    params: TopClientParams,
    level: FtlPrivacyLevel,
)
    requires
        memory.shows_the_same(other),
    ensures
        top_clients_reply(memory, env, params, level) == top_clients_reply(
            other,
            env,
            params,
            level,
        ),
        forall|i: int|
            0 <= i < top_clients_of(memory, env, params).len() ==> memory.valid_clients().contains(
                #[trigger] top_clients_of(memory, env, params)[i],
            ),
{
    let blocked = params.of_blocked();
    let clients = memory.valid_clients();
    let shown = |client: FtlClient|
        is_shown(client, memory, env, params.with_inactive(), params.of_blocked());
    let shown_other = |client: FtlClient|
        is_shown(client, other, env, params.with_inactive(), params.of_blocked());
    lemma_filter_same(clients, shown, shown_other);
    assert(top_clients_of(memory, env, params) == top_clients_of(other, env, params));
    let top = top_clients_of(memory, env, params);
    assert(top.map_values(|client: FtlClient| item_of(client, &memory.string_table(), blocked))
        == top.map_values(|client: FtlClient| item_of(client, &other.string_table(), blocked)));

    let sorted = sort_records(clients.filter(shown), params.of_blocked(), params.rising());
    lemma_sort_keeps_records(
        clients.filter(shown),
        params.of_blocked(),
        params.rising(),
    );
    assert forall|i: int| 0 <= i < top.len() implies clients.contains(#[trigger] top[i]) by {
        assert(top[i] == sorted[i]);
        assert(sorted.contains(sorted[i]));
        vstd::seq_lib::to_multiset_contains(sorted, top[i]);
        vstd::seq_lib::to_multiset_contains(clients.filter(shown), top[i]);
        assert(clients.filter(shown).contains(top[i]));
        clients.lemma_filter_contains_rev(shown, top[i]);
    }
}

/// Check the privacy level to see if clients are allowed to be shared. If not,
/// then only return the relevant count (total or blocked queries).
pub fn check_privacy_level_top_clients(env: &Env, blocked: bool, count: usize) -> (r: Result<
    Option<TopClientsReply>,
    Error,
>)
    ensures
        match FtlConfEntry::privacy_level(env) {
            None => r matches Err(e) && e.spec_kind() == ErrorKind::InvalidSettingValue,
            Some(level) => if hides_clients(level) {
                r matches Ok(Some(reply)) && reply@ == reply_of(
                    Seq::empty(),
                    blocked,
                    count as int,
                )
            } else {
                r matches Ok(None)
            },
        },
{
    let level = match FtlConfEntry::read_privacy_level(env) {
        Ok(level) => level,
        Err(e) => { return Err(e); },
    };
    if level.at_least(FtlPrivacyLevel::HideDomainsAndClients) {
        let reply = if blocked {
            TopClientsReply {
                top_clients: Vec::new(),
                total_queries: None,
                blocked_queries: Some(count),
            }
        } else {
            TopClientsReply {
                top_clients: Vec::new(),
                total_queries: Some(count),
                blocked_queries: None,
            }
        };
        assert(reply@.top_clients == Seq::<TopClientItem>::empty());
        return Ok(Some(reply));
    }
    Ok(None)
}

/// Get the top clients according to the parameters
pub fn get_top_clients(ftl_memory: &FtlMemory, env: &Env, params: TopClientParams) -> (r: Result<
    TopClientsReply,
    Error,
>)
    ensures
        match FtlConfEntry::privacy_level(env) {
            None => r matches Err(e) && e.spec_kind() == ErrorKind::InvalidSettingValue,
            Some(level) => r matches Ok(reply) && reply@ == top_clients_reply(
                ftl_memory,
                env,
                params,
                level,
            ),
        },
{
    // Resolve the parameters
    let limit = match params.limit {
        Some(limit) => limit,
        None => 10,
    };
    let inactive = match params.inactive {
        Some(inactive) => inactive,
        None => false,
    };
    let ascending = match params.ascending {
        Some(ascending) => ascending,
        None => false,
    };
    let blocked = match params.blocked {
        Some(blocked) => blocked,
        None => false,
    };

    let lock = ftl_memory.lock();
    let counters = ftl_memory.counters(&lock);

    let total_count = if blocked {
        to_count(counters.blocked_queries)
    } else {
        to_count(counters.total_queries)
    };

    // Check if the client details are private
    match check_privacy_level_top_clients(env, blocked, total_count) {
        Err(e) => { return Err(e); },
        // We can not share any of the clients, so use the reply returned by the function
        Ok(Some(reply)) => { return Ok(reply); },
        Ok(None) => {},
    }

    let strings = ftl_memory.strings(&lock);
    let all_clients = ftl_memory.clients(&lock);

    // Ignore inactive clients by default (retain active clients)
    let ghost active = |client: FtlClient| inactive || count_of(client, blocked) > 0;
    let mut clients: Vec<FtlClient> = Vec::new();
    let mut i: usize = 0;
    assert(all_clients@.take(0).filter(active) == Seq::<FtlClient>::empty());
    while i < all_clients.len()
        invariant
            i <= all_clients.len(),
            active == |client: FtlClient| inactive || count_of(client, blocked) > 0,
            clients@ == all_clients@.take(i as int).filter(active),
        decreases all_clients.len() - i,
    {
        proof {
            assert(all_clients@.take(i + 1) == all_clients@.take(i as int).push(
                all_clients@[i as int],
            ));
            all_clients@.take(i as int).lemma_filter_push(all_clients@[i as int], active);
        }
        let client = all_clients[i];
        let count = if blocked {
            client.blocked_count
        } else {
            client.query_count
        };
        if inactive || count > 0 {
            clients.push(client);
        }
        i = i + 1;
    }
    assert(all_clients@.take(all_clients.len() as int) == all_clients@);

    // Remove excluded and hidden clients
    remove_excluded_clients(&mut clients, env, strings);
    remove_hidden_clients(&mut clients, strings);
    proof {
        lemma_filters_join(ftl_memory, env, inactive, blocked);
    }

    // Sort the clients (descending by default)
    sort_by_count(&mut clients, blocked, ascending);

    // Take into account the limit
    if limit < clients.len() {
        clients.truncate(limit);
    }
    assert(clients@ == top_clients_of(ftl_memory, env, params));

    // Map the clients into the output format
    let ghost show = |client: FtlClient| item_of(client, &ftl_memory.string_table(), blocked);
    let mut top_clients: Vec<TopClientItemReply> = Vec::new();
    let mut k: usize = 0;
    while k < clients.len()
        invariant
            k <= clients.len(),
            *strings == ftl_memory.string_table(),
            show == |client: FtlClient| item_of(client, &ftl_memory.string_table(), blocked),
            top_clients.len() == k,
            forall|j: int| 0 <= j < k ==> top_clients@[j]@ == show(clients@[j]),
        decreases clients.len() - k,
    {
        let client = &clients[k];
        let name = match client.get_name(strings) {
            Some(name) => name.to_owned(),
            None => String::new(),
        };
        let ip = client.get_ip(strings).to_owned();
        let count = if blocked {
            to_count(client.blocked_count)
        } else {
            to_count(client.query_count)
        };
        top_clients.push(TopClientItemReply { name, ip, count });
        k = k + 1;
    }
    assert(items_of(top_clients@) == clients@.map_values(show));

    // Output format changes when getting top blocked clients
    if blocked {
        Ok(TopClientsReply { top_clients, total_queries: None, blocked_queries: Some(total_count) })
    } else {
        Ok(TopClientsReply { top_clients, total_queries: Some(total_count), blocked_queries: None })
    }
}

/// To leave out the clients without queries, then those excluded, then the
/// hidden one, is to keep the clients that can stand in the statistics.
proof fn lemma_filters_join(memory: &FtlMemory, env: &Env, inactive: bool, blocked: bool)
    ensures
        memory.valid_clients().filter(
            |client: FtlClient| inactive || count_of(client, blocked) > 0,
        ).filter(
            |client: FtlClient|
                !is_excluded(client, &memory.string_table(), excluded_clients(env)),
        ).filter(|client: FtlClient| !is_hidden(client, &memory.string_table()))
            == memory.valid_clients().filter(
            |client: FtlClient| is_shown(client, memory, env, inactive, blocked),
        ),
{
    let a = |client: FtlClient| inactive || count_of(client, blocked) > 0;
    let b = |client: FtlClient|
        !is_excluded(client, &memory.string_table(), excluded_clients(env));
    let c = |client: FtlClient| !is_hidden(client, &memory.string_table());
    let all = |client: FtlClient| is_shown(client, memory, env, inactive, blocked);
    lemma_filter_thrice(memory.valid_clients(), a, b, c, all);
}

} // verus!
