//! The domains with the most queries.

use crate::env::Env;
use crate::ftl::memory::FtlMemory;
use crate::ftl::memory_model::{Counted, FtlDomain, FtlStrings};
use crate::routes::stats::common::contains_text;
use crate::routes::stats::order::{
    count_of, is_ordered, lemma_sort_keeps_records, lemma_sort_orders, rank, sort_by_count,
    sort_records,
};
use crate::routes::stats::top_clients::as_count;
use crate::settings::{FtlConfEntry, FtlPrivacyLevel, SetupVarsEntry};
use crate::text::{fields, split_text, text_equal, texts};
use crate::util::{is_error, Error, ErrorKind};
use vstd::prelude::*;

verus! {

/// The domain which stands for all hidden domains.
pub const HIDDEN_DOMAIN: &'static str = "hidden";

/// Represents the possible GET parameters on `/stats/top_domains`
#[derive(Clone, Copy, Debug, PartialEq, Eq)]
pub struct TopDomainParams {
    pub limit: Option<usize>,
    pub inactive: Option<bool>,
    pub ascending: Option<bool>,
    pub blocked: Option<bool>,
}

impl TopDomainParams {
    /// How many domains are asked for: ten, where nothing is said.
    pub open spec fn wanted(&self) -> nat {
        match self.limit {
            Some(limit) => limit as nat,
            None => 10,
        }
    }

    /// Whether domains without queries are asked for as well.
    pub open spec fn with_inactive(&self) -> bool {
        self.inactive == Some(true)
    }

    /// Whether the domains with the fewest queries are asked for.
    pub open spec fn rising(&self) -> bool {
        self.ascending == Some(true)
    }

    /// Whether the blocked queries are to be counted.
    pub open spec fn of_blocked(&self) -> bool {
        self.blocked == Some(true)
    }
}

impl Default for TopDomainParams {
    fn default() -> (params: TopDomainParams)
        ensures
            params == (TopDomainParams {
                limit: None,
                inactive: None,
                ascending: None,
                blocked: None,
            }),
    {
        TopDomainParams { limit: None, inactive: None, ascending: None, blocked: None }
    }
}

/// Represents the reply structure for a top (blocked) domain item
#[derive(Debug, PartialEq, Eq)]
pub struct TopDomainItemReply {
    pub domain: String,
    pub count: usize,
}

/// A domain of the reply, by its text.
pub struct TopDomainItem {
    pub domain: Seq<char>,
    pub count: int,
}

impl View for TopDomainItemReply {
    type V = TopDomainItem;

    open spec fn view(&self) -> TopDomainItem {
        TopDomainItem { domain: self.domain@, count: self.count as int }
    }
}

/// Represents the reply structure for top (blocked) domains
#[derive(Debug, PartialEq, Eq)]
pub struct TopDomainsReply {
    pub top_domains: Vec<TopDomainItemReply>,
    pub total_queries: Option<usize>,
    pub blocked_queries: Option<usize>,
}

/// The reply, by its texts.
pub struct TopDomains {
    pub top_domains: Seq<TopDomainItem>,
    pub total_queries: Option<int>,
    pub blocked_queries: Option<int>,
}

/// The items of a reply, by their texts.
pub open spec fn items_of(items: Seq<TopDomainItemReply>) -> Seq<TopDomainItem> {
    Seq::new(items.len(), |i: int| items[i]@)
}

impl View for TopDomainsReply {
    type V = TopDomains;

    open spec fn view(&self) -> TopDomains {
        TopDomains {
            top_domains: items_of(self.top_domains@),
            total_queries: match self.total_queries {
                Some(n) => Some(n as int),
                None => None,
            },
            blocked_queries: match self.blocked_queries {
                Some(n) => Some(n as int),
                None => None,
            },
        }
    }
}

/// Whether a privacy level hides the domains.
pub open spec fn hides_domains(level: FtlPrivacyLevel) -> bool {
    level.ordinal() >= FtlPrivacyLevel::HideDomains.ordinal()
}

/// The domains which the settings leave out of the statistics: the fields of
/// the entry between commas, but for the empty ones.
pub open spec fn excluded_domains(env: &Env) -> Seq<Seq<char>> {
    fields(SetupVarsEntry::ApiExcludeDomains.value(env), ',').filter(
        |name: Seq<char>| name.len() > 0,
    )
}

/// Get the domains which the settings leave out of the statistics.
pub fn get_excluded_domains(env: &Env) -> (excluded: Vec<String>)
    ensures
        texts(excluded@) == excluded_domains(env),
{
    let value = SetupVarsEntry::ApiExcludeDomains.read(env);
    let parts = split_text(value.as_str(), ',');
    let ghost all = texts(parts@);
    let ghost keep = |name: Seq<char>| name.len() > 0;
    let mut excluded: Vec<String> = Vec::new();
    let mut i: usize = 0;
    assert(all.take(0).filter(keep) == Seq::<Seq<char>>::empty());
    assert(texts(excluded@) == Seq::<Seq<char>>::empty());
    while i < parts.len()
        invariant
            i <= parts.len(),
            all == texts(parts@),
            all.len() == parts.len(),
            keep == |name: Seq<char>| name.len() > 0,
            texts(excluded@) == all.take(i as int).filter(keep),
        decreases parts.len() - i,
    {
        proof {
            assert(all.take(i + 1) == all.take(i as int).push(all[i as int]));
            all.take(i as int).lemma_filter_push(all[i as int], keep);
            assert(all[i as int] == parts@[i as int]@);
        }
        if parts[i].as_str().unicode_len() > 0 {
            let part = parts[i].clone();
            assert(texts(excluded@.push(part)) == texts(excluded@).push(part@));
            excluded.push(part);
        }
        i = i + 1;
    }
    assert(all.take(parts.len() as int) == all);
    excluded
}

/// The total that a reply reports: the daemon's count of blocked queries, or
/// of all queries.
pub open spec fn total_of(memory: &FtlMemory, blocked: bool) -> int {
    if blocked {
        as_count(memory.totals().blocked_queries as int)
    } else {
        as_count(memory.totals().total_queries as int)
    }
}

/// The reply with the given domains and the total: the total stands under
/// the blocked queries, or under all queries, and the other one is left out.
pub open spec fn reply_of(domains: Seq<TopDomainItem>, blocked: bool, total: int) -> TopDomains {
    if blocked {
        TopDomains { top_domains: domains, total_queries: None, blocked_queries: Some(total) }
    } else {
        TopDomains { top_domains: domains, total_queries: Some(total), blocked_queries: None }
    }
}

/// A domain as the reply shows it: its text and its count.
pub open spec fn item_of(domain: FtlDomain, strings: &FtlStrings, blocked: bool) -> TopDomainItem {
    TopDomainItem { domain: domain.domain(strings), count: as_count(count_of(domain, blocked)) }
}

/// How the reply shows the domains of a table of strings.
pub open spec fn showing(strings: &FtlStrings, blocked: bool) -> spec_fn(FtlDomain) -> TopDomainItem {
    |domain: FtlDomain| item_of(domain, strings, blocked)
}

/// Whether a domain can stand in the statistics: it has a count above zero,
/// unless domains without are asked for; the settings do not leave it out;
/// and it does not stand for the hidden domains.
pub open spec fn is_shown(
    domain: FtlDomain,
    strings: &FtlStrings,
    excluded: Seq<Seq<char>>,
    inactive: bool,
    blocked: bool,
) -> bool {
    &&& inactive || count_of(domain, blocked) > 0
    &&& !excluded.contains(domain.domain(strings))
    &&& domain.domain(strings) != HIDDEN_DOMAIN@
}

/// The domains that can stand in the statistics.
pub open spec fn shown(
    strings: &FtlStrings,
    excluded: Seq<Seq<char>>,
    inactive: bool,
    blocked: bool,
) -> spec_fn(FtlDomain) -> bool {
    |domain: FtlDomain| is_shown(domain, strings, excluded, inactive, blocked)
}

/// The first `limit` of the domains, or all where there are fewer.
pub open spec fn first_of(domains: Seq<FtlDomain>, limit: nat) -> Seq<FtlDomain> {
    if limit < domains.len() {
        domains.take(limit as int)
    } else {
        domains
    }
}

/// The domains of the reply: those of the counted domains that can stand in
/// the statistics, in the order of their count, cut at the limit.
pub open spec fn top_domains_of(memory: &FtlMemory, env: &Env, params: TopDomainParams) -> Seq<
    FtlDomain,
> {
    first_of(
        sort_records(
            memory.valid_domains().filter(
                shown(
                    &memory.string_table(),
                    excluded_domains(env),
                    params.with_inactive(),
                    params.of_blocked(),
                ),
            ),
            params.of_blocked(),
            params.rising(),
        ),
        params.wanted(),
    )
}

/// The reply to a request for the top domains, under a privacy level: the
/// total, and with it the domains, unless the level hides them.
pub open spec fn top_domains_reply(
    memory: &FtlMemory,
    env: &Env,
    params: TopDomainParams,
    level: FtlPrivacyLevel,
) -> TopDomains {
    let blocked = params.of_blocked();
    if hides_domains(level) {
        reply_of(Seq::empty(), blocked, total_of(memory, blocked))
    } else {
        reply_of(
            top_domains_of(memory, env, params).map_values(
                showing(&memory.string_table(), blocked),
            ),
            blocked,
            total_of(memory, blocked),
        )
    }
}

/// Where the privacy level hides the domains, the reply names no domain, and
/// it reports the total that it reports where the level hides nothing.
pub proof fn lemma_privacy_keeps_total(
    memory: &FtlMemory,
    env: &Env,
    params: TopDomainParams,
    hiding: FtlPrivacyLevel,
    showing: FtlPrivacyLevel,
)
    requires
        hides_domains(hiding),
        !hides_domains(showing),
    ensures
        top_domains_reply(memory, env, params, hiding).top_domains.len() == 0,
        top_domains_reply(memory, env, params, hiding).total_queries == top_domains_reply(
            memory,
            env,
            params,
            showing,
        ).total_queries,
        top_domains_reply(memory, env, params, hiding).blocked_queries == top_domains_reply(
            memory,
            env,
            params,
            showing,
        ).blocked_queries,
{
}

/// The domains of the reply stand in the order of their count, descending or
/// ascending as asked; there are no more of them than asked for; each is a
/// counted domain which the settings do not leave out and which does not
/// stand for the hidden domains; and none is without queries, unless such
/// domains are asked for.
pub proof fn lemma_top_domains_are_ranked(memory: &FtlMemory, env: &Env, params: TopDomainParams)
    ensures
        is_ordered(top_domains_of(memory, env, params), params.of_blocked(), params.rising()),
        top_domains_of(memory, env, params).len() <= params.wanted(),
        forall|i: int|
            0 <= i < top_domains_of(memory, env, params).len() ==> memory.valid_domains().contains(
                #[trigger] top_domains_of(memory, env, params)[i],
            ) && is_shown(
                top_domains_of(memory, env, params)[i],
                &memory.string_table(),
                excluded_domains(env),
                params.with_inactive(),
                params.of_blocked(),
            ),
{
    let blocked = params.of_blocked();
    let domains = memory.valid_domains();
    let keep = shown(
        &memory.string_table(),
        excluded_domains(env),
        params.with_inactive(),
        blocked,
    );
    let kept = domains.filter(keep);
    let sorted = sort_records(kept, blocked, params.rising());
    let top = top_domains_of(memory, env, params);
    lemma_sort_orders(kept, blocked, params.rising());
    lemma_sort_keeps_records(kept, blocked, params.rising());
    assert forall|i: int| 0 <= i < top.len() implies domains.contains(#[trigger] top[i])
        && is_shown(
        top[i],
        &memory.string_table(),
        excluded_domains(env),
        params.with_inactive(),
        params.of_blocked(),
    ) by {
        assert(top[i] == sorted[i]);
        assert(sorted.contains(sorted[i]));
        vstd::seq_lib::to_multiset_contains(sorted, top[i]);
        vstd::seq_lib::to_multiset_contains(kept, top[i]);
        let j = choose|j: int| 0 <= j < kept.len() && kept[j] == top[i];
        domains.lemma_filter_pred(keep, j);
        domains.lemma_filter_contains_rev(keep, top[i]);
    }
    assert forall|i: int, j: int| 0 <= i <= j < top.len() implies rank(
        top[i],
        blocked,
        params.rising(),
    ) <= rank(top[j], blocked, params.rising()) by {
        assert(top[i] == sorted[i]);
        assert(top[j] == sorted[j]);
    }
}

/// The reply does not depend on the spare room of the tables: two snapshots
/// which agree in what the daemon has counted give the same reply. No domain
/// at or after the total of domains is read.
pub proof fn lemma_spare_room_unread(
    memory: &FtlMemory,
    other: &FtlMemory,
    env: &Env,
    params: TopDomainParams,
    level: FtlPrivacyLevel,
)
    requires
        memory.shows_the_same(other),
    ensures
        top_domains_reply(memory, env, params, level) == top_domains_reply(
            other,
            env,
            params,
            level,
        ),
{
    let blocked = params.of_blocked();
    let domains = memory.valid_domains();
    let keep = shown(
        &memory.string_table(),
        excluded_domains(env),
        params.with_inactive(),
        blocked,
    );
    let keep_other = shown(
        &other.string_table(),
        excluded_domains(env),
        params.with_inactive(),
        blocked,
    );
    crate::sequences::lemma_filter_same(domains, keep, keep_other);
    let top = top_domains_of(memory, env, params);
    assert(top == top_domains_of(other, env, params));
    assert(top.map_values(showing(&memory.string_table(), blocked)) == top.map_values(
        showing(&other.string_table(), blocked),
    ));
}

/// A count of the daemon as a number of queries.
fn to_count(n: i32) -> (count: usize)
    ensures
        count == as_count(n as int),
{
    if n < 0 {
        0
    } else {
        n as usize
    }
}

/// Get the top domains according to the parameters
pub fn get_top_domains(ftl_memory: &FtlMemory, env: &Env, params: TopDomainParams) -> (r: Result<
    TopDomainsReply,
    Error,
>)
    ensures
        match FtlConfEntry::privacy_level(env) {
            None => is_error(r, ErrorKind::InvalidSettingValue),
            Some(level) => r matches Ok(reply) && reply@ == top_domains_reply(
                ftl_memory,
                env,
                params,
                level,
            ),
        },
{
    // Resolve the parameters
    let limit = match params.limit {
        Some(limit) => limit,
        None => 10,
    };
    let inactive = match params.inactive {
        Some(inactive) => inactive,
        None => false,
    };
    let ascending = match params.ascending {
        Some(ascending) => ascending,
        None => false,
    };
    let blocked = match params.blocked {
        Some(blocked) => blocked,
        None => false,
    };

    let lock = ftl_memory.lock();
    let counters = ftl_memory.counters(&lock);
    let total_count = if blocked {
        to_count(counters.blocked_queries)
    } else {
        to_count(counters.total_queries)
    };

    // Check if the domain details are private
    let level = match FtlConfEntry::read_privacy_level(env) {
        Ok(level) => level,
        Err(e) => { return Err(e); },
    };
    let mut top_domains: Vec<TopDomainItemReply> = Vec::new();
    if level.at_least(FtlPrivacyLevel::HideDomains) {
        assert(items_of(top_domains@) == Seq::<TopDomainItem>::empty());
        return if blocked {
            Ok(
                TopDomainsReply {
                    top_domains,
                    total_queries: None,
                    blocked_queries: Some(total_count),
                },
            )
        } else {
            Ok(
                TopDomainsReply {
                    top_domains,
                    total_queries: Some(total_count),
                    blocked_queries: None,
                },
            )
        };
    }

    let strings = ftl_memory.strings(&lock);
    let all_domains = ftl_memory.domains(&lock);
    let excluded = get_excluded_domains(env);

    // Ignore inactive domains by default, and remove excluded and hidden domains
    let ghost keep = shown(strings, excluded_domains(env), inactive, blocked);
    let mut domains: Vec<FtlDomain> = Vec::new();
    let mut i: usize = 0;
    assert(all_domains@.take(0).filter(keep) == Seq::<FtlDomain>::empty());
    while i < all_domains.len()
        invariant
            i <= all_domains.len(),
            texts(excluded@) == excluded_domains(env),
            keep == shown(strings, excluded_domains(env), inactive, blocked),
            domains@ == all_domains@.take(i as int).filter(keep),
        decreases all_domains.len() - i,
    {
        proof {
            assert(all_domains@.take(i + 1) == all_domains@.take(i as int).push(
                all_domains@[i as int],
            ));
            all_domains@.take(i as int).lemma_filter_push(all_domains@[i as int], keep);
        }
        let domain = all_domains[i];
        let text = domain.get_domain(strings);
        if (inactive || domain.count(blocked) > 0) && !contains_text(&excluded, text)
            && !text_equal(text, HIDDEN_DOMAIN) {
            domains.push(domain);
        }
        i = i + 1;
    }
    assert(all_domains@.take(all_domains.len() as int) == all_domains@);

    // Sort the domains (descending by default)
    sort_by_count(&mut domains, blocked, ascending);

    // Take into account the limit
    if limit < domains.len() {
        domains.truncate(limit);
    }
    assert(domains@ == top_domains_of(ftl_memory, env, params));

    // Map the domains into the output format
    let ghost show = showing(strings, blocked);
    let mut k: usize = 0;
    while k < domains.len()
        invariant
            k <= domains.len(),
            show == showing(strings, blocked),
            top_domains.len() == k,
            forall|j: int| 0 <= j < k ==> top_domains@[j]@ == show(domains@[j]),
        decreases domains.len() - k,
    {
        let domain = &domains[k];
        top_domains.push(
            TopDomainItemReply {
                domain: domain.get_domain(strings).to_owned(),
                count: to_count(domain.count(blocked)),
            },
        );
        k = k + 1;
    }
    assert(items_of(top_domains@) == domains@.map_values(show));

    // Output format changes when getting top blocked domains
    if blocked {
        Ok(TopDomainsReply { top_domains, total_queries: None, blocked_queries: Some(total_count) })
    } else {
        Ok(TopDomainsReply { top_domains, total_queries: Some(total_count), blocked_queries: None })
    }
}

} // verus!
