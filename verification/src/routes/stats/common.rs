//! What the statistics of clients share: who is left out, and the order.

use crate::env::Env;
use crate::ftl::memory_model::{FtlClient, FtlStrings};
use crate::settings::SetupVarsEntry;
use crate::text::{fields, split_text, text_equal, texts};
use vstd::prelude::*;

verus! {

/// The address of the client which stands for all hidden clients.
pub const HIDDEN_CLIENT: &'static str = "0.0.0.0";

/// The clients which the settings leave out of the statistics: the fields of
/// the entry between commas, but for the empty ones.
pub open spec fn excluded_clients(env: &Env) -> Seq<Seq<char>> {
    fields(SetupVarsEntry::ApiExcludeClients.value(env), ',').filter(
        |name: Seq<char>| name.len() > 0,
    )
}

/// Get the clients which the settings leave out of the statistics.
pub fn get_excluded_clients(env: &Env) -> (excluded: Vec<String>)
    ensures
        texts(excluded@) == excluded_clients(env),
{
    let value = SetupVarsEntry::ApiExcludeClients.read(env);
    let parts = split_text(value.as_str(), ',');
    let ghost all = texts(parts@);
    let ghost keep = |name: Seq<char>| name.len() > 0;
    let mut excluded: Vec<String> = Vec::new();
    let mut i: usize = 0;
    assert(all.take(0).filter(keep) == Seq::<Seq<char>>::empty());
    assert(texts(excluded@) == Seq::<Seq<char>>::empty());
    while i < parts.len()
        invariant
            i <= parts.len(),
            all == texts(parts@),
            all.len() == parts.len(),
            keep == |name: Seq<char>| name.len() > 0,
            texts(excluded@) == all.take(i as int).filter(keep),
        decreases parts.len() - i,
    {
        proof {
            assert(all.take(i + 1) == all.take(i as int).push(all[i as int]));
            all.take(i as int).lemma_filter_push(all[i as int], keep);
            assert(all[i as int] == parts@[i as int]@);
        }
        if parts[i].as_str().unicode_len() > 0 {
            let part = parts[i].clone();
            assert(texts(excluded@.push(part)) == texts(excluded@).push(part@));
            excluded.push(part);
        }
        i = i + 1;
    }
    assert(all.take(parts.len() as int) == all);
    excluded
}

/// Whether `names` holds the text.
pub fn contains_text(names: &Vec<String>, text: &str) -> (found: bool)
    ensures
        found == texts(names@).contains(text@),
{
    let mut i: usize = 0;
    while i < names.len()
        invariant
            i <= names.len(),
            forall|j: int| 0 <= j < i ==> texts(names@)[j] != text@,
        decreases names.len() - i,
    {
        if text_equal(names[i].as_str(), text) {
            assert(texts(names@)[i as int] == text@);
            return true;
        }
        assert(texts(names@)[i as int] == names@[i as int]@);
        i = i + 1;
    }
    false
}

/// Whether the settings leave the client out: its address or its name is
/// among the excluded.
pub open spec fn is_excluded(
    client: FtlClient,
    strings: &FtlStrings,
    excluded: Seq<Seq<char>>,
) -> bool {
    excluded.contains(client.ip(strings)) || match client.name(strings) {
        Some(name) => excluded.contains(name),
        None => false,
    }
}

/// Whether the client stands for the hidden clients.
pub open spec fn is_hidden(client: FtlClient, strings: &FtlStrings) -> bool {
    client.ip(strings) == HIDDEN_CLIENT@
}

/// Check if the settings leave the client out.
pub fn check_excluded(client: &FtlClient, strings: &FtlStrings, excluded: &Vec<String>) -> (r:
    bool)
    ensures
        r == is_excluded(*client, strings, texts(excluded@)),
{
    if contains_text(excluded, client.get_ip(strings)) {
        return true;
    }
    match client.get_name(strings) {
        Some(name) => contains_text(excluded, name),
        None => false,
    }
}

/// Check if the client stands for the hidden clients.
pub fn check_hidden(client: &FtlClient, strings: &FtlStrings) -> (r: bool)
    ensures
        r == is_hidden(*client, strings),
{
    text_equal(client.get_ip(strings), HIDDEN_CLIENT)
}

/// Remove the clients which the settings leave out.
pub fn remove_excluded_clients(clients: &mut Vec<FtlClient>, env: &Env, strings: &FtlStrings)
    ensures
        final(clients)@ == old(clients)@.filter(
            |client: FtlClient| !is_excluded(client, strings, excluded_clients(env)),
        ),
{
    let excluded = get_excluded_clients(env);
    let ghost keep = |client: FtlClient| !is_excluded(client, strings, excluded_clients(env));
    let mut kept: Vec<FtlClient> = Vec::new();
    let mut i: usize = 0;
    assert(clients@.take(0).filter(keep) == Seq::<FtlClient>::empty());
    while i < clients.len()
        invariant
            i <= clients.len(),
            clients@ == old(clients)@,
            texts(excluded@) == excluded_clients(env),
            keep == |client: FtlClient| !is_excluded(client, strings, excluded_clients(env)),
            kept@ == clients@.take(i as int).filter(keep),
        decreases clients.len() - i,
    {
        proof {
            assert(clients@.take(i + 1) == clients@.take(i as int).push(clients@[i as int]));
            clients@.take(i as int).lemma_filter_push(clients@[i as int], keep);
        }
        if !check_excluded(&clients[i], strings, &excluded) {
            kept.push(clients[i]);
        }
        i = i + 1;
    }
    assert(clients@.take(clients.len() as int) == clients@);
    *clients = kept;
}

/// Remove the client which stands for the hidden clients.
pub fn remove_hidden_clients(clients: &mut Vec<FtlClient>, strings: &FtlStrings)
    ensures
        final(clients)@ == old(clients)@.filter(|client: FtlClient| !is_hidden(client, strings)),
{
    let ghost keep = |client: FtlClient| !is_hidden(client, strings);
    let mut kept: Vec<FtlClient> = Vec::new();
    let mut i: usize = 0;
    assert(clients@.take(0).filter(keep) == Seq::<FtlClient>::empty());
    while i < clients.len()
        invariant
            i <= clients.len(),
            clients@ == old(clients)@,
            keep == |client: FtlClient| !is_hidden(client, strings),
            kept@ == clients@.take(i as int).filter(keep),
        decreases clients.len() - i,
    {
        proof {
            assert(clients@.take(i + 1) == clients@.take(i as int).push(clients@[i as int]));
            clients@.take(i as int).lemma_filter_push(clients@[i as int], keep);
        }
        if !check_hidden(&clients[i], strings) {
            kept.push(clients[i]);
        }
        i = i + 1;
    }
    assert(clients@.take(clients.len() as int) == clients@);
    *clients = kept;
}

} // verus!
