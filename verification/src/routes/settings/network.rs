//! The settings of the local network.

use crate::env::Env;
use crate::settings::SetupVarsEntry;
use crate::text::{fields, lemma_fields_not_empty, split_text};
use vstd::prelude::*;

verus! {

/// An address without the length of its network: what stands before the first slash.
pub open spec fn bare_address(address: Seq<char>) -> Seq<char> {
    fields(address, '/')[0]
}

/// Get an address without the length of its network.
pub fn strip_prefix_length(address: &str) -> (bare: String)
    ensures
        bare@ == bare_address(address@),
{
    let mut parts = split_text(address, '/');
    proof {
        lemma_fields_not_empty(address@, '/');
        assert(crate::text::texts(parts@).len() == parts.len());
        assert(crate::text::texts(parts@)[0] == parts@[0]@);
    }
    parts.swap_remove(0)
}

/// The local network of the Pi-hole, but for the name of its host.
#[derive(Debug, PartialEq, Eq)]
pub struct NetworkSettings {
    pub interface: String,
    pub ipv4_address: String,
    pub ipv6_address: String,
}

/// Get Pi-hole local network information: the interface as the installer
/// wrote it down, and the addresses without the lengths of their networks.
pub fn network_settings(env: &Env) -> (settings: NetworkSettings)
    ensures
        settings.interface@ == SetupVarsEntry::PiholeInterface.value(env),
        settings.ipv4_address@ == bare_address(SetupVarsEntry::Ipv4Address.value(env)),
        settings.ipv6_address@ == bare_address(SetupVarsEntry::Ipv6Address.value(env)),
{
    let ipv4_full = SetupVarsEntry::Ipv4Address.read(env);
    let ipv6_full = SetupVarsEntry::Ipv6Address.read(env);
    NetworkSettings {
        interface: SetupVarsEntry::PiholeInterface.read(env),
        ipv4_address: strip_prefix_length(ipv4_full.as_str()),
        ipv6_address: strip_prefix_length(ipv6_full.as_str()),
    }
}

} // verus!
