//! The bookkeeping of the DNS request handler: what each search and lookup
//! counts, and when the resolver's cache is bypassed.

use vstd::prelude::*;

use crate::stats::{
    after_add_empty, after_add_failed, after_add_query, after_add_success, after_refresh_read, bump,
    bumped, DomainStats, Statistics,
};

verus! {

/// The record type number of `A` (an IPv4 address).
pub const RECORD_TYPE_A: u16 = 1;

/// The record type number of `AAAA` (an IPv6 address).
pub const RECORD_TYPE_AAAA: u16 = 28;

/// Whether a record type asks for an address.
pub open spec fn spec_is_address_type(code: u16) -> bool {
    code == RECORD_TYPE_A || code == RECORD_TYPE_AAAA
}

pub fn is_address_type(code: u16) -> (r: bool)
    ensures
        r == spec_is_address_type(code),
{
    code == RECORD_TYPE_A || code == RECORD_TYPE_AAAA
}

/// The counters after a search is counted.
pub open spec fn with_query(st: Statistics) -> Statistics {
    Statistics { queries: bumped(st.queries), ..st }
}

/// The counters after a failed search is counted.
pub open spec fn with_failure(st: Statistics) -> Statistics {
    Statistics { failed: bumped(st.failed), ..st }
}

/// The counters after a successful search is counted.
pub open spec fn with_success(st: Statistics) -> Statistics {
    Statistics { success: bumped(st.success), ..st }
}

/// The counters after an empty address lookup is counted.
pub open spec fn with_empty(st: Statistics) -> Statistics {
    Statistics { empty: bumped(st.empty), ..st }
}

/// A search for `name` begins: it is counted, and for the domain only where
/// the domain is watched.
pub fn begin_search(stats: &mut Statistics, domains: &mut DomainStats, name: &[u8])
    ensures
        *final(stats) == with_query(*old(stats)),
        final(domains)@ == after_add_query(old(domains)@, name@, false),
{
    stats.queries = bump(stats.queries);
    domains.add_query(name, false);
}

/// A search for `name` failed: counted, and the domain is watched from now on.
pub fn search_failed(stats: &mut Statistics, domains: &mut DomainStats, name: &[u8])
    ensures
        *final(stats) == with_failure(*old(stats)),
        final(domains)@ == after_add_failed(old(domains)@, name@),
{
    stats.failed = bump(stats.failed);
    domains.add_failed(name);
}

/// A search for `name` succeeded: counted, and for the domain only where
/// the domain is watched.
pub fn search_succeeded(stats: &mut Statistics, domains: &mut DomainStats, name: &[u8])
    ensures
        *final(stats) == with_success(*old(stats)),
        final(domains)@ == after_add_success(old(domains)@, name@, false),
{
    stats.success = bump(stats.success);
    domains.add_success(name, false);
}

/// A lookup of `name` begins: whether it must bypass the cache, which is
/// the domain's refresh flag; the flag is cleared.
pub fn begin_lookup(domains: &mut DomainStats, name: &[u8]) -> (force: bool)
    ensures
        force == (old(domains)@.contains_key(name@) && old(domains)@[name@].refresh_needed),
        final(domains)@ == after_refresh_read(old(domains)@, name@, true),
{
    domains.refresh_needed(name, true)
}

/// A lookup of `name` for record type `record_type` got `record_count`
/// records: an address lookup without records is counted as empty, and for
/// the domain only where the domain is watched.
pub fn finish_lookup(
    stats: &mut Statistics,
    domains: &mut DomainStats,
    name: &[u8],
    record_type: u16,
    record_count: usize,
)
    ensures
        spec_is_address_type(record_type) && record_count == 0 ==> *final(stats) == with_empty(*old(stats)) && final(domains)@ == after_add_empty(old(domains)@, name@, false),
        !(spec_is_address_type(record_type) && record_count == 0) ==> *final(stats) == *old(stats)
            && final(domains)@ == old(domains)@,
{
    if is_address_type(record_type) && record_count == 0 {
        stats.empty = bump(stats.empty);
        domains.add_empty(name, false);
    }
}

/// A search that has ended, whether it failed or succeeded, leaves the
/// number of pending queries as it was, where no counter wraps.
pub proof fn law_finished_search_keeps_pending(st: Statistics, succeeded: bool)
    requires
        st.queries < u64::MAX,
        st.success < u64::MAX,
        st.failed < u64::MAX,
    ensures
        (if succeeded {
            with_success(with_query(st))
        } else {
            with_failure(with_query(st))
        }).spec_pending() == st.spec_pending(),
{
}

/// While a search is under way it counts as pending.
pub proof fn law_begun_search_is_pending(st: Statistics)
    requires
        st.queries < u64::MAX,
        st.success + st.failed <= st.queries,
    ensures
        with_query(st).spec_pending() == st.spec_pending() + 1,
{
}

} // verus!
