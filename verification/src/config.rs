//! Resolver settings derived from the host's resolver configuration
//! (resolv.conf).

use std::str::FromStr;
use vstd::prelude::*;
use vstd::string::StrSliceExecFns;

use crate::addr::{IpAddress, SockAddr};

verus! {

/// Whether hickory's `Name::from_str_relaxed` accepts the text as a domain
/// name. What it accepts (UTF-8 labels under IDNA rules, or else escaped
/// ASCII labels, within the length limits of DNS) takes pages to state.
pub uninterp spec fn name_parses(text: Seq<char>) -> bool;

/// Calls hickory's `Name::from_str_relaxed` and reports whether it gave a
/// name. Claimed: the answer is `name_parses` of the text.
#[verifier::external_body]
fn parses_relaxed(text: &str) -> (r: bool)
    ensures
        r == name_parses(text@),
{
    hickory_server::proto::rr::Name::from_str_relaxed(text).is_ok()
}

/// Calls hickory's `Name::from_str` and reports whether it gave a name.
/// Claimed: the answer is `name_parses` of the text; in hickory-proto the
/// body of `<Name as FromStr>::from_str` is a call of `from_str_relaxed`.
#[verifier::external_body]
fn parses_strict(text: &str) -> (r: bool)
    ensures
        r == name_parses(text@),
{
    hickory_server::proto::rr::Name::from_str(text).is_ok()
}

/// The port name servers listen on.
pub const DEFAULT_PORT: u16 = 53;

/// What the configuration logic reads of a parsed resolv.conf.
pub struct ResolvConf {
    /// The `nameserver` addresses, in order.
    pub nameservers: Vec<IpAddress>,
    /// The `domain` directive, or else the domain part of the host name.
    pub system_domain: Option<String>,
    /// The names of the last `search` or `domain` directive, in order.
    pub last_search_or_domain: Vec<String>,
    pub ndots: u32,
    /// Seconds to wait for an answer.
    pub timeout: u32,
    pub attempts: u32,
}

/// The transport a name server is asked over.
#[derive(Clone, Copy, Debug, PartialEq, Eq, Structural)]
pub enum Protocol {
    Udp,
}

/// One upstream name server.
#[derive(Clone, Copy, Debug, PartialEq, Eq, Structural)]
pub struct NameServer {
    pub socket_addr: SockAddr,
    pub protocol: Protocol,
    pub trust_negative_responses: bool,
    pub bind_addr: Option<SockAddr>,
}

impl NameServer {
    /// The name server at `ip` on the default port, asked over UDP, whose
    /// negative answers are not trusted, bound wherever the system likes.
    pub open spec fn spec_udp(ip: IpAddress) -> NameServer {
        NameServer {
            socket_addr: SockAddr::spec_new(ip, DEFAULT_PORT),
            protocol: Protocol::Udp,
            trust_negative_responses: false,
            bind_addr: None,
        }
    }
}

/// The settings the resolver is built from.
pub struct ResolverSettings {
    pub domain: Option<String>,
    pub search: Vec<String>,
    pub name_servers: Vec<NameServer>,
    pub ndots: usize,
    pub timeout_secs: u64,
    pub attempts: usize,
}

pub open spec fn view_opt(o: Option<String>) -> Option<Seq<char>> {
    match o {
        Some(s) => Some(s@),
        None => None,
    }
}

pub open spec fn views(v: Seq<String>) -> Seq<Seq<char>> {
    v.map_values(|s: String| s@)
}

/// The text `--`, which stands for an empty search list.
pub open spec fn dashes() -> Seq<char> {
    seq!['-', '-']
}

/// The search names that are kept: those that are not `--` and that parse
/// as domain names, in order.
pub open spec fn kept_search(names: Seq<Seq<char>>) -> Seq<Seq<char>>
    decreases names.len(),
{
    if names.len() == 0 {
        Seq::empty()
    } else {
        let rest = kept_search(names.drop_last());
        let d = names.last();
        if d != dashes() && name_parses(d) {
            rest.push(d)
        } else {
            rest
        }
    }
}

/// The domain that is kept: the system domain where it parses.
pub open spec fn kept_domain(d: Option<Seq<char>>) -> Option<Seq<char>> {
    match d {
        Some(s) => if name_parses(s) {
            Some(s)
        } else {
            None
        },
        None => None,
    }
}

/// Every search name that is kept parses as a domain name and is not
/// `--`, and no more names are kept than were given.
pub proof fn law_kept_search_is_clean(names: Seq<Seq<char>>)
    ensures
        kept_search(names).len() <= names.len(),
        forall|i: int|
            0 <= i < kept_search(names).len() ==> #[trigger] kept_search(names)[i] != dashes()
                && name_parses(kept_search(names)[i]),
    decreases names.len(),
{
    if names.len() > 0 {
        law_kept_search_is_clean(names.drop_last());
    }
}

/// Whether a search name is kept: it is not `--` and parses as a name.
pub open spec fn keeps(d: Seq<char>) -> bool {
    d != dashes() && name_parses(d)
}

/// The kept search names are exactly the given names that are not `--` and
/// that parse, in the order given: nothing else is dropped or added.
pub proof fn law_kept_search_is_filter(names: Seq<Seq<char>>)
    ensures
        kept_search(names) == names.filter(|d: Seq<char>| keeps(d)),
        forall|d: Seq<char>| keeps(d) ==> kept_search(seq![d]) == seq![d],
        forall|i: int| 0 <= i < names.len() && keeps(names[i]) ==> kept_search(names).contains(names[i]),
    decreases names.len(),
{
    reveal(Seq::filter);
    if names.len() > 0 {
        law_kept_search_is_filter(names.drop_last());
    }
    assert forall|d: Seq<char>| keeps(d) implies kept_search(seq![d]) == seq![d] by {
        assert(seq![d].drop_last() =~= Seq::<Seq<char>>::empty());
        assert(kept_search(Seq::<Seq<char>>::empty()) == Seq::<Seq<char>>::empty());
        assert(seq![d].last() == d);
        assert(Seq::<Seq<char>>::empty().push(d) =~= seq![d]);
    }
    assert forall|i: int| 0 <= i < names.len() && keeps(names[i]) implies kept_search(names).contains(
        names[i],
    ) by {
        names.lemma_filter_contains(|d: Seq<char>| keeps(d), i);
    }
}

fn is_dashes(s: &str) -> (r: bool)
    ensures
        r == (s@ == dashes()),
{
    if s.unicode_len() != 2 {
        return false;
    }
    let r = s.get_char(0) == '-' && s.get_char(1) == '-';
    assert(r ==> s@ =~= dashes());
    r
}

/// Builds the resolver settings: every configured name server on port 53
/// over UDP; the system domain where it parses as a name; the last search
/// list (or domain) without `--` and without what does not parse; and the
/// `ndots`, `timeout` (seconds) and `attempts` options as they are.
pub fn config_from_resolv(conf: ResolvConf) -> (r: ResolverSettings)
    ensures
        view_opt(r.domain) == kept_domain(view_opt(conf.system_domain)),
        views(r.search@) == kept_search(views(conf.last_search_or_domain@)),
        r.name_servers@.len() == conf.nameservers@.len(),
        forall|i: int|
            0 <= i < r.name_servers@.len() ==> #[trigger] r.name_servers@[i] == NameServer::spec_udp(
                conf.nameservers@[i],
            ),
        r.ndots == conf.ndots,
        r.timeout_secs == conf.timeout,
        r.attempts == conf.attempts,
{
    let domain = match &conf.system_domain {
        Some(d) => if parses_strict(d.as_str()) {
            Some(d.clone())
        } else {
            None
        },
        None => None,
    };
    let mut name_servers: Vec<NameServer> = Vec::new();
    let mut i: usize = 0;
    while i < conf.nameservers.len()
        invariant
            i <= conf.nameservers.len(),
            name_servers@.len() == i,
            forall|j: int|
                0 <= j < i ==> #[trigger] name_servers@[j] == NameServer::spec_udp(
                    conf.nameservers@[j],
                ),
        decreases conf.nameservers.len() - i,
    {
        let ns = NameServer {
            socket_addr: SockAddr::new(conf.nameservers[i], DEFAULT_PORT),
            protocol: Protocol::Udp,
            trust_negative_responses: false,
            bind_addr: None,
        };
        name_servers.push(ns);
        i = i + 1;
    }
    let names = &conf.last_search_or_domain;
    let ghost all = views(names@);
    let mut search: Vec<String> = Vec::new();
    let mut k: usize = 0;
    while k < names.len()
        invariant
            k <= names.len(),
            all == views(names@),
            views(search@) == kept_search(all.subrange(0, k as int)),
        decreases names.len() - k,
    {
        let d = &names[k];
        assert(all.subrange(0, k + 1).drop_last() =~= all.subrange(0, k as int));
        assert(all.subrange(0, k + 1).last() == d@);
        if !is_dashes(d.as_str()) && parses_relaxed(d.as_str()) {
            search.push(d.clone());
            assert(views(search@) =~= kept_search(all.subrange(0, k as int)).push(d@));
        }
        k = k + 1;
    }
    assert(all.subrange(0, names.len() as int) =~= all);
    ResolverSettings {
        domain,
        search,
        name_servers,
        ndots: conf.ndots as usize,
        timeout_secs: conf.timeout as u64,
        attempts: conf.attempts as usize,
    }
}

} // verus!
