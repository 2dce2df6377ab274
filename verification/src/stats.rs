//! Query statistics, overall and per domain, and the rule that marks a
//! domain as high risk.
//!
//! A domain is identified by the bytes of its (lower-cased) name. Counters
//! wrap around on overflow, as atomic `fetch_add` does.

use vstd::prelude::*;
use vstd::slice::slice_to_vec;

verus! {

/// `x + 1`, wrapping to 0 after `u64::MAX`.
pub open spec fn bumped(x: u64) -> u64 {
    if x == u64::MAX {
        0
    } else {
        (x + 1) as u64
    }
}

pub fn bump(x: u64) -> (r: u64)
    ensures
        r == bumped(x),
{
    if x == u64::MAX {
        0
    } else {
        x + 1
    }
}

/// `a - b`, or 0 where `b > a`.
pub open spec fn sat_sub(a: u64, b: u64) -> u64 {
    if a < b {
        0
    } else {
        (a - b) as u64
    }
}

/// Counters kept for the whole server.
#[derive(Clone, Copy, Debug, PartialEq, Eq, Structural)]
pub struct Statistics {
    pub queries: u64,
    pub success: u64,
    pub failed: u64,
    pub empty: u64,
    pub memory_recv: u64,
    pub memory_failed: u64,
    pub memory_sent: u64,
}

impl Statistics {
    pub open spec fn zero() -> Statistics {
        Statistics {
            queries: 0,
            success: 0,
            failed: 0,
            empty: 0,
            memory_recv: 0,
            memory_failed: 0,
            memory_sent: 0,
        }
    }

    /// Queries that have neither succeeded nor failed yet.
    pub open spec fn spec_pending(self) -> u64 {
        sat_sub(sat_sub(self.queries, self.success), self.failed)
    }

    pub fn new() -> (r: Statistics)
        ensures
            r == Statistics::zero(),
    {
        Statistics {
            queries: 0,
            success: 0,
            failed: 0,
            empty: 0,
            memory_recv: 0,
            memory_failed: 0,
            memory_sent: 0,
        }
    }

    /// `queries - success - failed`, each subtraction stopping at 0.
    pub fn pending(&self) -> (r: u64)
        ensures
            r == self.spec_pending(),
    {
        self.queries.saturating_sub(self.success).saturating_sub(self.failed)
    }
}

impl Default for Statistics {
    fn default() -> (r: Statistics)
        ensures
            r == Statistics::zero(),
    {
        Statistics::new()
    }
}

/// Counters and the refresh flag kept for one domain.
#[derive(Clone, Copy, Debug, PartialEq, Eq, Structural)]
pub struct StatsPerDomain {
    pub queries: u64,
    pub success: u64,
    pub suspect: u64,
    pub failed: u64,
    pub empty: u64,
    pub refresh_needed: bool,
}

impl StatsPerDomain {
    pub open spec fn zero() -> StatsPerDomain {
        StatsPerDomain {
            queries: 0,
            success: 0,
            suspect: 0,
            failed: 0,
            empty: 0,
            refresh_needed: false,
        }
    }

    /// A domain is high risk when a refresh is pending, or when more than
    /// about one in ten of its answers was suspect: `suspect > success / 9`.
    pub open spec fn spec_is_high_risk(self) -> bool {
        self.refresh_needed || self.suspect > self.success / 9
    }

    pub fn new() -> (r: StatsPerDomain)
        ensures
            r == StatsPerDomain::zero(),
    {
        StatsPerDomain {
            queries: 0,
            success: 0,
            suspect: 0,
            failed: 0,
            empty: 0,
            refresh_needed: false,
        }
    }

    pub fn is_high_risk(&self) -> (r: bool)
        ensures
            r == self.spec_is_high_risk(),
    {
        if self.refresh_needed {
            return true;
        }
        self.suspect > self.success / 9
    }
}

impl Default for StatsPerDomain {
    fn default() -> (r: StatsPerDomain)
        ensures
            r == StatsPerDomain::zero(),
    {
        StatsPerDomain::new()
    }
}

/// The per-domain table, as a map from name bytes to counters.
pub type DomainMap = Map<Seq<u8>, StatsPerDomain>;

/// The entry of `k`, or fresh counters where `k` is not tracked.
pub open spec fn entry_or_zero(m: DomainMap, k: Seq<u8>) -> StatsPerDomain {
    if m.contains_key(k) {
        m[k]
    } else {
        StatsPerDomain::zero()
    }
}

/// What `check` answers.
pub open spec fn spec_check(m: DomainMap, k: Seq<u8>) -> bool {
    m.contains_key(k) && m[k].spec_is_high_risk()
}

/// The table after `refresh_needed(k, reset)`.
pub open spec fn after_refresh_read(m: DomainMap, k: Seq<u8>, reset: bool) -> DomainMap {
    if m.contains_key(k) {
        m.insert(k, StatsPerDomain { refresh_needed: m[k].refresh_needed && !reset, ..m[k] })
    } else {
        m
    }
}

/// The table after `need_refresh(k, value)`.
pub open spec fn after_need_refresh(m: DomainMap, k: Seq<u8>, value: bool) -> DomainMap {
    m.insert(k, StatsPerDomain { refresh_needed: value, ..entry_or_zero(m, k) })
}

/// Whether an update that can be forced touches the table at all.
pub open spec fn counted(m: DomainMap, k: Seq<u8>, force: bool) -> bool {
    force || m.contains_key(k)
}

/// The table after `add_query(k, force)`.
pub open spec fn after_add_query(m: DomainMap, k: Seq<u8>, force: bool) -> DomainMap {
    if counted(m, k, force) {
        let e = entry_or_zero(m, k);
        m.insert(k, StatsPerDomain { queries: bumped(e.queries), ..e })
    } else {
        m
    }
}

/// The table after `add_success(k, force)`.
pub open spec fn after_add_success(m: DomainMap, k: Seq<u8>, force: bool) -> DomainMap {
    if counted(m, k, force) {
        let e = entry_or_zero(m, k);
        m.insert(k, StatsPerDomain { success: bumped(e.success), ..e })
    } else {
        m
    }
}

/// The table after `add_empty(k, force)`.
pub open spec fn after_add_empty(m: DomainMap, k: Seq<u8>, force: bool) -> DomainMap {
    if counted(m, k, force) {
        let e = entry_or_zero(m, k);
        m.insert(k, StatsPerDomain { empty: bumped(e.empty), ..e })
    } else {
        m
    }
}

/// The table after `add_suspect(k)`.
pub open spec fn after_add_suspect(m: DomainMap, k: Seq<u8>) -> DomainMap {
    let e = entry_or_zero(m, k);
    m.insert(k, StatsPerDomain { suspect: bumped(e.suspect), ..e })
}

/// The table after `add_failed(k)`.
pub open spec fn after_add_failed(m: DomainMap, k: Seq<u8>) -> DomainMap {
    let e = entry_or_zero(m, k);
    m.insert(k, StatsPerDomain { failed: bumped(e.failed), ..e })
}

struct Entry {
    key: Vec<u8>,
    stats: StatsPerDomain,
}

spec fn distinct_keys(s: Seq<Entry>) -> bool {
    forall|i: int, j: int|
        0 <= i < s.len() && 0 <= j < s.len() && i != j ==> #[trigger] s[i].key@ != #[trigger] s[j].key@
}

spec fn holds_at(s: Seq<Entry>, k: Seq<u8>, i: int) -> bool {
    0 <= i < s.len() && s[i].key@ == k
}

spec fn map_of(s: Seq<Entry>) -> DomainMap {
    Map::new(
        |k: Seq<u8>| exists|i: int| holds_at(s, k, i),
        |k: Seq<u8>| s[choose|i: int| holds_at(s, k, i)].stats,
    )
}

proof fn lemma_at(s: Seq<Entry>, i: int)
    requires
        distinct_keys(s),
        0 <= i < s.len(),
    ensures
        map_of(s).contains_key(s[i].key@),
        map_of(s)[s[i].key@] == s[i].stats,
{
    let k = s[i].key@;
    assert(holds_at(s, k, i));
    let j = choose|j: int| holds_at(s, k, j);
    assert(holds_at(s, k, j));
    if j != i {
        assert(s[i].key@ != s[j].key@);
    }
}

proof fn lemma_absent(s: Seq<Entry>, k: Seq<u8>)
    requires
        forall|i: int| 0 <= i < s.len() ==> s[i].key@ != k,
    ensures
        !map_of(s).contains_key(k),
{
}

proof fn lemma_update(s: Seq<Entry>, i: int, e: Entry)
    requires
        distinct_keys(s),
        0 <= i < s.len(),
        e.key@ == s[i].key@,
    ensures
        distinct_keys(s.update(i, e)),
        map_of(s.update(i, e)) == map_of(s).insert(e.key@, e.stats),
{
    let s2 = s.update(i, e);
    assert forall|a: int, b: int|
        0 <= a < s2.len() && 0 <= b < s2.len() && a != b implies #[trigger] s2[a].key@
        != #[trigger] s2[b].key@ by {
        assert(s2[a].key@ == s[a].key@);
        assert(s2[b].key@ == s[b].key@);
    }
    let m = map_of(s).insert(e.key@, e.stats);
    assert forall|k: Seq<u8>| #[trigger] map_of(s2).contains_key(k) <==> m.contains_key(k) by {
        if m.contains_key(k) {
            if k == e.key@ {
                assert(holds_at(s2, k, i));
            } else {
                let j = choose|j: int| holds_at(s, k, j);
                assert(holds_at(s2, k, j));
            }
        }
        if map_of(s2).contains_key(k) {
            let j = choose|j: int| holds_at(s2, k, j);
            assert(holds_at(s, k, j));
        }
    }
    assert forall|k: Seq<u8>| #[trigger] map_of(s2).contains_key(k) implies map_of(s2)[k] == m[k] by {
        let j = choose|j: int| holds_at(s2, k, j);
        assert(holds_at(s2, k, j));
        lemma_at(s2, j);
        if j == i {
        } else {
            lemma_at(s, j);
        }
    }
    assert(map_of(s2) =~= m);
}

proof fn lemma_push(s: Seq<Entry>, e: Entry)
    requires
        distinct_keys(s),
        !map_of(s).contains_key(e.key@),
    ensures
        distinct_keys(s.push(e)),
        map_of(s.push(e)) == map_of(s).insert(e.key@, e.stats),
{
    let s2 = s.push(e);
    let n = s.len() as int;
    assert forall|a: int, b: int|
        0 <= a < s2.len() && 0 <= b < s2.len() && a != b implies #[trigger] s2[a].key@
        != #[trigger] s2[b].key@ by {
        if a == n {
            assert(!holds_at(s, e.key@, b));
        } else if b == n {
            assert(!holds_at(s, e.key@, a));
        } else {
            assert(s2[a] == s[a]);
            assert(s2[b] == s[b]);
        }
    }
    let m = map_of(s).insert(e.key@, e.stats);
    assert forall|k: Seq<u8>| #[trigger] map_of(s2).contains_key(k) <==> m.contains_key(k) by {
        if m.contains_key(k) {
            if k == e.key@ {
                assert(holds_at(s2, k, n));
            } else {
                let j = choose|j: int| holds_at(s, k, j);
                assert(holds_at(s2, k, j));
            }
        }
        if map_of(s2).contains_key(k) {
            let j = choose|j: int| holds_at(s2, k, j);
            if j < n {
                assert(holds_at(s, k, j));
            }
        }
    }
    assert forall|k: Seq<u8>| #[trigger] map_of(s2).contains_key(k) implies map_of(s2)[k] == m[k] by {
        let j = choose|j: int| holds_at(s2, k, j);
        assert(holds_at(s2, k, j));
        lemma_at(s2, j);
        if j < n {
            assert(s2[j] == s[j]);
            lemma_at(s, j);
        }
    }
    assert(map_of(s2) =~= m);
}

proof fn lemma_len(s: Seq<Entry>)
    requires
        distinct_keys(s),
    ensures
        map_of(s).dom().finite(),
        map_of(s).dom().len() == s.len(),
    decreases s.len(),
{
    if s.len() == 0 {
        assert(map_of(s).dom() =~= Set::empty());
    } else {
        let t = s.drop_last();
        let e = s.last();
        assert(distinct_keys(t)) by {
            assert forall|a: int, b: int|
                0 <= a < t.len() && 0 <= b < t.len() && a != b implies #[trigger] t[a].key@
                != #[trigger] t[b].key@ by {
                assert(t[a] == s[a]);
                assert(t[b] == s[b]);
            }
        }
        lemma_len(t);
        assert forall|i: int| 0 <= i < t.len() implies t[i].key@ != e.key@ by {
            assert(t[i] == s[i]);
            assert(s[i].key@ != s[s.len() - 1].key@);
        }
        lemma_absent(t, e.key@);
        lemma_push(t, e);
        assert(t.push(e) =~= s);
        assert(map_of(s).dom() =~= map_of(t).dom().insert(e.key@));
    }
}

fn same_bytes(a: &[u8], b: &[u8]) -> (r: bool)
    ensures
        r == (a@ == b@),
{
    if a.len() != b.len() {
        return false;
    }
    let mut i: usize = 0;
    while i < a.len()
        invariant
            i <= a.len(),
            a.len() == b.len(),
            forall|j: int| 0 <= j < i ==> a@[j] == b@[j],
        decreases a.len() - i,
    {
        if a[i] != b[i] {
            return false;
        }
        i = i + 1;
    }
    assert(a@ =~= b@);
    true
}

/// Statistics of the domains that are watched, by name.
pub struct DomainStats {
    entries: Vec<Entry>,
}

impl View for DomainStats {
    type V = DomainMap;

    closed spec fn view(&self) -> DomainMap {
        map_of(self.entries@)
    }
}

impl DomainStats {
    #[verifier::type_invariant]
    spec fn keys_unique(self) -> bool {
        distinct_keys(self.entries@)
    }

    pub fn new() -> (r: DomainStats)
        ensures
            r@ == Map::<Seq<u8>, StatsPerDomain>::empty(),
    {
        let r = DomainStats { entries: Vec::new() };
        assert(r@ =~= Map::<Seq<u8>, StatsPerDomain>::empty());
        r
    }

    fn find(&self, name: &[u8]) -> (r: Option<usize>)
        ensures
            match r {
                Some(i) => i < self.entries.len() && self.entries@[i as int].key@ == name@
                    && self@.contains_key(name@) && self@[name@]
                    == self.entries@[i as int].stats,
                None => !self@.contains_key(name@),
            },
    {
        proof {
            use_type_invariant(self);
        }
        let mut i: usize = 0;
        while i < self.entries.len()
            invariant
                i <= self.entries.len(),
                distinct_keys(self.entries@),
                forall|j: int| 0 <= j < i ==> self.entries@[j].key@ != name@,
            decreases self.entries.len() - i,
        {
            if same_bytes(self.entries[i].key.as_slice(), name) {
                proof {
                    lemma_at(self.entries@, i as int);
                }
                return Some(i);
            }
            i = i + 1;
        }
        proof {
            lemma_absent(self.entries@, name@);
        }
        None
    }

    /// Writes `stats` as the entry of `name`; `at` is what `find` gave.
    fn store(&mut self, at: Option<usize>, name: &[u8], stats: StatsPerDomain)
        requires
            match at {
                Some(i) => i < old(self).entries.len() && old(self).entries@[i as int].key@
                    == name@,
                None => !old(self)@.contains_key(name@),
            },
        ensures
            final(self)@ == old(self)@.insert(name@, stats),
    {
        proof {
            use_type_invariant(&*self);
        }
        let mut entries: Vec<Entry> = Vec::new();
        std::mem::swap(&mut entries, &mut self.entries);
        let key = slice_to_vec(name);
        let e = Entry { key, stats };
        match at {
            Some(i) => {
                proof {
                    lemma_update(entries@, i as int, e);
                }
                entries.set(i, e);
            },
            None => {
                proof {
                    lemma_push(entries@, e);
                }
                entries.push(e);
            },
        }
        self.entries = entries;
    }

    /// The counters of `name`, if it is watched.
    pub fn get(&self, name: &[u8]) -> (r: Option<StatsPerDomain>)
        ensures
            r == (if self@.contains_key(name@) {
                Some(self@[name@])
            } else {
                None::<StatsPerDomain>
            }),
    {
        match self.find(name) {
            Some(i) => Some(self.entries[i].stats),
            None => None,
        }
    }

    /// Whether answers for `name` must be watched closely: the domain is
    /// watched and high risk.
    pub fn check(&self, name: &[u8]) -> (r: bool)
        ensures
            r == spec_check(self@, name@),
    {
        match self.find(name) {
            Some(i) => self.entries[i].stats.is_high_risk(),
            None => false,
        }
    }

    /// Reads the refresh flag of `name` (false where it is not watched) and,
    /// where `reset` holds, clears it.
    pub fn refresh_needed(&mut self, name: &[u8], reset: bool) -> (r: bool)
        ensures
            r == (old(self)@.contains_key(name@) && old(self)@[name@].refresh_needed),
            final(self)@ == after_refresh_read(old(self)@, name@, reset),
    {
        match self.find(name) {
            Some(i) => {
                let e = self.entries[i].stats;
                let updated = StatsPerDomain { refresh_needed: e.refresh_needed && !reset, ..e };
                self.store(Some(i), name, updated);
                e.refresh_needed
            },
            None => false,
        }
    }

    /// Sets the refresh flag of `name`, watching it from now on.
    pub fn need_refresh(&mut self, name: &[u8], value: bool)
        ensures
            final(self)@ == after_need_refresh(old(self)@, name@, value),
    {
        let at = self.find(name);
        let e = match at {
            Some(i) => self.entries[i].stats,
            None => StatsPerDomain::new(),
        };
        self.store(at, name, StatsPerDomain { refresh_needed: value, ..e });
    }

    /// Counts a query for `name`. Unless `force` holds, a domain that is not
    /// watched is left alone and 0 comes back; otherwise the count before
    /// the increment comes back.
    pub fn add_query(&mut self, name: &[u8], force: bool) -> (r: u64)
        ensures
            final(self)@ == after_add_query(old(self)@, name@, force),
            r == (if counted(old(self)@, name@, force) {
                entry_or_zero(old(self)@, name@).queries
            } else {
                0
            }),
    {
        let at = self.find(name);
        if !force && at.is_none() {
            return 0;
        }
        let e = match at {
            Some(i) => self.entries[i].stats,
            None => StatsPerDomain::new(),
        };
        self.store(at, name, StatsPerDomain { queries: bump(e.queries), ..e });
        e.queries
    }

    /// Counts an answered query for `name`. Unless `force` holds, a domain
    /// that is not watched is left alone and 0 comes back; otherwise the
    /// new count comes back.
    pub fn add_success(&mut self, name: &[u8], force: bool) -> (r: u64)
        ensures
            final(self)@ == after_add_success(old(self)@, name@, force),
            r == (if counted(old(self)@, name@, force) {
                bumped(entry_or_zero(old(self)@, name@).success)
            } else {
                0
            }),
    {
        let at = self.find(name);
        if !force && at.is_none() {
            return 0;
        }
        let e = match at {
            Some(i) => self.entries[i].stats,
            None => StatsPerDomain::new(),
        };
        let n = bump(e.success);
        self.store(at, name, StatsPerDomain { success: n, ..e });
        n
    }

    /// Counts a suspect answer for `name`, watching it from now on; the new
    /// count comes back.
    pub fn add_suspect(&mut self, name: &[u8]) -> (r: u64)
        ensures
            final(self)@ == after_add_suspect(old(self)@, name@),
            r == bumped(entry_or_zero(old(self)@, name@).suspect),
    {
        let at = self.find(name);
        let e = match at {
            Some(i) => self.entries[i].stats,
            None => StatsPerDomain::new(),
        };
        let n = bump(e.suspect);
        self.store(at, name, StatsPerDomain { suspect: n, ..e });
        n
    }

    /// Counts a failed query for `name`, watching it from now on; the new
    /// count comes back.
    pub fn add_failed(&mut self, name: &[u8]) -> (r: u64)
        ensures
            final(self)@ == after_add_failed(old(self)@, name@),
            r == bumped(entry_or_zero(old(self)@, name@).failed),
    {
        let at = self.find(name);
        let e = match at {
            Some(i) => self.entries[i].stats,
            None => StatsPerDomain::new(),
        };
        let n = bump(e.failed);
        self.store(at, name, StatsPerDomain { failed: n, ..e });
        n
    }

    /// Counts an empty answer for `name`. Unless `force` holds, a domain
    /// that is not watched is left alone and 0 comes back; otherwise the
    /// new count comes back.
    pub fn add_empty(&mut self, name: &[u8], force: bool) -> (r: u64)
        ensures
            final(self)@ == after_add_empty(old(self)@, name@, force),
            r == (if counted(old(self)@, name@, force) {
                bumped(entry_or_zero(old(self)@, name@).empty)
            } else {
                0
            }),
    {
        let at = self.find(name);
        if !force && at.is_none() {
            return 0;
        }
        let e = match at {
            Some(i) => self.entries[i].stats,
            None => StatsPerDomain::new(),
        };
        let n = bump(e.empty);
        self.store(at, name, StatsPerDomain { empty: n, ..e });
        n
    }

    /// The number of watched domains.
    pub fn try_get_count(&self) -> (r: Option<usize>)
        ensures
            r == Some(self@.dom().len() as usize),
            self@.dom().finite(),
    {
        proof {
            use_type_invariant(self);
            lemma_len(self.entries@);
        }
        Some(self.entries.len())
    }
}

} // verus!

verus! {

/// The high-risk verdict reads only the refresh flag, the suspect count
/// and the success count: with no refresh pending it holds exactly when
/// `suspect > success / 9`; with one pending it always holds; and the
/// query, failure and empty counts play no part.
pub proof fn law_high_risk_rule(e: StatsPerDomain, queries: u64, failed: u64, empty: u64)
    ensures
        !e.refresh_needed ==> (e.spec_is_high_risk() <==> e.suspect > e.success / 9),
        e.refresh_needed ==> e.spec_is_high_risk(),
        (StatsPerDomain { queries, failed, empty, ..e }).spec_is_high_risk() == e.spec_is_high_risk(),
        !e.refresh_needed && e.suspect == 0 ==> !e.spec_is_high_risk(),
{
}

/// Counting a query changes only the query counter of its domain, whether
/// forced or not: the refresh flag and the other counters stay as they
/// were. So a refresh flag set before a query is counted is still there
/// for the lookup that follows.
pub proof fn law_query_count_keeps_the_rest(m: DomainMap, k: Seq<u8>, force: bool)
    ensures
        counted(m, k, force) ==> after_add_query(m, k, force).contains_key(k) && after_add_query(
            m,
            k,
            force,
        )[k] == (StatsPerDomain {
            queries: bumped(entry_or_zero(m, k).queries),
            ..entry_or_zero(m, k)
        }),
        m.contains_key(k) ==> {
            let e = after_add_query(m, k, force)[k];
            &&& e.refresh_needed == m[k].refresh_needed
            &&& e.success == m[k].success
            &&& e.suspect == m[k].suspect
            &&& e.failed == m[k].failed
            &&& e.empty == m[k].empty
            &&& e.queries == bumped(m[k].queries)
        },
        after_need_refresh(m, k, true).contains_key(k) && after_add_query(
            after_need_refresh(m, k, true),
            k,
            force,
        )[k].refresh_needed,
        spec_check(after_add_query(after_need_refresh(m, k, true), k, force), k),
{
}

/// Counting a success or an empty answer likewise changes only its own
/// counter of the domain, forced or not.
pub proof fn law_success_and_empty_keep_the_rest(m: DomainMap, k: Seq<u8>, force: bool)
    ensures
        m.contains_key(k) ==> {
            let e = after_add_success(m, k, force)[k];
            &&& e.refresh_needed == m[k].refresh_needed
            &&& e.queries == m[k].queries
            &&& e.suspect == m[k].suspect
            &&& e.failed == m[k].failed
            &&& e.empty == m[k].empty
            &&& e.success == bumped(m[k].success)
        },
        m.contains_key(k) ==> {
            let e = after_add_empty(m, k, force)[k];
            &&& e.refresh_needed == m[k].refresh_needed
            &&& e.queries == m[k].queries
            &&& e.suspect == m[k].suspect
            &&& e.failed == m[k].failed
            &&& e.success == m[k].success
            &&& e.empty == bumped(m[k].empty)
        },
{
}

/// Setting the refresh flag of a domain to `value` makes the next read of
/// the flag give `value`, and a read that resets it leaves it cleared.
pub proof fn law_refresh_round_trip(m: DomainMap, k: Seq<u8>, value: bool)
    ensures
        after_need_refresh(m, k, value).contains_key(k),
        after_need_refresh(m, k, value)[k].refresh_needed == value,
        !after_refresh_read(after_need_refresh(m, k, value), k, true)[k].refresh_needed,
{
}

/// A domain whose cache must be refreshed is high risk.
pub proof fn law_refresh_marks_high_risk(m: DomainMap, k: Seq<u8>)
    ensures
        spec_check(after_need_refresh(m, k, true), k),
{
}

/// Counting a query, a success or an empty answer without forcing never
/// starts watching a domain, and neither does reading the refresh flag;
/// a domain that is not watched is never high risk.
pub proof fn law_unforced_counting_keeps_watch_list(m: DomainMap, k: Seq<u8>)
    ensures
        after_add_query(m, k, false).dom() == m.dom(),
        after_add_success(m, k, false).dom() == m.dom(),
        after_add_empty(m, k, false).dom() == m.dom(),
        after_refresh_read(m, k, true).dom() == m.dom(),
        !m.contains_key(k) ==> !spec_check(m, k),
{
    assert(after_add_query(m, k, false).dom() =~= m.dom());
    assert(after_add_success(m, k, false).dom() =~= m.dom());
    assert(after_add_empty(m, k, false).dom() =~= m.dom());
    assert(after_refresh_read(m, k, true).dom() =~= m.dom());
}

/// Every update of one domain leaves every other domain as it was.
pub proof fn law_updates_are_local(m: DomainMap, k: Seq<u8>, other: Seq<u8>, force: bool, flag: bool)
    requires
        other != k,
    ensures
        after_add_query(m, k, force).contains_key(other) == m.contains_key(other),
        after_add_success(m, k, force).contains_key(other) == m.contains_key(other),
        after_add_empty(m, k, force).contains_key(other) == m.contains_key(other),
        after_add_suspect(m, k).contains_key(other) == m.contains_key(other),
        after_add_failed(m, k).contains_key(other) == m.contains_key(other),
        after_need_refresh(m, k, flag).contains_key(other) == m.contains_key(other),
        after_refresh_read(m, k, flag).contains_key(other) == m.contains_key(other),
        m.contains_key(other) ==> {
            &&& after_add_query(m, k, force)[other] == m[other]
            &&& after_add_success(m, k, force)[other] == m[other]
            &&& after_add_empty(m, k, force)[other] == m[other]
            &&& after_add_suspect(m, k)[other] == m[other]
            &&& after_add_failed(m, k)[other] == m[other]
            &&& after_need_refresh(m, k, flag)[other] == m[other]
            &&& after_refresh_read(m, k, flag)[other] == m[other]
        },
{
}

/// Each counting update adds one (wrapping) to its own counter of the
/// domain and leaves the domain's other counters and flag as they were.
pub proof fn law_one_counter_per_update(m: DomainMap, k: Seq<u8>)
    ensures
        after_add_query(m, k, true)[k] == (StatsPerDomain {
            queries: bumped(entry_or_zero(m, k).queries),
            ..entry_or_zero(m, k)
        }),
        after_add_success(m, k, true)[k] == (StatsPerDomain {
            success: bumped(entry_or_zero(m, k).success),
            ..entry_or_zero(m, k)
        }),
        after_add_suspect(m, k)[k] == (StatsPerDomain {
            suspect: bumped(entry_or_zero(m, k).suspect),
            ..entry_or_zero(m, k)
        }),
        after_add_failed(m, k)[k] == (StatsPerDomain {
            failed: bumped(entry_or_zero(m, k).failed),
            ..entry_or_zero(m, k)
        }),
        after_add_empty(m, k, true)[k] == (StatsPerDomain {
            empty: bumped(entry_or_zero(m, k).empty),
            ..entry_or_zero(m, k)
        }),
{
}

} // verus!
