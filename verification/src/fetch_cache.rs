//! The decisions of the per-buffer caches of language-server results (document colors,
//! folding ranges): whether a request is answered from the cache, joins the fetch under
//! way, or starts a fetch and for which servers; what a finished fetch does to the
//! cache; and the cached results themselves. Servers are named by their integer ids;
//! buffer versions enter through the results of comparing them.

use vstd::prelude::*;
use std::collections::{HashMap, HashSet};
use crate::vec_util::reversed;
use crate::document_ranges::{LspFoldingRange, folds_in_order, sort_folding_ranges_by_start};
use vstd::std_specs::hash::spec_keys_iter;
use vstd::std_specs::iter::IteratorSpec;

verus! {

broadcast use vstd::std_specs::hash::group_hash_axioms;

/// The fetch under way for a buffer.
#[derive(Debug)]
pub struct RunningFetchState {
    /// The queried buffer version has not changed since the version this fetch is for.
    pub version_current: bool,
    /// The servers this fetch queries.
    pub servers: Vec<u64>,
}

/// What is known of a buffer's cached results when a request comes.
#[derive(Debug)]
pub struct CacheState {
    /// The buffer has a cache for this kind of result.
    pub has_cache: bool,
    /// The queried buffer version has not changed since the cached version.
    pub version_current: bool,
    /// The servers whose results the cache lacks (`None` when it lacks none); read only
    /// when the cache is there and current.
    pub missing_servers: Option<Vec<u64>>,
    /// The fetch under way, if any.
    pub running: Option<RunningFetchState>,
}

/// How a request for a buffer's results is answered.
#[derive(Debug, PartialEq, Eq)]
pub enum FetchPlan {
    /// From the cache, which holds the results of every current server.
    UseCache,
    /// By waiting for the fetch under way.
    JoinRunning,
    /// By a new fetch from the given servers (`None`: from all current servers).
    Start { servers_to_query: Option<Vec<u64>> },
}

/// Every server of `a` is in `b`.
pub open spec fn servers_subset(a: Seq<u64>, b: Seq<u64>) -> bool {
    forall|i: int| 0 <= i < a.len() ==> b.contains(#[trigger] a[i])
}

/// Whether every server of `a` is in `b`.
pub fn is_subset(a: &Vec<u64>, b: &Vec<u64>) -> (r: bool)
    ensures
        r == servers_subset(a@, b@),
{
    let mut i: usize = 0;
    while i < a.len()
        invariant
            i <= a@.len(),
            forall|k: int| 0 <= k < i ==> b@.contains(#[trigger] a@[k]),
        decreases a@.len() - i,
    {
        let x = a[i];
        let mut found = false;
        let mut j: usize = 0;
        while j < b.len()
            invariant
                j <= b@.len(),
                found ==> b@.contains(x),
                !found ==> forall|m: int| 0 <= m < j ==> b@[m] != x,
            decreases b@.len() - j,
        {
            if b[j] == x {
                found = true;
                proof {
                    assert(b@[j as int] == x);
                }
            }
            j = j + 1;
        }
        if !found {
            proof {
                assert(!b@.contains(a@[i as int]));
            }
            return false;
        }
        i = i + 1;
    }
    true
}

/// The servers a new fetch would ask, as far as the cache decides: those the current
/// cache lacks.
pub open spec fn spec_servers_to_query(state: CacheState) -> Option<Vec<u64>> {
    if state.has_cache && state.version_current { state.missing_servers } else { None }
}

/// How a request is answered, given the buffer's cache state (`None` when the buffer
/// has no data yet): from a current cache that lacks no server; else by the fetch
/// under way when it is for a current version and queries every server the new fetch
/// would; else by a new fetch.
pub open spec fn spec_plan_fetch(state: Option<CacheState>) -> FetchPlan {
    match state {
        None => FetchPlan::Start { servers_to_query: None },
        Some(s) => if s.has_cache && s.version_current && s.missing_servers is None {
            FetchPlan::UseCache
        } else {
            let to_query = spec_servers_to_query(s);
            match s.running {
                Some(running) => if s.has_cache && running.version_current && match to_query {
                    Some(missing) => servers_subset(missing@, running.servers@),
                    None => true,
                } {
                    FetchPlan::JoinRunning
                } else {
                    FetchPlan::Start { servers_to_query: to_query }
                },
                None => FetchPlan::Start { servers_to_query: to_query },
            }
        },
    }
}

/// How a request for a buffer's cached results is answered.
pub fn plan_fetch(state: Option<CacheState>) -> (plan: FetchPlan)
    ensures
        plan == spec_plan_fetch(state),
{
    match state {
        None => FetchPlan::Start { servers_to_query: None },
        Some(s) => {
            if s.has_cache && s.version_current && s.missing_servers.is_none() {
                return FetchPlan::UseCache;
            }
            let to_query = if s.has_cache && s.version_current { s.missing_servers } else { None };
            match s.running {
                Some(running) => {
                    let covered = match &to_query {
                        Some(missing) => is_subset(missing, &running.servers),
                        None => true,
                    };
                    if s.has_cache && running.version_current && covered {
                        FetchPlan::JoinRunning
                    } else {
                        FetchPlan::Start { servers_to_query: to_query }
                    }
                },
                None => FetchPlan::Start { servers_to_query: to_query },
            }
        },
    }
}

/// The servers a new fetch queries and records: the given ones, else all current servers.
pub fn queried_servers(servers_to_query: &Option<Vec<u64>>, current_servers: &Vec<u64>) -> (r: Vec<u64>)
    ensures
        r@ == match servers_to_query {
            Some(s) => s@,
            None => current_servers@,
        },
{
    match servers_to_query {
        Some(s) => s.clone(),
        None => current_servers.clone(),
    }
}

/// What a finished fetch does to the cache.
#[derive(Debug, PartialEq, Eq, Clone, Copy, Structural)]
pub enum CacheUpdate {
    /// Nothing: the fetch was superseded, failed to deliver, or is for an older version.
    Keep,
    /// Adds the fetched results and servers to the cache of the same version.
    Extend,
    /// Replaces the cache by the fetched results and servers, for the fetched version.
    Replace,
}

/// What a finished fetch does: when it is still the buffer's fetch and delivered
/// results, they extend a cache of the same version, or replace a cache whose version
/// has not changed since the fetched one; otherwise the cache is kept.
pub open spec fn spec_cache_update(
    still_current_fetch: bool,
    delivered: bool,
    same_version: bool,
    cache_not_newer: bool,
) -> CacheUpdate {
    if still_current_fetch && delivered {
        if same_version {
            CacheUpdate::Extend
        } else if cache_not_newer {
            CacheUpdate::Replace
        } else {
            CacheUpdate::Keep
        }
    } else {
        CacheUpdate::Keep
    }
}

/// What a finished fetch does to the cache; `still_current_fetch` tells whether the
/// finished fetch was the buffer's fetch under way, `delivered` whether it delivered
/// results, `same_version` whether the cache is for the fetched version, and
/// `cache_not_newer` whether the cache's version has not changed since the fetched one.
pub fn cache_update(
    still_current_fetch: bool,
    delivered: bool,
    same_version: bool,
    cache_not_newer: bool,
) -> (r: CacheUpdate)
    ensures
        r == spec_cache_update(still_current_fetch, delivered, same_version, cache_not_newer),
{
    if still_current_fetch && delivered {
        if same_version {
            CacheUpdate::Extend
        } else if cache_not_newer {
            CacheUpdate::Replace
        } else {
            CacheUpdate::Keep
        }
    } else {
        CacheUpdate::Keep
    }
}

/// What happens when a fetch ends.
#[derive(Debug, PartialEq, Eq, Clone, Copy, Structural)]
pub enum FetchOutcome {
    /// The fetch failed: it is no longer under way, and its error is the answer.
    Failed,
    /// The buffer changed while fetching: the answer is empty and the cache is left alone.
    Outdated,
    /// The cache is updated as the update says, and its contents are the answer.
    Updated(CacheUpdate),
}

/// The end of a document color fetch: a failure, an answer for a buffer that has changed
/// since, or an update of the cache.
pub fn color_fetch_outcome(
    succeeded: bool,
    buffer_changed: bool,
    still_current_fetch: bool,
    delivered: bool,
    same_version: bool,
    cache_not_newer: bool,
) -> (r: FetchOutcome)
    ensures
        r == if !succeeded {
            FetchOutcome::Failed
        } else if buffer_changed {
            FetchOutcome::Outdated
        } else {
            FetchOutcome::Updated(spec_cache_update(still_current_fetch, delivered, same_version, cache_not_newer))
        },
{
    if !succeeded {
        FetchOutcome::Failed
    } else if buffer_changed {
        FetchOutcome::Outdated
    } else {
        FetchOutcome::Updated(cache_update(still_current_fetch, delivered, same_version, cache_not_newer))
    }
}

/// The end of a folding range fetch: a failure, or an update of the cache.
pub fn folding_fetch_outcome(
    succeeded: bool,
    still_current_fetch: bool,
    delivered: bool,
    same_version: bool,
    cache_not_newer: bool,
) -> (r: FetchOutcome)
    ensures
        r == if !succeeded {
            FetchOutcome::Failed
        } else {
            FetchOutcome::Updated(spec_cache_update(still_current_fetch, delivered, same_version, cache_not_newer))
        },
{
    if !succeeded {
        FetchOutcome::Failed
    } else {
        FetchOutcome::Updated(cache_update(still_current_fetch, delivered, same_version, cache_not_newer))
    }
}

/// When a current cache lacks some servers, a request either joins the fetch under way
/// or starts a fetch from exactly those servers.
pub proof fn law_plan_queries_missing_servers(state: CacheState)
    requires
        state.has_cache,
        state.version_current,
        state.missing_servers is Some,
    ensures
        spec_plan_fetch(Some(state)) == FetchPlan::JoinRunning
            || spec_plan_fetch(Some(state)) == (FetchPlan::Start { servers_to_query: state.missing_servers }),
{
}


/// Results are cached per buffer version: a request for a version the cache is current
/// for, when the cache lacks no server, is answered from the cache at once.
pub proof fn law_current_cache_answers_at_once(state: CacheState)
    requires
        state.has_cache,
        state.version_current,
        state.missing_servers is None,
    ensures
        spec_plan_fetch(Some(state)) == FetchPlan::UseCache,
{
}

/// Concurrent requests share a fetch: while a fetch for the current version is under
/// way and queries every server the cache lacks, a request that the cache cannot answer
/// waits for that fetch instead of starting another one.
pub proof fn law_concurrent_requests_share_fetch(state: CacheState)
    requires
        state.has_cache,
        spec_plan_fetch(Some(state)) != FetchPlan::UseCache,
        state.running matches Some(running) && running.version_current && match spec_servers_to_query(state) {
            Some(missing) => servers_subset(missing@, running.servers@),
            None => true,
        },
    ensures
        spec_plan_fetch(Some(state)) == FetchPlan::JoinRunning,
{
}


/// The map after inserting each fetched result in turn (a later result for a server
/// replaces an earlier one).
pub open spec fn inserted_all<T>(m: Map<u64, T>, fetched: Seq<(u64, T)>) -> Map<u64, T>
    decreases fetched.len(),
{
    if fetched.len() == 0 {
        m
    } else {
        inserted_all(m, fetched.drop_last()).insert(fetched.last().0, fetched.last().1)
    }
}

/// A buffer's cached results of one kind: each server's result, and the servers whose
/// results are in.
#[derive(Debug)]
pub struct ServerResults<T> {
    pub results: HashMap<u64, T>,
    pub fetched_servers: HashSet<u64>,
}

impl<T> ServerResults<T> {
    /// An empty cache.
    pub fn new() -> (r: Self)
        ensures
            r.results@ == Map::<u64, T>::empty(),
            r.fetched_servers@ == Set::<u64>::empty(),
    {
        ServerResults { results: HashMap::new(), fetched_servers: HashSet::new() }
    }

    /// Forgets what the server `server_id` sent.
    pub fn remove_server_data(&mut self, server_id: u64)
        ensures
            final(self).results@ == old(self).results@.remove(server_id),
            final(self).fetched_servers@ == old(self).fetched_servers@.remove(server_id),
    {
        self.results.remove(&server_id);
        self.fetched_servers.remove(&server_id);
    }

    /// Forgets what the given server sent, or, without one, everything.
    pub fn evict(&mut self, for_server: Option<u64>)
        ensures
            match for_server {
                Some(id) => {
                    &&& final(self).results@ == old(self).results@.remove(id)
                    &&& final(self).fetched_servers@ == old(self).fetched_servers@.remove(id)
                },
                None => {
                    &&& final(self).results@ == Map::<u64, T>::empty()
                    &&& final(self).fetched_servers@ == Set::<u64>::empty()
                },
            },
    {
        match for_server {
            Some(id) => self.remove_server_data(id),
            None => {
                self.results.clear();
                self.fetched_servers.clear();
            },
        }
    }

    /// Applies what a finished fetch does: adds the fetched results and the queried
    /// servers, replaces the cache by them, or keeps it.
    pub fn apply_update(&mut self, update: CacheUpdate, fetched: Vec<(u64, T)>, queried: Vec<u64>)
        ensures
            match update {
                CacheUpdate::Keep => {
                    &&& final(self).results@ == old(self).results@
                    &&& final(self).fetched_servers@ == old(self).fetched_servers@
                },
                CacheUpdate::Extend => {
                    &&& final(self).results@ == inserted_all(old(self).results@, fetched@)
                    &&& final(self).fetched_servers@ == old(self).fetched_servers@.union(queried@.to_set())
                },
                CacheUpdate::Replace => {
                    &&& final(self).results@ == inserted_all(Map::empty(), fetched@)
                    &&& final(self).fetched_servers@ == queried@.to_set()
                },
            },
    {
        match update {
            CacheUpdate::Keep => {},
            CacheUpdate::Extend => {
                insert_results(&mut self.results, fetched);
                insert_servers(&mut self.fetched_servers, &queried);
            },
            CacheUpdate::Replace => {
                self.results.clear();
                self.fetched_servers.clear();
                insert_results(&mut self.results, fetched);
                insert_servers(&mut self.fetched_servers, &queried);
                proof {
                    assert(Set::<u64>::empty().union(queried@.to_set()) =~= queried@.to_set());
                }
            },
        }
    }
}

/// The values of `m` at `keys`, key after key, each key's values in order.
pub open spec fn values_at<T>(m: Map<u64, Vec<T>>, keys: Seq<u64>) -> Seq<T>
    decreases keys.len(),
{
    if keys.len() == 0 {
        Seq::empty()
    } else {
        values_at(m, keys.drop_last()) + m[keys.last()]@
    }
}

/// `keys` names every key of `m`, each once.
pub open spec fn lists_keys<T>(m: Map<u64, T>, keys: Seq<u64>) -> bool {
    &&& keys.no_duplicates()
    &&& keys.to_set() == m.dom()
}

proof fn lemma_values_at_concat<T>(m: Map<u64, Vec<T>>, a: Seq<u64>, b: Seq<u64>)
    ensures
        values_at(m, a + b) == values_at(m, a) + values_at(m, b),
    decreases b.len(),
{
    if b.len() == 0 {
        assert(a + b =~= a);
        assert(values_at(m, a) + values_at(m, b) =~= values_at(m, a));
    } else {
        lemma_values_at_concat(m, a, b.drop_last());
        assert((a + b).drop_last() =~= a + b.drop_last());
        assert((a + b).last() == b.last());
        assert(values_at(m, a + b) =~= values_at(m, a) + values_at(m, b));
    }
}

/// Taking one key out of the list takes exactly that key's values out.
proof fn lemma_values_at_remove<T>(m: Map<u64, Vec<T>>, keys: Seq<u64>, i: int)
    requires
        0 <= i < keys.len(),
    ensures
        values_at(m, keys).to_multiset() == values_at(m, keys.remove(i)).to_multiset().add(m[keys[i]]@.to_multiset()),
{
    broadcast use vstd::multiset::group_multiset_axioms, vstd::seq_lib::lemma_multiset_commutative;
    let a = keys.subrange(0, i);
    let b = keys.subrange(i + 1, keys.len() as int);
    let single = seq![keys[i]];
    assert(keys =~= a + single + b);
    assert(keys.remove(i) =~= a + b);
    lemma_values_at_concat(m, a + single, b);
    lemma_values_at_concat(m, a, single);
    lemma_values_at_concat(m, a, b);
    assert(single.drop_last() =~= Seq::<u64>::empty());
    assert(single.last() == keys[i]);
    assert(values_at(m, single.drop_last()) == Seq::<T>::empty());
    assert(values_at(m, single) =~= Seq::<T>::empty() + m[keys[i]]@);
    assert(values_at(m, single) =~= m[keys[i]]@);
    let va = values_at(m, a);
    let vb = values_at(m, b);
    let vk = m[keys[i]]@;
    assert(values_at(m, keys) == va + vk + vb);
    assert((va + vk + vb).to_multiset() =~= va.to_multiset().add(vk.to_multiset()).add(vb.to_multiset()));
    assert(values_at(m, keys).to_multiset() =~= va.to_multiset().add(vb.to_multiset()).add(vk.to_multiset()));
}

/// The cache's answer does not depend on the order in which the map walks its servers:
/// the values at two lists that name the same keys, each once, are the same values.
pub proof fn law_cached_values_ignore_key_order<T>(m: Map<u64, Vec<T>>, k1: Seq<u64>, k2: Seq<u64>)
    requires
        k1.no_duplicates(),
        k2.no_duplicates(),
        k1.to_set() == k2.to_set(),
    ensures
        values_at(m, k1).to_multiset() == values_at(m, k2).to_multiset(),
    decreases k1.len(),
{
    broadcast use vstd::multiset::group_multiset_axioms, vstd::seq_lib::lemma_multiset_commutative;
    if k1.len() == 0 {
        if k2.len() > 0 {
            assert(k2.to_set().contains(k2[0]));
            assert(false);
        }
    } else {
        let k = k1.last();
        assert(k1.to_set().contains(k));
        assert(k2.contains(k));
        let i = choose|i: int| 0 <= i < k2.len() && k2[i] == k;
        let r1 = k1.drop_last();
        let r2 = k2.remove(i);
        assert(r1.no_duplicates());
        assert(r2.no_duplicates()) by {
            assert forall|a: int, b: int| 0 <= a < r2.len() && 0 <= b < r2.len() && a != b implies r2[a] != r2[b] by {
                let a2 = if a < i { a } else { a + 1 };
                let b2 = if b < i { b } else { b + 1 };
                assert(r2[a] == k2[a2]);
                assert(r2[b] == k2[b2]);
            }
        }
        assert(r1.to_set() =~= r2.to_set()) by {
            assert forall|x: u64| r1.contains(x) <==> r2.contains(x) by {
                if r1.contains(x) {
                    let a = choose|a: int| 0 <= a < r1.len() && r1[a] == x;
                    assert(k1[a] == x);
                    assert(x != k);
                    assert(k1.to_set().contains(x));
                    assert(k2.contains(x));
                    let b = choose|b: int| 0 <= b < k2.len() && k2[b] == x;
                    assert(b != i);
                    if b < i {
                        assert(r2[b] == x);
                    } else {
                        assert(r2[b - 1] == x);
                    }
                }
                if r2.contains(x) {
                    let b = choose|b: int| 0 <= b < r2.len() && r2[b] == x;
                    let b2 = if b < i { b } else { b + 1 };
                    assert(k2[b2] == x);
                    assert(x != k);
                    assert(k2.to_set().contains(x));
                    assert(k1.contains(x));
                    let a = choose|a: int| 0 <= a < k1.len() && k1[a] == x;
                    assert(a != k1.len() - 1);
                    assert(r1[a] == x);
                }
            }
        }
        law_cached_values_ignore_key_order(m, r1, r2);
        lemma_values_at_remove(m, k2, i);
        assert(values_at(m, k1) == values_at(m, r1) + m[k]@);
    }
}

proof fn lemma_values_at_contains<T>(m: Map<u64, Vec<T>>, keys: Seq<u64>, x: T)
    ensures
        values_at(m, keys).contains(x) <==> exists|j: int| 0 <= j < keys.len() && (#[trigger] m[keys[j]])@.contains(x),
    decreases keys.len(),
{
    if keys.len() > 0 {
        let rest = keys.drop_last();
        lemma_values_at_contains(m, rest, x);
        let a = values_at(m, rest);
        let b = m[keys.last()]@;
        if values_at(m, keys).contains(x) {
            let i = choose|i: int| 0 <= i < a.len() + b.len() && (a + b)[i] == x;
            if i < a.len() {
                assert(a[i] == x);
                let j = choose|j: int| 0 <= j < rest.len() && (#[trigger] m[rest[j]])@.contains(x);
                assert(keys[j] == rest[j]);
            } else {
                assert(b[i - a.len()] == x);
                assert(m[keys[keys.len() - 1]]@.contains(x));
            }
        }
        if exists|j: int| 0 <= j < keys.len() && (#[trigger] m[keys[j]])@.contains(x) {
            let j = choose|j: int| 0 <= j < keys.len() && (#[trigger] m[keys[j]])@.contains(x);
            if j < keys.len() - 1 {
                assert(rest[j] == keys[j]);
                assert(a.contains(x));
                let i = choose|i: int| 0 <= i < a.len() && a[i] == x;
                assert((a + b)[i] == x);
            } else {
                let i = choose|i: int| 0 <= i < b.len() && b[i] == x;
                assert((a + b)[a.len() + i] == x);
            }
        }
    }
}

/// A current cache that lacks no server answers with the union of every server's
/// values: a value is in the answer exactly when some server's cached values hold it.
pub proof fn law_cached_values_are_every_servers_values<T>(m: Map<u64, Vec<T>>, keys: Seq<u64>, x: T)
    requires
        lists_keys(m, keys),
    ensures
        values_at(m, keys).contains(x) <==> exists|s: u64| m.dom().contains(s) && (#[trigger] m[s])@.contains(x),
{
    lemma_values_at_contains(m, keys, x);
    if exists|s: u64| m.dom().contains(s) && (#[trigger] m[s])@.contains(x) {
        let s = choose|s: u64| m.dom().contains(s) && (#[trigger] m[s])@.contains(x);
        assert(keys.to_set().contains(s));
        let j = choose|j: int| 0 <= j < keys.len() && keys[j] == s;
        assert(m[keys[j]]@.contains(x));
    }
    if values_at(m, keys).contains(x) {
        let j = choose|j: int| 0 <= j < keys.len() && (#[trigger] m[keys[j]])@.contains(x);
        assert(keys.to_set().contains(keys[j]));
    }
}

impl<T> ServerResults<Vec<T>> {
    /// Every cached value: server after server, in the order the map keeps them, and
    /// each server's values in the order it sent them.
    pub fn cached_values(&self) -> (r: Vec<&T>)
        ensures
            exists|keys: Seq<u64>| lists_keys(self.results@, keys) && r@.unref() == values_at(self.results@, keys),
    {
        let ghost m = self.results@;
        let mut out: Vec<&T> = Vec::new();
        for k in it: self.results.keys()
            invariant
                m == self.results@,
                it.seq() == spec_keys_iter(&self.results).remaining(),
                out@.unref() == values_at(m, it.seq().unref().take(it.index())),
        {
            let ghost before = out@.unref();
            let vals = self.results.get(k).unwrap();
            let mut j: usize = 0;
            while j < vals.len()
                invariant
                    j <= vals@.len(),
                    out@.unref() == before + vals@.take(j as int),
                decreases vals@.len() - j,
            {
                let ghost prev = out@;
                out.push(&vals[j]);
                proof {
                    assert(prev.unref() == before + vals@.take(j as int));
                    assert(prev.unref().len() == prev.len());
                    assert(out@.len() == prev.len() + 1);
                    assert(out@.unref().len() == out@.len());
                    assert(out@.unref()[prev.len() as int] == vals@[j as int]);
                    assert forall|i: int| 0 <= i < out@.len() implies #[trigger] out@.unref()[i] == (before + vals@.take(j + 1))[i] by {
                        if i < prev.len() {
                            assert(out@[i] == prev[i]);
                            assert(prev.unref()[i] == (before + vals@.take(j as int))[i]);
                        }
                    }
                    assert(out@.unref() =~= before + vals@.take(j + 1));
                }
                j = j + 1;
            }
            proof {
                assert(vals@.take(vals@.len() as int) =~= vals@);
                let ks = it.seq().unref();
                assert(ks.take(it.index() + 1).drop_last() =~= ks.take(it.index()));
            }
        }
        proof {
            let ks = spec_keys_iter(&self.results).remaining().unref();
            assert(ks.take(ks.len() as int) =~= ks);
        }
        out
    }
}

impl ServerResults<Vec<LspFoldingRange>> {
    /// Every cached folding range, sorted by where it starts.
    pub fn cached_folding_ranges(&self) -> (r: Vec<&LspFoldingRange>)
        ensures
            folds_in_order(r@.unref()),
            exists|keys: Seq<u64>| lists_keys(self.results@, keys)
                && r@.unref().to_multiset() == values_at(self.results@, keys).to_multiset(),
    {
        let all = self.cached_values();
        sort_folding_ranges_by_start(all)
    }
}

fn insert_results<T>(results: &mut HashMap<u64, T>, fetched: Vec<(u64, T)>)
    ensures
        final(results)@ == inserted_all(old(results)@, fetched@),
{
    let ghost f0 = fetched@;
    let ghost m0 = results@;
    let mut rest = reversed(fetched);
    while rest.len() > 0
        invariant
            rest@.len() <= f0.len(),
            rest@ == f0.skip(f0.len() - rest@.len()).reverse(),
            results@ == inserted_all(m0, f0.take(f0.len() - rest@.len())),
        decreases rest@.len(),
    {
        let ghost k = f0.len() - rest@.len();
        let (id, value) = rest.pop().unwrap();
        proof {
            assert((id, value) == f0[k]);
            assert(f0.skip(k + 1).reverse() =~= rest@);
            assert(f0.take(k + 1).drop_last() =~= f0.take(k));
            assert(f0.take(k + 1).last() == f0[k]);
        }
        results.insert(id, value);
    }
    proof {
        assert(f0.take(f0.len() as int) =~= f0);
    }
}

fn insert_servers(servers: &mut HashSet<u64>, queried: &Vec<u64>)
    ensures
        final(servers)@ == old(servers)@.union(queried@.to_set()),
{
    let ghost s0 = servers@;
    let mut i: usize = 0;
    while i < queried.len()
        invariant
            i <= queried@.len(),
            forall|x: u64| #[trigger] servers@.contains(x)
                <==> (s0.contains(x) || exists|j: int| 0 <= j < i && #[trigger] queried@[j] == x),
        decreases queried@.len() - i,
    {
        servers.insert(queried[i]);
        proof {
            assert forall|x: u64| #[trigger] servers@.contains(x)
                <==> (s0.contains(x) || exists|j: int| 0 <= j < i + 1 && #[trigger] queried@[j] == x) by {
                if x == queried@[i as int] {
                    assert(queried@[i as int] == x);
                }
                if exists|j: int| 0 <= j < i + 1 && #[trigger] queried@[j] == x {
                    let j = choose|j: int| 0 <= j < i + 1 && #[trigger] queried@[j] == x;
                    if j < i {
                        assert(exists|j: int| 0 <= j < i && #[trigger] queried@[j] == x);
                    }
                }
            }
        }
        i = i + 1;
    }
    proof {
        assert(servers@ =~= s0.union(queried@.to_set())) by {
            assert forall|x: u64| servers@.contains(x) <==> s0.union(queried@.to_set()).contains(x) by {
                if queried@.contains(x) {
                    let j = choose|j: int| 0 <= j < queried@.len() && queried@[j] == x;
                    assert(exists|j: int| 0 <= j < i && #[trigger] queried@[j] == x);
                }
            }
        }
    }
}

} // verus!
