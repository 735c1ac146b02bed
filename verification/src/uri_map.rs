//! An insertion-ordered map keyed by document URIs.

use vstd::prelude::*;

verus! {

/// The map that an entry list denotes: a later entry for a URI overrides an earlier one.
pub open spec fn entries_map<V>(e: Seq<(String, V)>) -> Map<Seq<char>, V>
    decreases e.len(),
{
    if e.len() == 0 {
        Map::empty()
    } else {
        entries_map(e.drop_last()).insert(e.last().0@, e.last().1)
    }
}

/// No URI occurs twice in the entry list.
pub open spec fn distinct_keys<V>(e: Seq<(String, V)>) -> bool {
    forall|i: int, j: int|
        0 <= i < e.len() && 0 <= j < e.len() && i != j ==> #[trigger] e[i].0@ != #[trigger] e[j].0@
}

pub proof fn lemma_entries_map_push<V>(e: Seq<(String, V)>, x: (String, V))
    ensures
        entries_map(e.push(x)) == entries_map(e).insert(x.0@, x.1),
{
    assert(e.push(x).drop_last() =~= e);
}

pub proof fn lemma_entries_map_index<V>(e: Seq<(String, V)>, i: int)
    requires
        distinct_keys(e),
        0 <= i < e.len(),
    ensures
        entries_map(e).contains_key(e[i].0@),
        entries_map(e)[e[i].0@] == e[i].1,
    decreases e.len(),
{
    if i < e.len() - 1 {
        let d = e.drop_last();
        assert(distinct_keys(d)) by {
            assert forall|a: int, b: int|
                0 <= a < d.len() && 0 <= b < d.len() && a != b implies #[trigger] d[a].0@
                != #[trigger] d[b].0@ by {
                assert(d[a] == e[a] && d[b] == e[b]);
            }
        }
        lemma_entries_map_index(d, i);
        assert(e[i].0@ != e[e.len() - 1].0@);
    }
}

pub proof fn lemma_entries_map_dom<V>(e: Seq<(String, V)>, k: Seq<char>)
    ensures
        entries_map(e).contains_key(k) <==> exists|i: int| 0 <= i < e.len() && #[trigger] e[i].0@ == k,
    decreases e.len(),
{
    if e.len() > 0 {
        let d = e.drop_last();
        lemma_entries_map_dom(d, k);
        if entries_map(e).contains_key(k) {
            if e.last().0@ != k {
                let i = choose|i: int| 0 <= i < d.len() && #[trigger] d[i].0@ == k;
                assert(e[i].0@ == k);
            } else {
                assert(e[e.len() - 1].0@ == k);
            }
        }
        if exists|i: int| 0 <= i < e.len() && #[trigger] e[i].0@ == k {
            let i = choose|i: int| 0 <= i < e.len() && #[trigger] e[i].0@ == k;
            if i < e.len() - 1 {
                assert(d[i].0@ == k);
            }
        }
    }
}

pub proof fn lemma_entries_map_update<V>(e: Seq<(String, V)>, i: int, v: V)
    requires
        distinct_keys(e),
        0 <= i < e.len(),
    ensures
        entries_map(e.update(i, (e[i].0, v))) == entries_map(e).insert(e[i].0@, v),
    decreases e.len(),
{
    let u = e.update(i, (e[i].0, v));
    if i == e.len() - 1 {
        assert(u.drop_last() =~= e.drop_last());
    } else {
        let d = e.drop_last();
        assert(distinct_keys(d)) by {
            assert forall|a: int, b: int|
                0 <= a < d.len() && 0 <= b < d.len() && a != b implies #[trigger] d[a].0@
                != #[trigger] d[b].0@ by {
                assert(d[a] == e[a] && d[b] == e[b]);
            }
        }
        lemma_entries_map_update(d, i, v);
        assert(u.drop_last() =~= d.update(i, (e[i].0, v)));
        assert(e[i].0@ != e.last().0@);
        assert(entries_map(u) =~= entries_map(e).insert(e[i].0@, v));
    }
}

/// `vals` holds the values of `m`, one for each key.
pub open spec fn values_of<V>(m: Map<Seq<char>, V>, vals: Seq<V>) -> bool {
    exists|keys: Seq<Seq<char>>|
        #![trigger keys.to_set()]
        keys.len() == vals.len() && keys.no_duplicates() && keys.to_set() == m.dom() && forall|i: int|
            0 <= i < keys.len() ==> vals[i] == m[#[trigger] keys[i]]
}

/// A map from URIs to values that keeps its entries in insertion order.
pub struct UriMap<V> {
    entries: Vec<(String, V)>,
}

impl<V> UriMap<V> {
    pub closed spec fn wf(&self) -> bool {
        distinct_keys(self.entries@)
    }

    pub closed spec fn view(&self) -> Map<Seq<char>, V> {
        entries_map(self.entries@)
    }

    /// The entries, in the order their URIs were first inserted.
    pub closed spec fn entry_seq(&self) -> Seq<(String, V)> {
        self.entries@
    }

    pub proof fn lemma_entries(&self)
        requires
            self.wf(),
        ensures
            distinct_keys(self.entry_seq()),
            self.view() == entries_map(self.entry_seq()),
            forall|i: int|
                0 <= i < self.entry_seq().len() ==> self.view().contains_key(
                    #[trigger] self.entry_seq()[i].0@,
                ) && self.view()[self.entry_seq()[i].0@] == self.entry_seq()[i].1,
            forall|k: Seq<char>|
                #[trigger] self.view().contains_key(k) ==> exists|i: int|
                    0 <= i < self.entry_seq().len() && #[trigger] self.entry_seq()[i].0@ == k,
            self.view().dom().finite(),
            self.view().len() == self.entry_seq().len(),
    {
        assert forall|i: int| 0 <= i < self.entry_seq().len() implies self.view().contains_key(
            #[trigger] self.entry_seq()[i].0@,
        ) && self.view()[self.entry_seq()[i].0@] == self.entry_seq()[i].1 by {
            lemma_entries_map_index(self.entries@, i);
        }
        assert forall|k: Seq<char>| #[trigger] self.view().contains_key(k) implies exists|i: int|
            0 <= i < self.entry_seq().len() && #[trigger] self.entry_seq()[i].0@ == k by {
            lemma_entries_map_dom(self.entries@, k);
            let i = choose|i: int| 0 <= i < self.entries@.len() && #[trigger] self.entries@[i].0@ == k;
            assert(self.entry_seq()[i].0@ == k);
        }
        lemma_entries_map_len(self.entries@);
    }

    pub fn new() -> (m: Self)
        ensures
            m.wf(),
            m@ == Map::<Seq<char>, V>::empty(),
            m.entry_seq().len() == 0,
    {
        UriMap { entries: Vec::new() }
    }

    pub fn len(&self) -> (n: usize)
        ensures
            n == self.entry_seq().len(),
    {
        self.entries.len()
    }

    /// The position of the entry for `uri`, if there is one.
    pub fn position(&self, uri: &String) -> (r: Option<usize>)
        requires
            self.wf(),
        ensures
            match r {
                Some(i) => i < self.entry_seq().len() && self.entry_seq()[i as int].0@ == uri@,
                None => !self@.contains_key(uri@),
            },
    {
        let mut i: usize = 0;
        while i < self.entries.len()
            invariant
                i <= self.entries@.len(),
                forall|j: int| 0 <= j < i ==> #[trigger] self.entries@[j].0@ != uri@,
            decreases self.entries@.len() - i,
        {
            if self.entries[i].0 == *uri {
                return Some(i);
            }
            i = i + 1;
        }
        proof {
            lemma_entries_map_dom(self.entries@, uri@);
        }
        None
    }

    /// Takes the value stored at position `i` out of the map.
    pub fn take_at(&mut self, i: usize) -> (r: (String, V))
        requires
            old(self).wf(),
            i < old(self).entry_seq().len(),
        ensures
            r == old(self).entry_seq()[i as int],
            final(self).entry_seq() == old(self).entry_seq().remove(i as int),
    {
        self.entries.remove(i)
    }

    /// Puts a value back at position `i` under the URI that was taken from there.
    pub fn put_at(&mut self, i: usize, entry: (String, V))
        requires
            i <= old(self).entry_seq().len(),
        ensures
            final(self).entry_seq() == old(self).entry_seq().insert(i as int, entry),
    {
        self.entries.insert(i, entry)
    }

    /// Adds an entry for a URI that is not in the map yet.
    pub fn push_new(&mut self, uri: String, v: V)
        requires
            old(self).wf(),
            !old(self)@.contains_key(uri@),
        ensures
            final(self).wf(),
            final(self)@ == old(self)@.insert(uri@, v),
            final(self).entry_seq() == old(self).entry_seq().push((uri, v)),
    {
        proof {
            lemma_entries_map_push(self.entries@, (uri, v));
            assert forall|i: int| 0 <= i < self.entries@.len() implies #[trigger] self.entries@[i].0@ != uri@ by {
                lemma_entries_map_index(self.entries@, i);
            }
        }
        self.entries.push((uri, v));
    }

    /// The entries in insertion order, consuming the map.
    pub fn into_entries(self) -> (r: Vec<(String, V)>)
        ensures
            r@ == self.entry_seq(),
    {
        self.entries
    }

    /// Sets the value for `uri`, replacing the entry of an earlier value in place.
    pub fn insert(&mut self, uri: String, v: V)
        requires
            old(self).wf(),
        ensures
            final(self).wf(),
            final(self)@ == old(self)@.insert(uri@, v),
    {
        match self.position(&uri) {
            None => self.push_new(uri, v),
            Some(i) => {
                let ghost before = *self;
                let (key, _old_value) = self.entries.remove(i);
                self.entries.insert(i, (key, v));
                proof {
                    assert(self.entries@ =~= before.entries@.update(i as int, (key, v)));
                    before.lemma_replace(i as int, v, &*self);
                }
            },
        }
    }

    /// The values, one per URI, in insertion order.
    pub fn into_values(self) -> (r: Vec<V>)
        requires
            self.wf(),
        ensures
            values_of(self@, r@),
    {
        let ghost m = self@;
        proof {
            self.lemma_entries();
        }
        let ghost es = self.entries@;
        let mut entries = self.entries;
        let mut values: Vec<V> = Vec::new();
        let ghost keys: Seq<Seq<char>> = Seq::empty();
        while entries.len() > 0
            invariant
                entries@.len() + values@.len() == es.len(),
                entries@ == es.take(entries@.len() as int),
                values@.len() == keys.len(),
                forall|i: int| 0 <= i < keys.len() ==> #[trigger] keys[i] == es[es.len() - 1 - i].0@
                    && values@[i] == es[es.len() - 1 - i].1,
            decreases entries@.len(),
        {
            let (k, v) = entries.pop().unwrap();
            proof {
                keys = keys.push(k@);
            }
            values.push(v);
        }
        proof {
            assert forall|i: int, j: int| 0 <= i < keys.len() && 0 <= j < keys.len() && i != j implies keys[i] != keys[j] by {
                assert(keys[i] == es[es.len() - 1 - i].0@);
                assert(keys[j] == es[es.len() - 1 - j].0@);
            }
            assert(keys.to_set() =~= m.dom()) by {
                assert forall|k: Seq<char>| keys.to_set().contains(k) <==> m.dom().contains(k) by {
                    if keys.to_set().contains(k) {
                        let i = choose|i: int| 0 <= i < keys.len() && keys[i] == k;
                        assert(es[es.len() - 1 - i].0@ == k);
                    }
                    if m.dom().contains(k) {
                        let i = choose|i: int| 0 <= i < es.len() && #[trigger] es[i].0@ == k;
                        assert(keys[es.len() - 1 - i] == k);
                    }
                }
            }
            assert forall|i: int| 0 <= i < values@.len() implies values@[i] == m[keys[i]] by {
                assert(keys[i] == es[es.len() - 1 - i].0@);
            }
        }
        values
    }

    pub proof fn lemma_replace(&self, i: int, v: V, other: &Self)
        requires
            self.wf(),
            0 <= i < self.entry_seq().len(),
            other.entry_seq() == self.entry_seq().update(i, (self.entry_seq()[i].0, v)),
        ensures
            other.wf(),
            other@ == self@.insert(self.entry_seq()[i].0@, v),
    {
        lemma_entries_map_update(self.entries@, i, v);
    }
}

pub proof fn lemma_entries_map_len<V>(e: Seq<(String, V)>)
    requires
        distinct_keys(e),
    ensures
        entries_map(e).dom().finite(),
        entries_map(e).len() == e.len(),
    decreases e.len(),
{
    if e.len() > 0 {
        let d = e.drop_last();
        assert(distinct_keys(d)) by {
            assert forall|a: int, b: int|
                0 <= a < d.len() && 0 <= b < d.len() && a != b implies #[trigger] d[a].0@
                != #[trigger] d[b].0@ by {
                assert(d[a] == e[a] && d[b] == e[b]);
            }
        }
        lemma_entries_map_len(d);
        lemma_entries_map_dom(d, e.last().0@);
        if entries_map(d).contains_key(e.last().0@) {
            let i = choose|i: int| 0 <= i < d.len() && #[trigger] d[i].0@ == e.last().0@;
            assert(e[i].0@ == e[e.len() - 1].0@);
        }
    }
}

} // verus!
