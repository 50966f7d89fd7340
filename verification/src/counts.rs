use vstd::prelude::*;

use crate::address::Address;

verus! {

/// A key that can be compared at run time in agreement with its view.
pub trait CountKey: View + Copy {
    fn same_key(&self, other: &Self) -> (r: bool)
        ensures
            r == (self@ == other@),
    ;
}

impl CountKey for Address {
    fn same_key(&self, other: &Self) -> (r: bool) {
        self.same_as(other)
    }
}

/// The key of the per-drop counters: a drop number and an address.
#[derive(Clone, Copy, Debug, PartialEq, Eq)]
pub struct DropKey {
    pub drop: u16,
    pub address: Address,
}

impl View for DropKey {
    type V = (u16, Seq<u8>);

    open spec fn view(&self) -> (u16, Seq<u8>) {
        (self.drop, self.address@)
    }
}

impl CountKey for DropKey {
    fn same_key(&self, other: &Self) -> (r: bool) {
        self.drop == other.drop && self.address.same_as(&other.address)
    }
}

/// The value a counter map gives for a key: what was stored, or zero.
pub open spec fn count_or_zero<K>(m: Map<K, u32>, k: K) -> u32 {
    if m.dom().contains(k) {
        m[k]
    } else {
        0
    }
}

/// The map that a list of `(key, counter)` pairs describes; a later pair for a key wins.
pub open spec fn pairs_to_map<K>(pairs: Seq<(K, u32)>) -> Map<K, u32>
    decreases pairs.len(),
{
    if pairs.len() == 0 {
        Map::empty()
    } else {
        pairs_to_map(pairs.drop_last()).insert(pairs.last().0, pairs.last().1)
    }
}

/// No key occurs twice in a list of pairs.
pub open spec fn keys_distinct<K>(pairs: Seq<(K, u32)>) -> bool {
    forall|i: int, j: int| #![trigger pairs[i], pairs[j]] 0 <= i < j < pairs.len() ==> pairs[i].0 != pairs[j].0
}

/// The pairs of a list of entries, keys taken by their view.
pub open spec fn entries_model<K: View>(entries: Seq<(K, u32)>) -> Seq<(K::V, u32)> {
    entries.map_values(|e: (K, u32)| (e.0@, e.1))
}

/// The keys of a pair list are the keys of its map; without repeated keys each pair is in it.
pub proof fn lemma_pairs_to_map<K>(pairs: Seq<(K, u32)>)
    ensures
        forall|k: K| #[trigger] pairs_to_map(pairs).dom().contains(k) <==> exists|i: int|
            0 <= i < pairs.len() && pairs[i].0 == k,
        keys_distinct(pairs) ==> forall|i: int|
            0 <= i < pairs.len() ==> #[trigger] pairs_to_map(pairs)[pairs[i].0] == pairs[i].1,
    decreases pairs.len(),
{
    if pairs.len() > 0 {
        let front = pairs.drop_last();
        lemma_pairs_to_map(front);
        let n = pairs.len();
        assert forall|k: K| #[trigger] pairs_to_map(pairs).dom().contains(k) <==> exists|i: int|
            0 <= i < pairs.len() && pairs[i].0 == k by {
            if pairs_to_map(front).dom().contains(k) {
                let i = choose|i: int| 0 <= i < front.len() && front[i].0 == k;
                assert(pairs[i].0 == k);
            }
            if exists|i: int| 0 <= i < pairs.len() && pairs[i].0 == k {
                let i = choose|i: int| 0 <= i < pairs.len() && pairs[i].0 == k;
                if i < n - 1 {
                    assert(front[i].0 == k);
                }
            }
        }
        if keys_distinct(pairs) {
            assert forall|i: int, j: int| 0 <= i < j < front.len() implies front[i].0 != front[j].0 by {
                assert(pairs[i] == front[i] && pairs[j] == front[j]);
            }
            assert(keys_distinct(front));
            assert forall|i: int| 0 <= i < pairs.len() implies #[trigger] pairs_to_map(pairs)[pairs[i].0]
                == pairs[i].1 by {
                assert(pairs_to_map(pairs) == pairs_to_map(front).insert(pairs[n - 1].0, pairs[n - 1].1));
                if i < n - 1 {
                    assert(pairs[i].0 != pairs[n - 1].0);
                    assert(front[i] == pairs[i]);
                    assert(pairs_to_map(front)[front[i].0] == front[i].1);
                }
            }
        }
    }
}

/// A map from keys to `u32` counters in which a missing key reads as zero.
pub struct CountMap<K: View> {
    entries: Vec<(K, u32)>,
    model: Ghost<Map<K::V, u32>>,
}

impl<K: CountKey> CountMap<K> {
    /// The stored counters as a mathematical map.
    pub closed spec fn map(&self) -> Map<K::V, u32> {
        self.model@
    }

    /// Every stored key occurs once, and the entries list exactly the map.
    pub closed spec fn well_formed(&self) -> bool {
        &&& forall|i: int|
            #![trigger self.entries@[i]]
            0 <= i < self.entries@.len() ==> {
                &&& self.model@.dom().contains(self.entries@[i].0@)
                &&& self.model@[self.entries@[i].0@] == self.entries@[i].1
            }
        &&& forall|k: K::V|
            #![trigger self.model@.dom().contains(k)]
            self.model@.dom().contains(k) ==> exists|i: int|
                0 <= i < self.entries@.len() && #[trigger] self.entries@[i].0@ == k
        &&& forall|i: int, j: int|
            0 <= i < j < self.entries@.len() ==> #[trigger] self.entries@[i].0@
                != #[trigger] self.entries@[j].0@
    }

    pub fn new() -> (r: Self)
        ensures
            r.well_formed(),
            r.map() == Map::<K::V, u32>::empty(),
    {
        CountMap { entries: Vec::new(), model: Ghost(Map::empty()) }
    }

    /// Position of the entry for `k`, if there is one.
    fn find(&self, k: &K) -> (r: Option<usize>)
        requires
            self.well_formed(),
        ensures
            match r {
                Some(i) => i < self.entries@.len() && self.entries@[i as int].0@ == k@,
                None => !self.map().dom().contains(k@),
            },
    {
        let mut i: usize = 0;
        while i < self.entries.len()
            invariant
                self.well_formed(),
                i <= self.entries@.len(),
                forall|j: int| 0 <= j < i ==> #[trigger] self.entries@[j].0@ != k@,
            decreases self.entries@.len() - i,
        {
            if self.entries[i].0.same_key(k) {
                return Some(i);
            }
            i = i + 1;
        }
        proof {
            if self.map().dom().contains(k@) {
                let j = choose|j: int| 0 <= j < self.entries@.len() && #[trigger] self.entries@[j].0@ == k@;
                assert(self.entries@[j].0@ != k@);
            }
        }
        None
    }

    /// The counter for `k` (zero when absent).
    pub fn get(&self, k: &K) -> (r: u32)
        requires
            self.well_formed(),
        ensures
            r == count_or_zero(self.map(), k@),
    {
        match self.find(k) {
            Some(i) => {
                assert(self.map().dom().contains(self.entries@[i as int].0@));
                self.entries[i].1
            },
            None => 0,
        }
    }

    /// The map of the given `(key, counter)` pairs; a later pair for a key wins.
    pub fn from_entries(entries: &Vec<(K, u32)>) -> (r: Self)
        ensures
            r.well_formed(),
            r.map() == pairs_to_map(entries_model(entries@)),
    {
        let mut r = Self::new();
        let ghost model = entries_model(entries@);
        let mut i: usize = 0;
        while i < entries.len()
            invariant
                r.well_formed(),
                i <= entries@.len(),
                model == entries_model(entries@),
                r.map() == pairs_to_map(model.take(i as int)),
            decreases entries@.len() - i,
        {
            let (k, v) = entries[i];
            r.set(k, v);
            assert(model.take(i + 1).drop_last() =~= model.take(i as int));
            i = i + 1;
        }
        assert(model.take(entries@.len() as int) =~= model);
        r
    }

    /// The stored `(key, counter)` pairs, each key once.
    pub fn entries(&self) -> (r: Vec<(K, u32)>)
        requires
            self.well_formed(),
        ensures
            pairs_to_map(entries_model(r@)) == self.map(),
    {
        let mut r: Vec<(K, u32)> = Vec::new();
        let mut i: usize = 0;
        while i < self.entries.len()
            invariant
                self.well_formed(),
                i <= self.entries@.len(),
                r@ == self.entries@.take(i as int),
            decreases self.entries@.len() - i,
        {
            r.push(self.entries[i]);
            i = i + 1;
            assert(r@ =~= self.entries@.take(i as int));
        }
        assert(r@ =~= self.entries@);
        let ghost pairs = entries_model(r@);
        proof {
            lemma_pairs_to_map(pairs);
            assert forall|a: int, b: int| 0 <= a < b < pairs.len() implies pairs[a].0 != pairs[b].0 by {
                assert(self.entries@[a].0@ != self.entries@[b].0@);
            }
            assert(keys_distinct(pairs));
            assert forall|k: K::V| #[trigger] pairs_to_map(pairs).dom().contains(k) <==> self.map().dom().contains(k) by {
                if self.map().dom().contains(k) {
                    let i = choose|i: int| 0 <= i < self.entries@.len() && #[trigger] self.entries@[i].0@ == k;
                    assert(pairs[i].0 == k);
                }
                if pairs_to_map(pairs).dom().contains(k) {
                    let i = choose|i: int| 0 <= i < pairs.len() && pairs[i].0 == k;
                    assert(self.entries@[i].0@ == k);
                }
            }
            assert forall|k: K::V| #[trigger] pairs_to_map(pairs).dom().contains(k) implies pairs_to_map(pairs)[k]
                == self.map()[k] by {
                let i = choose|i: int| 0 <= i < pairs.len() && pairs[i].0 == k;
                assert(pairs_to_map(pairs)[pairs[i].0] == pairs[i].1);
                assert(self.entries@[i].0@ == k);
            }
            assert(pairs_to_map(pairs) =~= self.map());
        }
        r
    }

    /// Stores `v` as the counter for `k`.
    pub fn set(&mut self, k: K, v: u32)
        requires
            old(self).well_formed(),
        ensures
            final(self).well_formed(),
            final(self).map() == old(self).map().insert(k@, v),
    {
        let ghost old_entries = self.entries@;
        let ghost old_map = self.model@;
        match self.find(&k) {
            Some(i) => {
                self.entries.set(i, (k, v));
                self.model = Ghost(old_map.insert(k@, v));
                assert forall|kk: K::V| #[trigger] self.model@.dom().contains(kk) implies exists|ii: int|
                    0 <= ii < self.entries@.len() && #[trigger] self.entries@[ii].0@ == kk by {
                    if kk != k@ {
                        let jj = choose|jj: int| 0 <= jj < old_entries.len() && #[trigger] old_entries[jj].0@ == kk;
                        assert(self.entries@[jj].0@ == kk);
                    } else {
                        assert(self.entries@[i as int].0@ == kk);
                    }
                }
                assert forall|a: int, b: int|
                    0 <= a < b < self.entries@.len() implies #[trigger] self.entries@[a].0@
                        != #[trigger] self.entries@[b].0@ by {
                    assert(old_entries[a].0@ != old_entries[b].0@);
                }
            },
            None => {
                self.entries.push((k, v));
                self.model = Ghost(old_map.insert(k@, v));
                assert forall|kk: K::V| #[trigger] self.model@.dom().contains(kk) implies exists|ii: int|
                    0 <= ii < self.entries@.len() && #[trigger] self.entries@[ii].0@ == kk by {
                    if kk != k@ {
                        let jj = choose|jj: int| 0 <= jj < old_entries.len() && #[trigger] old_entries[jj].0@ == kk;
                        assert(self.entries@[jj].0@ == kk);
                    } else {
                        assert(self.entries@[old_entries.len() as int].0@ == kk);
                    }
                }
                assert forall|a: int, b: int|
                    0 <= a < b < self.entries@.len() implies #[trigger] self.entries@[a].0@
                        != #[trigger] self.entries@[b].0@ by {
                    if b == old_entries.len() {
                        assert(old_map.dom().contains(old_entries[a].0@));
                    } else {
                        assert(old_entries[a].0@ != old_entries[b].0@);
                    }
                }
            },
        }
    }
}

impl CountMap<DropKey> {
    /// Whether every counter belongs to a drop numbered at most `last`.
    pub fn drops_at_most(&self, last: u16) -> (r: bool)
        requires
            self.well_formed(),
        ensures
            r == forall|k: (u16, Seq<u8>)|
                #![trigger self.map().dom().contains(k)]
                self.map().dom().contains(k) ==> k.0 <= last,
    {
        let mut i: usize = 0;
        while i < self.entries.len()
            invariant
                self.well_formed(),
                i <= self.entries@.len(),
                forall|j: int| 0 <= j < i ==> (#[trigger] self.entries@[j]).0.drop <= last,
            decreases self.entries@.len() - i,
        {
            if self.entries[i].0.drop > last {
                assert(self.map().dom().contains(self.entries@[i as int].0@));
                return false;
            }
            i = i + 1;
        }
        assert forall|k: (u16, Seq<u8>)| #[trigger] self.map().dom().contains(k) implies k.0 <= last by {
            let j = choose|j: int| 0 <= j < self.entries@.len() && #[trigger] self.entries@[j].0@ == k;
            assert(self.entries@[j].0.drop <= last);
        }
        true
    }
}

} // verus!
