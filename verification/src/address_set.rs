use vstd::prelude::*;

use crate::address::Address;

verus! {

/// A set of addresses without repetitions, like the allowlist of the minter.
pub struct AddressSet {
    items: Vec<Address>,
    model: Ghost<Set<Seq<u8>>>,
}

impl AddressSet {
    /// The addresses held, as a mathematical set.
    pub closed spec fn set(&self) -> Set<Seq<u8>> {
        self.model@
    }

    pub closed spec fn well_formed(&self) -> bool {
        &&& self.model@.finite()
        &&& self.model@.len() == self.items@.len()
        &&& forall|i: int|
            #![trigger self.items@[i]]
            0 <= i < self.items@.len() ==> self.model@.contains(self.items@[i]@)
        &&& forall|a: Seq<u8>|
            #![trigger self.model@.contains(a)]
            self.model@.contains(a) ==> exists|i: int|
                0 <= i < self.items@.len() && #[trigger] self.items@[i]@ == a
        &&& forall|i: int, j: int|
            0 <= i < j < self.items@.len() ==> #[trigger] self.items@[i]@ != #[trigger] self.items@[j]@
    }

    pub fn new() -> (r: Self)
        ensures
            r.well_formed(),
            r.set() == Set::<Seq<u8>>::empty(),
    {
        AddressSet { items: Vec::new(), model: Ghost(Set::empty()) }
    }

    fn find(&self, a: &Address) -> (r: Option<usize>)
        requires
            self.well_formed(),
        ensures
            match r {
                Some(i) => i < self.items@.len() && self.items@[i as int]@ == a@,
                None => !self.set().contains(a@),
            },
    {
        let mut i: usize = 0;
        while i < self.items.len()
            invariant
                self.well_formed(),
                i <= self.items@.len(),
                forall|j: int| 0 <= j < i ==> #[trigger] self.items@[j]@ != a@,
            decreases self.items@.len() - i,
        {
            if self.items[i].same_as(a) {
                return Some(i);
            }
            i = i + 1;
        }
        proof {
            if self.set().contains(a@) {
                let j = choose|j: int| 0 <= j < self.items@.len() && #[trigger] self.items@[j]@ == a@;
                assert(self.items@[j]@ != a@);
            }
        }
        None
    }

    /// Whether `a` belongs to the set.
    pub fn contains(&self, a: &Address) -> (r: bool)
        requires
            self.well_formed(),
        ensures
            r == self.set().contains(a@),
    {
        match self.find(a) {
            Some(i) => {
                assert(self.set().contains(self.items@[i as int]@));
                true
            },
            None => false,
        }
    }

    /// Number of addresses in the set.
    pub fn len(&self) -> (r: usize)
        requires
            self.well_formed(),
        ensures
            r == self.set().len(),
    {
        self.items.len()
    }

    /// Adds `a`; returns whether it was new.
    pub fn insert(&mut self, a: Address) -> (r: bool)
        requires
            old(self).well_formed(),
        ensures
            final(self).well_formed(),
            final(self).set() == old(self).set().insert(a@),
            r == !old(self).set().contains(a@),
    {
        let ghost old_items = self.items@;
        let ghost old_set = self.model@;
        match self.find(&a) {
            Some(i) => {
                assert(old_set.contains(old_items[i as int]@));
                assert(old_set.insert(a@) =~= old_set);
                false
            },
            None => {
                self.items.push(a);
                self.model = Ghost(old_set.insert(a@));
                assert forall|x: Seq<u8>| #[trigger] self.model@.contains(x) implies exists|ii: int|
                    0 <= ii < self.items@.len() && #[trigger] self.items@[ii]@ == x by {
                    if x != a@ {
                        let jj = choose|jj: int| 0 <= jj < old_items.len() && #[trigger] old_items[jj]@ == x;
                        assert(self.items@[jj]@ == x);
                    } else {
                        assert(self.items@[old_items.len() as int]@ == x);
                    }
                }
                assert forall|p: int, q: int|
                    0 <= p < q < self.items@.len() implies #[trigger] self.items@[p]@
                        != #[trigger] self.items@[q]@ by {
                    if q == old_items.len() {
                        assert(old_set.contains(old_items[p]@));
                    } else {
                        assert(old_items[p]@ != old_items[q]@);
                    }
                }
                true
            },
        }
    }

    /// Removes `a` if present; returns whether it was present.
    pub fn remove(&mut self, a: &Address) -> (r: bool)
        requires
            old(self).well_formed(),
        ensures
            final(self).well_formed(),
            final(self).set() == old(self).set().remove(a@),
            r == old(self).set().contains(a@),
    {
        let ghost old_items = self.items@;
        let ghost old_set = self.model@;
        match self.find(a) {
            Some(i) => {
                assert(old_set.contains(old_items[i as int]@));
                self.items.remove(i);
                self.model = Ghost(old_set.remove(a@));
                assert forall|k: int|
                    #![trigger self.items@[k]]
                    0 <= k < self.items@.len() implies self.model@.contains(self.items@[k]@) by {
                    if k < i {
                        assert(old_items[k]@ != old_items[i as int]@);
                    } else {
                        assert(self.items@[k] == old_items[k + 1]);
                        assert(old_items[i as int]@ != old_items[k + 1]@);
                    }
                }
                assert forall|x: Seq<u8>| #[trigger] self.model@.contains(x) implies exists|ii: int|
                    0 <= ii < self.items@.len() && #[trigger] self.items@[ii]@ == x by {
                    let jj = choose|jj: int| 0 <= jj < old_items.len() && #[trigger] old_items[jj]@ == x;
                    if jj < i {
                        assert(self.items@[jj]@ == x);
                    } else {
                        assert(jj != i);
                        assert(self.items@[jj - 1]@ == x);
                    }
                }
                assert forall|p: int, q: int|
                    0 <= p < q < self.items@.len() implies #[trigger] self.items@[p]@
                        != #[trigger] self.items@[q]@ by {
                    let pp = if p < i { p } else { p + 1 };
                    let qq = if q < i { q } else { q + 1 };
                    assert(self.items@[p] == old_items[pp]);
                    assert(self.items@[q] == old_items[qq]);
                    assert(old_items[pp]@ != old_items[qq]@);
                }
                true
            },
            None => {
                assert(old_set.remove(a@) =~= old_set);
                false
            },
        }
    }

    /// The set of the given addresses.
    pub fn from_items(items: &Vec<Address>) -> (r: Self)
        ensures
            r.well_formed(),
            r.set() == items@.map_values(|a: Address| a@).to_set(),
    {
        let mut r = Self::new();
        let ghost model = items@.map_values(|a: Address| a@);
        let mut i: usize = 0;
        while i < items.len()
            invariant
                r.well_formed(),
                i <= items@.len(),
                model == items@.map_values(|a: Address| a@),
                r.set() == model.take(i as int).to_set(),
            decreases items@.len() - i,
        {
            let _ = r.insert(items[i]);
            proof {
                let before = model.take(i as int);
                let after = model.take(i + 1);
                assert(after =~= before.push(model[i as int]));
                assert forall|x: Seq<u8>| after.to_set().contains(x) <==> before.to_set().insert(model[i as int]).contains(x) by {
                    if after.contains(x) {
                        let k = choose|k: int| 0 <= k < after.len() && after[k] == x;
                        if k < i {
                            assert(before[k] == x);
                        }
                    }
                    if before.contains(x) {
                        let k = choose|k: int| 0 <= k < before.len() && before[k] == x;
                        assert(after[k] == x);
                    }
                    if x == model[i as int] {
                        assert(after[i as int] == x);
                    }
                }
                assert(after.to_set() =~= before.to_set().insert(model[i as int]));
            }
            i = i + 1;
        }
        assert(model.take(items@.len() as int) =~= model);
        r
    }

    /// The addresses of the set, each once.
    pub fn items(&self) -> (r: Vec<Address>)
        requires
            self.well_formed(),
        ensures
            r@.map_values(|a: Address| a@).to_set() == self.set(),
            r@.len() == self.set().len(),
    {
        let mut r: Vec<Address> = Vec::new();
        let mut i: usize = 0;
        while i < self.items.len()
            invariant
                self.well_formed(),
                i <= self.items@.len(),
                r@ == self.items@.take(i as int),
            decreases self.items@.len() - i,
        {
            r.push(self.items[i]);
            i = i + 1;
            assert(r@ =~= self.items@.take(i as int));
        }
        assert(r@ =~= self.items@);
        let ghost model = r@.map_values(|a: Address| a@);
        assert forall|x: Seq<u8>| model.to_set().contains(x) <==> self.set().contains(x) by {
            if model.contains(x) {
                let k = choose|k: int| 0 <= k < model.len() && model[k] == x;
                assert(self.items@[k]@ == x);
            }
            if self.set().contains(x) {
                let k = choose|k: int| 0 <= k < self.items@.len() && #[trigger] self.items@[k]@ == x;
                assert(model[k] == x);
            }
        }
        assert(model.to_set() =~= self.set());
        r
    }

    /// Removes every address.
    pub fn clear(&mut self)
        ensures
            final(self).well_formed(),
            final(self).set() == Set::<Seq<u8>>::empty(),
    {
        self.items = Vec::new();
        self.model = Ghost(Set::empty());
    }
}

} // verus!
