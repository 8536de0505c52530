//! A table with at most one entry for each venue.

use vstd::prelude::*;

use crate::symbol::Dex;

verus! {

/// A table with at most one entry for each venue.
pub struct ByDex<V> {
    slots: Vec<Option<V>>,
}

impl<V> View for ByDex<V> {
    type V = Map<Dex, V>;

    closed spec fn view(&self) -> Map<Dex, V> {
        Map::new(
            |s: Dex| self.slots@[s.rank()] is Some,
            |s: Dex| self.slots@[s.rank()].unwrap(),
        )
    }
}

impl<V> ByDex<V> {
    #[verifier::type_invariant]
    spec fn complete(self) -> bool {
        self.slots@.len() == 5
    }

    /// A table without entries.
    pub fn new() -> (r: ByDex<V>)
        ensures
            r@ == Map::<Dex, V>::empty(),
    {
        let mut slots: Vec<Option<V>> = Vec::new();
        slots.push(None);
        slots.push(None);
        slots.push(None);
        slots.push(None);
        slots.push(None);
        let r = ByDex { slots };
        proof {
            assert(r@ =~= Map::<Dex, V>::empty());
        }
        r
    }

    /// The entry for `dex`.
    pub fn get(&self, dex: Dex) -> (r: Option<&V>)
        ensures
            r is Some <==> self@.contains_key(dex),
            r matches Some(v) ==> *v == self@[dex],
    {
        proof {
            use_type_invariant(&*self);
        }
        match &self.slots[dex.index()] {
            Some(v) => Some(v),
            None => None,
        }
    }

    /// Whether there is an entry for `dex`.
    pub fn contains(&self, dex: Dex) -> (r: bool)
        ensures
            r == self@.contains_key(dex),
    {
        self.get(dex).is_some()
    }

    /// Makes `value` the entry for `dex`.
    pub fn set(&mut self, dex: Dex, value: V)
        ensures
            final(self)@ == old(self)@.insert(dex, value),
    {
        proof {
            use_type_invariant(&*self);
        }
        let mut slots: Vec<Option<V>> = Vec::new();
        slots.push(None);
        slots.push(None);
        slots.push(None);
        slots.push(None);
        slots.push(None);
        std::mem::swap(&mut slots, &mut self.slots);
        slots.set(dex.index(), Some(value));
        self.slots = slots;
        proof {
            lemma_ranks();
            assert(self@ =~= old(self)@.insert(dex, value));
        }
    }

    /// Whether there is no entry.
    pub fn is_empty(&self) -> (r: bool)
        ensures
            r == (self@ == Map::<Dex, V>::empty()),
    {
        proof {
            use_type_invariant(&*self);
            lemma_ranks();
        }
        let r = self.slots[0].is_none() && self.slots[1].is_none() && self.slots[2].is_none()
            && self.slots[3].is_none() && self.slots[4].is_none();
        proof {
            if r {
                assert(self@ =~= Map::<Dex, V>::empty());
            } else {
                let i = if self.slots@[0] is Some {
                    Dex::Hyperliquid
                } else if self.slots@[1] is Some {
                    Dex::EdgeX
                } else if self.slots@[2] is Some {
                    Dex::Aster
                } else if self.slots@[3] is Some {
                    Dex::Lighter
                } else {
                    Dex::Dydx
                };
                assert(self@.contains_key(i));
            }
        }
        r
    }
}

proof fn lemma_ranks()
    ensures
        forall|a: Dex, b: Dex| a != b ==> #[trigger] a.rank() != #[trigger] b.rank(),
        forall|a: Dex| 0 <= #[trigger] a.rank() < 5,
{
}

} // verus!
