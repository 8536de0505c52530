//! A table with at most one entry for each instrument.

use vstd::prelude::*;

use crate::symbol::Symbol;

verus! {

/// A table with at most one entry for each instrument.
pub struct BySymbol<V> {
    slots: Vec<Option<V>>,
}

impl<V> View for BySymbol<V> {
    type V = Map<Symbol, V>;

    closed spec fn view(&self) -> Map<Symbol, V> {
        Map::new(
            |s: Symbol| self.slots@[s.rank()] is Some,
            |s: Symbol| self.slots@[s.rank()].unwrap(),
        )
    }
}

impl<V> BySymbol<V> {
    #[verifier::type_invariant]
    spec fn complete(self) -> bool {
        self.slots@.len() == 4
    }

    /// A table without entries.
    pub fn new() -> (r: BySymbol<V>)
        ensures
            r@ == Map::<Symbol, V>::empty(),
    {
        let mut slots: Vec<Option<V>> = Vec::new();
        slots.push(None);
        slots.push(None);
        slots.push(None);
        slots.push(None);
        let r = BySymbol { slots };
        proof {
            assert(r@ =~= Map::<Symbol, V>::empty());
        }
        r
    }

    /// The entry for `symbol`.
    pub fn get(&self, symbol: Symbol) -> (r: Option<&V>)
        ensures
            r is Some <==> self@.contains_key(symbol),
            r matches Some(v) ==> *v == self@[symbol],
    {
        proof {
            use_type_invariant(&*self);
        }
        match &self.slots[symbol.index()] {
            Some(v) => Some(v),
            None => None,
        }
    }

    /// Whether there is an entry for `symbol`.
    pub fn contains(&self, symbol: Symbol) -> (r: bool)
        ensures
            r == self@.contains_key(symbol),
    {
        self.get(symbol).is_some()
    }

    /// Makes `value` the entry for `symbol`.
    pub fn set(&mut self, symbol: Symbol, value: V)
        ensures
            final(self)@ == old(self)@.insert(symbol, value),
    {
        proof {
            use_type_invariant(&*self);
        }
        let mut slots: Vec<Option<V>> = Vec::new();
        slots.push(None);
        slots.push(None);
        slots.push(None);
        slots.push(None);
        std::mem::swap(&mut slots, &mut self.slots);
        slots.set(symbol.index(), Some(value));
        self.slots = slots;
        proof {
            lemma_ranks();
            assert(self@ =~= old(self)@.insert(symbol, value));
        }
    }

    /// Takes the entry for `symbol` out of the table.
    pub fn take(&mut self, symbol: Symbol) -> (r: Option<V>)
        ensures
            final(self)@ == old(self)@.remove(symbol),
            r is Some <==> old(self)@.contains_key(symbol),
            r matches Some(v) ==> v == old(self)@[symbol],
    {
        proof {
            use_type_invariant(&*self);
        }
        let mut slots: Vec<Option<V>> = Vec::new();
        slots.push(None);
        slots.push(None);
        slots.push(None);
        slots.push(None);
        std::mem::swap(&mut slots, &mut self.slots);
        let i: usize = symbol.index();
        slots.push(None);
        let out = slots.swap_remove(i);
        self.slots = slots;
        proof {
            lemma_ranks();
            assert(self@ =~= old(self)@.remove(symbol));
        }
        out
    }
}

proof fn lemma_ranks()
    ensures
        forall|a: Symbol, b: Symbol| a != b ==> #[trigger] a.rank() != #[trigger] b.rank(),
        forall|a: Symbol| 0 <= #[trigger] a.rank() < 4,
{
}

} // verus!
