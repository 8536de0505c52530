//! The latest value of each venue and instrument.
//!
//! There are as many places as there are pairs of a venue and an instrument, and each value takes
//! the place of the one before it, so what is held does not grow with time.

use dashmap::DashMap;
use vstd::prelude::*;

use crate::symbol::{Dex, Symbol};

verus! {

/// The hash map of `dashmap`.
#[verifier::external_type_specification]
#[verifier::external_body]
#[verifier::reject_recursive_types(K)]
#[verifier::reject_recursive_types(V)]
#[verifier::reject_recursive_types(S)]
pub struct ExDashMap<K, V, S>(DashMap<K, V, S>);

/// What the map holds.
pub uninterp spec fn held(map: DashMap<u64, u64>) -> Map<u64, u64>;

/// `DashMap::new`: the map is empty.
#[verifier::external_body]
fn outside_new() -> (r: DashMap<u64, u64>)
    ensures
        held(r).dom() == Set::<u64>::empty(),
{
    DashMap::new()
}

/// `DashMap::insert`: the key has the value afterwards, whether or not it had one before, and
/// nothing else changes. The map is borrowed mutably though the function itself asks for less, so
/// that nothing else holds a reference into the map, on which it could wait for ever.
#[verifier::external_body]
fn outside_insert(map: &mut DashMap<u64, u64>, key: u64, value: u64)
    ensures
        held(*final(map)) == held(*old(map)).insert(key, value),
{
    map.insert(key, value);
}

/// `DashMap::get`: the value of the key, where it has one.
#[verifier::external_body]
fn outside_get(map: &DashMap<u64, u64>, key: u64) -> (r: Option<u64>)
    ensures
        r == if held(*map).contains_key(key) {
            Some(held(*map)[key])
        } else {
            None
        },
{
    map.get(&key).map(|entry| *entry)
}

/// `DashMap::len`: how many keys have a value.
#[verifier::external_body]
fn outside_len(map: &DashMap<u64, u64>) -> (r: usize)
    ensures
        r == held(*map).len(),
{
    map.len()
}

/// The number that stands for a venue and an instrument.
pub open spec fn code(key: (Dex, Symbol)) -> u64 {
    (key.0.rank() * 4 + key.1.rank()) as u64
}

/// The venue and the instrument that a number stands for.
spec fn decoded(n: u64) -> (Dex, Symbol) {
    choose|key: (Dex, Symbol)| code(key) == n
}

proof fn lemma_code(a: (Dex, Symbol), b: (Dex, Symbol))
    ensures
        code(a) == code(b) <==> a == b,
        decoded(code(a)) == a,
{
    let c = decoded(code(a));
    assert(code(c) == code(a));
}

/// No two venues and instruments have the same number.
pub proof fn lemma_code_is_unique(a: (Dex, Symbol), b: (Dex, Symbol))
    ensures
        code(a) == code(b) <==> a == b,
{
}

/// The number that stands for a venue and an instrument.
pub fn key_of(dex: Dex, symbol: Symbol) -> (r: u64)
    ensures
        r == code((dex, symbol)),
{
    (dex.index() * 4 + symbol.index()) as u64
}

/// The latest value of each venue and instrument.
pub struct Latest<V> {
    places: DashMap<u64, u64>,
    values: Vec<V>,
}

impl<V> View for Latest<V> {
    type V = Map<(Dex, Symbol), V>;

    closed spec fn view(&self) -> Map<(Dex, Symbol), V> {
        Map::new(
            |key: (Dex, Symbol)| held(self.places).contains_key(code(key)),
            |key: (Dex, Symbol)| self.values@[held(self.places)[code(key)] as int],
        )
    }
}

impl<V> Latest<V> {
    /// Whether every place is there, and no two keys share one.
    pub closed spec fn wf(self) -> bool {
        let held = held(self.places);
        &&& held.dom().finite()
        &&& forall|n: u64|
            #[trigger] held.contains_key(n) ==> held[n] < self.values@.len() && code(decoded(n))
                == n
        &&& forall|m: u64, n: u64|
            held.contains_key(m) && held.contains_key(n) && #[trigger] held[m]
                == #[trigger] held[n] ==> m == n
    }

    /// Without values.
    pub fn new() -> (r: Latest<V>)
        ensures
            r.wf(),
            r@ == Map::<(Dex, Symbol), V>::empty(),
    {
        let r = Latest { places: outside_new(), values: Vec::new() };
        proof {
            assert(r@ =~= Map::<(Dex, Symbol), V>::empty());
        }
        r
    }

    /// Makes `value` the latest of `dex` and `symbol`.
    pub fn set(&mut self, dex: Dex, symbol: Symbol, value: V)
        requires
            old(self).wf(),
        ensures
            final(self).wf(),
            final(self)@ == old(self)@.insert((dex, symbol), value),
    {
        let key: u64 = key_of(dex, symbol);
        proof {
            assert forall|k: (Dex, Symbol)|
                #[trigger] code(k) == key <==> k == (dex, symbol) by {
                lemma_code(k, (dex, symbol));
            }
            lemma_code((dex, symbol), (dex, symbol));
        }
        match outside_get(&self.places, key) {
            Some(place) => {
                let n: usize = self.values.len();
                assert(held(self.places).contains_key(key) && place < n);
                self.values.set(place as usize, value);
            },
            None => {
                let place: u64 = self.values.len() as u64;
                self.values.push(value);
                outside_insert(&mut self.places, key, place);
            },
        }
        proof {
            assert forall|k: (Dex, Symbol)| k != (dex, symbol) && old(self)@.contains_key(
                k,
            ) implies #[trigger] self@[k] == old(self)@[k] by {
                assert(code(k) != key);
                assert(held(old(self).places).contains_key(code(k)));
                assert(held(self.places)[code(k)] == held(old(self).places)[code(k)]);
            }
            assert(self@ =~= old(self)@.insert((dex, symbol), value));
        }
    }

    /// The latest value of `dex` and `symbol`.
    pub fn get(&self, dex: Dex, symbol: Symbol) -> (r: Option<&V>)
        requires
            self.wf(),
        ensures
            r is Some <==> self@.contains_key((dex, symbol)),
            r matches Some(v) ==> *v == self@[(dex, symbol)],
    {
        let key: u64 = key_of(dex, symbol);
        match outside_get(&self.places, key) {
            Some(place) => {
                let n: usize = self.values.len();
                assert(held(self.places).contains_key(code((dex, symbol))) && place < n);
                Some(&self.values[place as usize])
            },
            None => None,
        }
    }

    /// How many pairs of a venue and an instrument have a value: never more than there are pairs.
    pub fn len(&self) -> (r: usize)
        requires
            self.wf(),
        ensures
            r == self@.len(),
            r <= 20,
    {
        proof {
            self.lemma_bounded();
            let numbers = held(self.places).dom();
            let keys = self@.dom();
            let f = |n: u64| decoded(n);
            assert(vstd::relations::injective_on(f, numbers)) by {
                assert forall|m: u64, n: u64|
                    numbers.contains(m) && numbers.contains(n) && #[trigger] f(m)
                        == #[trigger] f(n) implies m == n by {
                    assert(held(self.places).contains_key(m) && held(self.places).contains_key(n));
                }
            }
            assert forall|k: (Dex, Symbol)| #[trigger] keys.contains(k) implies numbers.map(
                f,
            ).contains(k) by {
                lemma_code(k, k);
                assert(numbers.contains(code(k)) && f(code(k)) == k);
            }
            assert forall|k: (Dex, Symbol)| #[trigger] numbers.map(f).contains(
                k,
            ) implies keys.contains(k) by {
                let n = choose|n: u64| numbers.contains(n) && f(n) == k;
                assert(held(self.places).contains_key(n));
                assert(code(k) == n);
            }
            assert(numbers.map(f) =~= keys);
            vstd::set_lib::lemma_map_size(numbers, keys, f);
        }
        outside_len(&self.places)
    }

    proof fn lemma_bounded(self)
        requires
            self.wf(),
        ensures
            held(self.places).len() <= 20,
    {
        let numbers = held(self.places).dom();
        let f = |n: u64| n as int;
        let all = vstd::set_lib::set_int_range(0, 20);
        assert forall|n: int| #[trigger] numbers.map(f).contains(n) implies all.contains(n) by {
            let m = choose|m: u64| numbers.contains(m) && f(m) == n;
            assert(held(self.places).contains_key(m));
            assert(code(decoded(m)) == m);
        }
        vstd::set_lib::lemma_int_range(0, 20);
        vstd::set_lib::lemma_map_size(numbers, numbers.map(f), f);
        vstd::set_lib::lemma_len_subset(numbers.map(f), all);
    }
}

} // verus!
