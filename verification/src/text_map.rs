//! A table with at most one entry for each text.

use vstd::prelude::*;

use crate::text;

verus! {

/// A table with at most one entry for each text.
pub struct TextMap<V> {
    entries: Vec<(String, V)>,
}

/// Whether the entry at place `i` is the one for `key`.
spec fn found_at<V>(entries: Seq<(String, V)>, key: Seq<char>, i: int) -> bool {
    0 <= i < entries.len() && entries[i].0@ == key
}

/// Whether no two entries are for the same text.
spec fn distinct<V>(entries: Seq<(String, V)>) -> bool {
    forall|i: int, j: int|
        0 <= i < j < entries.len() ==> (#[trigger] entries[i]).0@ != (#[trigger] entries[j]).0@
}

spec fn contents<V>(entries: Seq<(String, V)>) -> Map<Seq<char>, V> {
    Map::new(
        |key: Seq<char>| exists|i: int| found_at(entries, key, i),
        |key: Seq<char>| entries[choose|i: int| found_at(entries, key, i)].1,
    )
}

impl<V> View for TextMap<V> {
    type V = Map<Seq<char>, V>;

    closed spec fn view(&self) -> Map<Seq<char>, V> {
        contents(self.entries@)
    }
}

proof fn lemma_found<V>(entries: Seq<(String, V)>, key: Seq<char>, i: int)
    requires
        distinct(entries),
        found_at(entries, key, i),
    ensures
        contents(entries).contains_key(key),
        contents(entries)[key] == entries[i].1,
{
    let c = choose|c: int| found_at(entries, key, c);
    if c < i {
        assert(entries[c].0@ != entries[i].0@);
    }
    if i < c {
        assert(entries[i].0@ != entries[c].0@);
    }
}

proof fn lemma_set<V>(before: Seq<(String, V)>, after: Seq<(String, V)>, at: int)
    requires
        distinct(before),
        0 <= at <= before.len(),
        at == before.len() ==> after.len() == before.len() + 1 && !contents(before).contains_key(
            after[at].0@,
        ),
        at < before.len() ==> after.len() == before.len() && after[at].0@ == before[at].0@,
        forall|i: int| 0 <= i < before.len() && i != at ==> #[trigger] after[i] == before[i],
    ensures
        distinct(after),
        contents(after) == contents(before).insert(after[at].0@, after[at].1),
{
    assert(distinct(after)) by {
        assert forall|i: int, j: int| 0 <= i < j < after.len() implies (#[trigger] after[i]).0@ != (
        #[trigger] after[j]).0@ by {
            if j == before.len() {
                if after[i].0@ == after[j].0@ {
                    assert(found_at(before, after[j].0@, i));
                }
            } else {
                assert(before[i].0@ != before[j].0@);
            }
        }
    }
    let key = after[at].0@;
    let m = contents(before).insert(key, after[at].1);
    assert(found_at(after, key, at));
    lemma_found(after, key, at);
    assert forall|k: Seq<char>| contents(after).contains_key(k) == m.contains_key(k) by {
        if k != key {
            if contents(after).contains_key(k) {
                let i = choose|i: int| found_at(after, k, i);
                assert(found_at(before, k, i));
            }
            if contents(before).contains_key(k) {
                let i = choose|i: int| found_at(before, k, i);
                assert(found_at(after, k, i));
            }
        }
    }
    assert forall|k: Seq<char>| #[trigger] contents(after).contains_key(k) implies contents(after)[k]
        == m[k] by {
        if k != key {
            let i = choose|i: int| found_at(after, k, i);
            assert(found_at(before, k, i));
            lemma_found(before, k, i);
            lemma_found(after, k, i);
        }
    }
    assert(contents(after) =~= m);
}

proof fn lemma_take<V>(before: Seq<(String, V)>, at: int)
    requires
        distinct(before),
        0 <= at < before.len(),
    ensures
        distinct(before.remove(at)),
        contents(before.remove(at)) == contents(before).remove(before[at].0@),
{
    let after = before.remove(at);
    let key = before[at].0@;
    let m = contents(before).remove(key);
    assert forall|i: int, j: int| 0 <= i < j < after.len() implies (#[trigger] after[i]).0@ != (
    #[trigger] after[j]).0@ by {
        let a = if i < at { i } else { i + 1 };
        let b = if j < at { j } else { j + 1 };
        assert(after[i] == before[a] && after[j] == before[b]);
    }
    assert forall|k: Seq<char>| #[trigger] contents(after).contains_key(k) implies m.contains_key(k)
        && contents(after)[k] == m[k] by {
        let i = choose|i: int| found_at(after, k, i);
        let a = if i < at { i } else { i + 1 };
        assert(after[i] == before[a]);
        assert(found_at(before, k, a));
        lemma_found(before, k, a);
        lemma_found(after, k, i);
        if k == key {
            assert(before[a].0@ == before[at].0@);
        }
    }
    assert forall|k: Seq<char>| #[trigger] m.contains_key(k) implies contents(after).contains_key(
        k,
    ) by {
        let a = choose|a: int| found_at(before, k, a);
        let i = if a < at { a } else { a - 1 };
        assert(after[i] == before[a]);
        assert(found_at(after, k, i));
    }
    assert(contents(after) =~= m);
}

impl<V> TextMap<V> {
    #[verifier::type_invariant]
    spec fn no_duplicates(self) -> bool {
        distinct(self.entries@)
    }

    /// A table without entries.
    pub fn new() -> (r: TextMap<V>)
        ensures
            r@ == Map::<Seq<char>, V>::empty(),
    {
        let r = TextMap { entries: Vec::new() };
        proof {
            assert(r@ =~= Map::<Seq<char>, V>::empty());
        }
        r
    }

    fn place(&self, key: &str) -> (r: usize)
        ensures
            r <= self.entries@.len(),
            r < self.entries@.len() ==> found_at(self.entries@, key@, r as int),
            r == self.entries@.len() ==> !self@.contains_key(key@),
    {
        let n: usize = self.entries.len();
        let mut i: usize = 0;
        while i < n
            invariant
                i <= n,
                n == self.entries@.len(),
                forall|j: int| 0 <= j < i ==> !found_at(self.entries@, key@, j),
            decreases n - i,
        {
            if text::same_text(self.entries[i].0.as_str(), key) {
                return i;
            }
            i += 1;
        }
        n
    }

    /// The entry for `key`.
    pub fn get(&self, key: &str) -> (r: Option<&V>)
        ensures
            r is Some <==> self@.contains_key(key@),
            r matches Some(v) ==> *v == self@[key@],
    {
        let at: usize = self.place(key);
        proof {
            use_type_invariant(&*self);
            if at < self.entries@.len() {
                lemma_found(self.entries@, key@, at as int);
            }
        }
        if at < self.entries.len() {
            Some(&self.entries[at].1)
        } else {
            None
        }
    }

    /// Makes `value` the entry for `key`.
    pub fn set(&mut self, key: &str, value: V)
        ensures
            final(self)@ == old(self)@.insert(key@, value),
    {
        let at: usize = self.place(key);
        proof {
            use_type_invariant(&*self);
        }
        let mut entries: Vec<(String, V)> = Vec::new();
        std::mem::swap(&mut entries, &mut self.entries);
        let entry = (key.to_owned(), value);
        if at < entries.len() {
            entries.set(at, entry);
        } else {
            entries.push(entry);
        }
        proof {
            lemma_set(old(self).entries@, entries@, at as int);
        }
        self.entries = entries;
    }

    /// Takes the entry for `key` out of the table.
    pub fn take(&mut self, key: &str) -> (r: Option<V>)
        ensures
            final(self)@ == old(self)@.remove(key@),
            r is Some <==> old(self)@.contains_key(key@),
            r matches Some(v) ==> v == old(self)@[key@],
    {
        let at: usize = self.place(key);
        proof {
            use_type_invariant(&*self);
        }
        if at >= self.entries.len() {
            proof {
                assert(self@.remove(key@) =~= self@);
            }
            return None;
        }
        let mut entries: Vec<(String, V)> = Vec::new();
        std::mem::swap(&mut entries, &mut self.entries);
        proof {
            lemma_found(old(self).entries@, key@, at as int);
            lemma_take(old(self).entries@, at as int);
        }
        let (_, value) = entries.remove(at);
        self.entries = entries;
        Some(value)
    }
}

} // verus!
