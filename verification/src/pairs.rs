//! Pairs of venues.
//!
//! Which venues are collected from is configured, so the pairs are made from that list.

use vstd::prelude::*;

use crate::symbol;
use crate::symbol::Dex;

verus! {

/// The venues of `dexes`, each once, in canonical order.
pub open spec fn unique(dexes: Seq<Dex>) -> Seq<Dex> {
    symbol::all_dexes().filter(|d: Dex| dexes.contains(d))
}

/// `dex` with each of `others`.
pub open spec fn with_each(dex: Dex, others: Seq<Dex>) -> Seq<(Dex, Dex)> {
    Seq::new(others.len(), |i: int| (dex, others[i]))
}

/// Every venue with each that comes after it.
pub open spec fn pairs_of(dexes: Seq<Dex>) -> Seq<(Dex, Dex)>
    decreases dexes.len(),
{
    if dexes.len() == 0 {
        Seq::empty()
    } else {
        with_each(dexes[0], dexes.skip(1)) + pairs_of(dexes.skip(1))
    }
}

/// Whether `dex` is one of the pair.
pub open spec fn involves(pair: (Dex, Dex), dex: Dex) -> bool {
    pair.0 == dex || pair.1 == dex
}

/// Whether the venues stand in canonical order, none of them twice.
pub open spec fn in_order(dexes: Seq<Dex>) -> bool {
    forall|i: int, j: int|
        0 <= i < j < dexes.len() ==> (#[trigger] dexes[i]).rank() < (#[trigger] dexes[j]).rank()
}

/// All pairs that are to be compared. The order of `dexes` does not matter, nor does it whether a
/// venue occurs twice.
pub fn dex_pairs(dexes: &[Dex]) -> (r: Vec<(Dex, Dex)>)
    ensures
        r@ == pairs_of(unique(dexes@)),
{
    let unique = unique_dexes(dexes);
    let n: usize = unique.len();
    let mut pairs: Vec<(Dex, Dex)> = Vec::new();
    let mut i: usize = 0;
    proof {
        assert(unique@.skip(0) =~= unique@);
    }
    while i < n
        invariant
            i <= n,
            n == unique@.len(),
            pairs@ + pairs_of(unique@.skip(i as int)) == pairs_of(unique@),
        decreases n - i,
    {
        let ghost rest = unique@.skip(i as int);
        let ghost before = pairs@;
        let mut j: usize = i + 1;
        proof {
            assert(rest.skip(1) =~= unique@.skip(i + 1));
            assert(with_each(unique@[i as int], rest.skip(1)).take(0) =~= Seq::<
                (Dex, Dex),
            >::empty());
        }
        while j < n
            invariant
                i < j <= n,
                n == unique@.len(),
                rest == unique@.skip(i as int),
                pairs@ == before + with_each(unique@[i as int], rest.skip(1)).take(j - i - 1),
            decreases n - j,
        {
            pairs.push((unique[i], unique[j]));
            proof {
                let made = with_each(unique@[i as int], rest.skip(1));
                assert(made.take(j - i) =~= made.take(j - i - 1).push(made[j - i - 1]));
                assert(pairs@ =~= before + made.take(j - i));
            }
            j += 1;
        }
        proof {
            let made = with_each(unique@[i as int], rest.skip(1));
            assert(made.take(n - i - 1) =~= made);
            assert(rest[0] == unique@[i as int]);
            assert(pairs_of(rest) == made + pairs_of(rest.skip(1)));
            assert(before + (made + pairs_of(rest.skip(1))) =~= (before + made) + pairs_of(
                rest.skip(1),
            ));
        }
        i += 1;
    }
    proof {
        assert(pairs_of(unique@.skip(n as int)) =~= Seq::<(Dex, Dex)>::empty());
        assert(pairs@ + pairs_of(unique@.skip(n as int)) =~= pairs@);
    }
    pairs
}

/// The pairs that `dex` is one of. After its book has changed, only these are to be compared anew.
pub fn pairs_involving(dex: Dex, dexes: &[Dex]) -> (r: Vec<(Dex, Dex)>)
    ensures
        r@ == pairs_of(unique(dexes@)).filter(|p: (Dex, Dex)| involves(p, dex)),
{
    let pairs = dex_pairs(dexes);
    let ghost wanted = |p: (Dex, Dex)| involves(p, dex);
    let n: usize = pairs.len();
    let mut out: Vec<(Dex, Dex)> = Vec::new();
    let mut i: usize = 0;
    proof {
        reveal(Seq::filter);
        assert(pairs@.take(0).filter(wanted) =~= Seq::<(Dex, Dex)>::empty());
    }
    while i < n
        invariant
            i <= n,
            n == pairs@.len(),
            wanted == (|p: (Dex, Dex)| involves(p, dex)),
            out@ == pairs@.take(i as int).filter(wanted),
        decreases n - i,
    {
        proof {
            reveal(Seq::filter);
            assert(pairs@.take(i + 1).drop_last() =~= pairs@.take(i as int));
            assert(pairs@.take(i + 1).last() == pairs@[i as int]);
        }
        let pair = pairs[i];
        if pair.0 == dex || pair.1 == dex {
            out.push(pair);
        }
        i += 1;
    }
    proof {
        assert(pairs@.take(n as int) =~= pairs@);
    }
    out
}

fn unique_dexes(dexes: &[Dex]) -> (r: Vec<Dex>)
    ensures
        r@ == unique(dexes@),
{
    let all = Dex::ALL;
    let ghost given = |d: Dex| dexes@.contains(d);
    let mut out: Vec<Dex> = Vec::new();
    let mut i: usize = 0;
    proof {
        reveal(Seq::filter);
        assert(all@ =~= symbol::all_dexes());
        assert(all@.take(0).filter(given) =~= Seq::<Dex>::empty());
    }
    while i < 5
        invariant
            i <= 5,
            all@ == symbol::all_dexes(),
            given == (|d: Dex| dexes@.contains(d)),
            out@ == all@.take(i as int).filter(given),
        decreases 5 - i,
    {
        proof {
            reveal(Seq::filter);
            assert(all@.take(i + 1).drop_last() =~= all@.take(i as int));
            assert(all@.take(i + 1).last() == all@[i as int]);
        }
        if has_dex(dexes, all[i]) {
            out.push(all[i]);
        }
        i += 1;
    }
    proof {
        assert(all@.take(5) =~= all@);
    }
    out
}

fn has_dex(dexes: &[Dex], dex: Dex) -> (r: bool)
    ensures
        r == dexes@.contains(dex),
{
    let n: usize = dexes.len();
    let mut i: usize = 0;
    while i < n
        invariant
            i <= n,
            n == dexes@.len(),
            forall|j: int| 0 <= j < i ==> dexes@[j] != dex,
        decreases n - i,
    {
        if dexes[i] == dex {
            return true;
        }
        i += 1;
    }
    false
}

proof fn lemma_filter_in_order(dexes: Seq<Dex>, kept: spec_fn(Dex) -> bool)
    requires
        in_order(dexes),
    ensures
        in_order(dexes.filter(kept)),
        forall|i: int| 0 <= i < dexes.filter(kept).len() ==> dexes.contains(
            #[trigger] dexes.filter(kept)[i],
        ),
    decreases dexes.len(),
{
    reveal(Seq::filter);
    if dexes.len() > 0 {
        let front = dexes.drop_last();
        let kept_front = front.filter(kept);
        assert forall|i: int, j: int| 0 <= i < j < front.len() implies (
        #[trigger] front[i]).rank() < (#[trigger] front[j]).rank() by {
            assert(front[i] == dexes[i] && front[j] == dexes[j]);
        }
        lemma_filter_in_order(front, kept);
        assert forall|i: int| 0 <= i < kept_front.len() implies (
        #[trigger] kept_front[i]).rank() < dexes.last().rank() && dexes.contains(
            kept_front[i],
        ) by {
            assert(front.contains(kept_front[i]));
            let k = choose|k: int| 0 <= k < front.len() && front[k] == kept_front[i];
            assert(dexes[k] == kept_front[i]);
            assert(dexes[dexes.len() - 1] == dexes.last());
        }
        assert(dexes.contains(dexes.last())) by {
            assert(dexes[dexes.len() - 1] == dexes.last());
        }
        let all_kept = dexes.filter(kept);
        assert(all_kept == if kept(dexes.last()) {
            kept_front.push(dexes.last())
        } else {
            kept_front
        });
        assert forall|i: int| 0 <= i < all_kept.len() implies dexes.contains(
            #[trigger] all_kept[i],
        ) by {
            if i < kept_front.len() {
                assert(all_kept[i] == kept_front[i]);
            }
        }
        assert forall|i: int, j: int| 0 <= i < j < all_kept.len() implies (
        #[trigger] all_kept[i]).rank() < (#[trigger] all_kept[j]).rank() by {
            assert(all_kept[i] == kept_front[i]);
            if j < kept_front.len() {
                assert(all_kept[j] == kept_front[j]);
            }
        }
    }
}

proof fn lemma_unique(dexes: Seq<Dex>)
    ensures
        in_order(unique(dexes)),
        forall|d: Dex| #[trigger] unique(dexes).contains(d) <==> dexes.contains(d),
{
    broadcast use vstd::seq_lib::group_filter_ensures;

    let all = symbol::all_dexes();
    let given = |d: Dex| dexes.contains(d);
    assert(in_order(all)) by {
        assert forall|i: int| 0 <= i < all.len() implies (#[trigger] all[i]).rank() == i by {}
    }
    lemma_filter_in_order(all, given);
    assert forall|d: Dex| #[trigger] unique(dexes).contains(d) implies dexes.contains(d) by {
        assert(given(d));
    }
    assert forall|d: Dex| dexes.contains(d) implies #[trigger] unique(dexes).contains(d) by {
        assert(all[d.rank()] == d);
        assert(all.contains(d) && given(d));
    }
}

proof fn lemma_skip_in_order(dexes: Seq<Dex>)
    requires
        in_order(dexes),
        dexes.len() > 0,
    ensures
        in_order(dexes.skip(1)),
        forall|d: Dex|
            dexes.contains(d) <==> d == dexes[0] || #[trigger] dexes.skip(1).contains(d),
        !dexes.skip(1).contains(dexes[0]),
{
    let rest = dexes.skip(1);
    assert forall|i: int| 0 <= i < rest.len() implies #[trigger] rest[i] == dexes[i + 1] by {}
    assert forall|i: int, j: int| 0 <= i < j < rest.len() implies (#[trigger] rest[i]).rank() < (
    #[trigger] rest[j]).rank() by {
        assert(rest[i] == dexes[i + 1] && rest[j] == dexes[j + 1]);
    }
    assert forall|d: Dex| dexes.contains(d) implies d == dexes[0] || #[trigger] rest.contains(d) by {
        let k = choose|k: int| 0 <= k < dexes.len() && dexes[k] == d;
        if k > 0 {
            assert(rest[k - 1] == d);
        }
    }
    assert forall|d: Dex| #[trigger] rest.contains(d) implies dexes.contains(d) by {
        let k = choose|k: int| 0 <= k < rest.len() && rest[k] == d;
        assert(dexes[k + 1] == d);
    }
    assert(dexes.contains(dexes[0]));
    if rest.contains(dexes[0]) {
        let k = choose|k: int| 0 <= k < rest.len() && rest[k] == dexes[0];
        assert(dexes[k + 1] == dexes[0]);
    }
}

/// Of `n` venues there are `n * (n - 1) / 2` pairs.
pub proof fn law_pair_count(dexes: Seq<Dex>)
    ensures
        pairs_of(unique(dexes)).len() == unique(dexes).len() * (unique(dexes).len() - 1) / 2,
{
    lemma_pair_count(unique(dexes));
}

proof fn lemma_pair_count(dexes: Seq<Dex>)
    ensures
        pairs_of(dexes).len() == dexes.len() * (dexes.len() - 1) / 2,
    decreases dexes.len(),
{
    let n = dexes.len() as int;
    if n > 0 {
        lemma_pair_count(dexes.skip(1));
        assert(n - 1 + (n - 1) * (n - 2) / 2 == n * (n - 1) / 2) by (nonlinear_arith)
            requires
                n > 0,
        {
            assert(n * (n - 1) == (n - 1) * (n - 2) + 2 * (n - 1));
        }
    }
}

/// Two venues make a pair exactly where both are given and the first comes before the second: no
/// pair occurs the other way round.
pub proof fn law_pairs_are_canonical(dexes: Seq<Dex>, a: Dex, b: Dex)
    ensures
        pairs_of(unique(dexes)).contains((a, b)) <==> dexes.contains(a) && dexes.contains(b)
            && a.rank() < b.rank(),
{
    lemma_unique(dexes);
    lemma_pairs_of(unique(dexes), a, b);
    assert(unique(dexes).contains(a) <==> dexes.contains(a));
    assert(unique(dexes).contains(b) <==> dexes.contains(b));
}

proof fn lemma_pairs_of(dexes: Seq<Dex>, a: Dex, b: Dex)
    requires
        in_order(dexes),
    ensures
        pairs_of(dexes).contains((a, b)) <==> dexes.contains(a) && dexes.contains(b) && a.rank()
            < b.rank(),
    decreases dexes.len(),
{
    if dexes.len() > 0 {
        let rest = dexes.skip(1);
        let made = with_each(dexes[0], rest);
        let all = pairs_of(dexes);
        lemma_skip_in_order(dexes);
        lemma_pairs_of(rest, a, b);
        assert(dexes.contains(a) <==> a == dexes[0] || rest.contains(a));
        assert(dexes.contains(b) <==> b == dexes[0] || rest.contains(b));
        if all.contains((a, b)) {
            let k = choose|k: int| 0 <= k < all.len() && all[k] == (a, b);
            if k < made.len() {
                assert(all[k] == made[k]);
                assert(rest[k] == b);
                assert(dexes[0].rank() < dexes[k + 1].rank());
            } else {
                assert(pairs_of(rest)[k - made.len()] == (a, b));
            }
        }
        if dexes.contains(a) && dexes.contains(b) && a.rank() < b.rank() {
            if a == dexes[0] {
                let k = choose|k: int| 0 <= k < rest.len() && rest[k] == b;
                assert(made[k] == (a, b));
                assert(all[k] == (a, b));
            } else {
                if b == dexes[0] {
                    let k = choose|k: int| 0 <= k < rest.len() && rest[k] == a;
                    assert(dexes[k + 1] == a);
                    assert(dexes[0].rank() < dexes[k + 1].rank());
                }
                let k = choose|k: int| 0 <= k < pairs_of(rest).len() && pairs_of(rest)[k] == (a, b);
                assert(all[made.len() + k] == (a, b));
            }
        }
    }
}

/// The pairs depend on which venues are given, not on their order or number.
pub proof fn law_order_of_venues_does_not_matter(dexes: Seq<Dex>, others: Seq<Dex>)
    requires
        forall|d: Dex| dexes.contains(d) <==> others.contains(d),
    ensures
        pairs_of(unique(dexes)) == pairs_of(unique(others)),
{
    let (p, q) = (|d: Dex| dexes.contains(d), |d: Dex| others.contains(d));
    assert(p =~= q);
}

/// A venue that is given is one of `n - 1` pairs; one that is not is part of none.
pub proof fn law_pairs_of_a_venue(dexes: Seq<Dex>, dex: Dex)
    ensures
        pairs_of(unique(dexes)).filter(|p: (Dex, Dex)| involves(p, dex)).len() == if dexes.contains(
            dex,
        ) {
            unique(dexes).len() - 1
        } else {
            0
        },
{
    lemma_unique(dexes);
    lemma_pairs_of_a_venue(unique(dexes), dex);
    assert(unique(dexes).contains(dex) <==> dexes.contains(dex));
}

proof fn lemma_pairs_of_a_venue(dexes: Seq<Dex>, dex: Dex)
    requires
        in_order(dexes),
    ensures
        pairs_of(dexes).filter(|p: (Dex, Dex)| involves(p, dex)).len() == if dexes.contains(dex) {
            dexes.len() - 1
        } else {
            0
        },
    decreases dexes.len(),
{
    let wanted = |p: (Dex, Dex)| involves(p, dex);
    if dexes.len() == 0 {
        reveal(Seq::filter);
    } else {
        let rest = dexes.skip(1);
        let made = with_each(dexes[0], rest);
        lemma_skip_in_order(dexes);
        lemma_pairs_of_a_venue(rest, dex);
        assert(dexes.contains(dex) <==> dex == dexes[0] || rest.contains(dex));
        Seq::filter_distributes_over_add(made, pairs_of(rest), wanted);
        lemma_with_each(dexes[0], rest, dex);
    }
}

proof fn lemma_with_each(first: Dex, others: Seq<Dex>, dex: Dex)
    requires
        in_order(others),
        !others.contains(first),
    ensures
        with_each(first, others).filter(|p: (Dex, Dex)| involves(p, dex)).len() == if dex == first {
            others.len()
        } else if others.contains(dex) {
            1
        } else {
            0
        },
    decreases others.len(),
{
    reveal(Seq::filter);
    if others.len() > 0 {
        let front = others.drop_last();
        assert forall|i: int, j: int| 0 <= i < j < front.len() implies (
        #[trigger] front[i]).rank() < (#[trigger] front[j]).rank() by {
            assert(front[i] == others[i] && front[j] == others[j]);
        }
        assert(!front.contains(first)) by {
            if front.contains(first) {
                let k = choose|k: int| 0 <= k < front.len() && front[k] == first;
                assert(others[k] == first);
            }
        }
        lemma_with_each(first, front, dex);
        assert(with_each(first, others).drop_last() =~= with_each(first, front));
        assert(with_each(first, others).last() == (first, others.last()));
        assert(others[others.len() - 1] == others.last());
        if others.contains(dex) && dex != others.last() {
            let k = choose|k: int| 0 <= k < others.len() && others[k] == dex;
            assert(front[k] == dex);
        }
        if front.contains(dex) {
            let k = choose|k: int| 0 <= k < front.len() && front[k] == dex;
            assert(others[k] == dex);
        }
        if dex == others.last() && front.contains(dex) {
            let k = choose|k: int| 0 <= k < front.len() && front[k] == dex;
            assert(others[k].rank() < others[others.len() - 1].rank());
        }
    }
}

/// Whether `p` comes before `q`: by the first venue, and where that is the same, by the second.
pub open spec fn comes_before(p: (Dex, Dex), q: (Dex, Dex)) -> bool {
    p.0.rank() < q.0.rank() || (p.0 == q.0 && p.1.rank() < q.1.rank())
}

/// The pairs stand in canonical order, none of them twice.
pub proof fn law_pairs_stand_in_order(dexes: Seq<Dex>)
    ensures
        forall|i: int, j: int|
            0 <= i < j < pairs_of(unique(dexes)).len() ==> comes_before(
                #[trigger] pairs_of(unique(dexes))[i],
                #[trigger] pairs_of(unique(dexes))[j],
            ),
{
    lemma_unique(dexes);
    lemma_pairs_stand_in_order(unique(dexes));
}

proof fn lemma_pairs_stand_in_order(dexes: Seq<Dex>)
    requires
        in_order(dexes),
    ensures
        forall|i: int, j: int|
            0 <= i < j < pairs_of(dexes).len() ==> comes_before(
                #[trigger] pairs_of(dexes)[i],
                #[trigger] pairs_of(dexes)[j],
            ),
    decreases dexes.len(),
{
    if dexes.len() > 0 {
        let rest = dexes.skip(1);
        let made = with_each(dexes[0], rest);
        let later = pairs_of(rest);
        let all = pairs_of(dexes);
        lemma_skip_in_order(dexes);
        lemma_pairs_stand_in_order(rest);
        assert forall|i: int, j: int| 0 <= i < j < all.len() implies comes_before(
            #[trigger] all[i],
            #[trigger] all[j],
        ) by {
            if j < made.len() {
                assert(all[i] == (dexes[0], rest[i]) && all[j] == (dexes[0], rest[j]));
            } else if i < made.len() {
                let q = later[j - made.len()];
                assert(all[i] == (dexes[0], rest[i]) && all[j] == q);
                assert(later.contains((q.0, q.1)));
                lemma_pairs_of(rest, q.0, q.1);
                let k = choose|k: int| 0 <= k < rest.len() && rest[k] == q.0;
                assert(dexes[k + 1] == q.0);
            } else {
                assert(all[i] == later[i - made.len()] && all[j] == later[j - made.len()]);
            }
        }
    }
}

/// How many pairs of `dexes` the venues of `venues` are part of, added up.
pub open spec fn pairs_counted(venues: Seq<Dex>, dexes: Seq<Dex>) -> nat
    decreases venues.len(),
{
    if venues.len() == 0 {
        0
    } else {
        pairs_counted(venues.drop_last(), dexes) + pairs_of(unique(dexes)).filter(
            |p: (Dex, Dex)| involves(p, venues.last()),
        ).len()
    }
}

/// Counted venue by venue, every pair is counted twice.
pub proof fn law_every_pair_is_counted_twice(dexes: Seq<Dex>)
    ensures
        pairs_counted(unique(dexes), dexes) == 2 * pairs_of(unique(dexes)).len(),
{
    lemma_unique(dexes);
    let venues = unique(dexes);
    assert forall|i: int| 0 <= i < venues.len() implies dexes.contains(#[trigger] venues[i]) by {
        assert(venues.contains(venues[i]));
    }
    lemma_pairs_counted(venues, dexes);
    lemma_twice_pair_count(venues);
}

proof fn lemma_pairs_counted(venues: Seq<Dex>, dexes: Seq<Dex>)
    requires
        forall|i: int| 0 <= i < venues.len() ==> dexes.contains(#[trigger] venues[i]),
    ensures
        pairs_counted(venues, dexes) == venues.len() * (unique(dexes).len() - 1),
    decreases venues.len(),
{
    let n = unique(dexes).len() - 1;
    if venues.len() > 0 {
        let front = venues.drop_last();
        assert forall|i: int| 0 <= i < front.len() implies dexes.contains(#[trigger] front[i]) by {
            assert(front[i] == venues[i]);
        }
        lemma_pairs_counted(front, dexes);
        assert(venues[venues.len() - 1] == venues.last());
        law_pairs_of_a_venue(dexes, venues.last());
        let k = front.len() as int;
        assert((k + 1) * n == k * n + n) by (nonlinear_arith);
    } else {
        assert(0 * n == 0);
    }
}

proof fn lemma_twice_pair_count(dexes: Seq<Dex>)
    ensures
        2 * pairs_of(dexes).len() == dexes.len() * (dexes.len() - 1),
    decreases dexes.len(),
{
    let n = dexes.len() as int;
    if n > 0 {
        lemma_twice_pair_count(dexes.skip(1));
        assert(n * (n - 1) == (n - 1) * (n - 2) + 2 * (n - 1)) by (nonlinear_arith);
    }
}

} // verus!
