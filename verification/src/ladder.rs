//! One side of a book, kept up to date level by level.

use vstd::prelude::*;

use crate::book;
use crate::book::{Level, Side};
use crate::decimal::Decimal;
use crate::num::{Price, Quantity};

verus! {

/// A price level as a venue writes it.
pub trait Quote {
    /// The price and the quantity, where both are there.
    spec fn pair(&self) -> Option<(Decimal, Decimal)>;

    /// The price and the quantity, where both are there.
    fn parts(&self) -> (r: Option<(Decimal, Decimal)>)
        ensures
            r == self.pair(),
    ;
}

impl Quote for Option<(Decimal, Decimal)> {
    open spec fn pair(&self) -> Option<(Decimal, Decimal)> {
        *self
    }

    fn parts(&self) -> (r: Option<(Decimal, Decimal)>) {
        *self
    }
}

/// Whether the price `a` comes before the price `b` on `side`: the higher bid, the lower ask.
pub open spec fn better(side: Side, a: Decimal, b: Decimal) -> bool {
    match side {
        Side::Bid => a.units() > b.units(),
        Side::Ask => a.units() < b.units(),
    }
}

/// Whether every level is better than all that follow it.
pub open spec fn best_first(side: Side, levels: Seq<Level>) -> bool {
    forall|i: int, j: int|
        0 <= i < j < levels.len() ==> better(
            side,
            (#[trigger] levels[i]).price.0,
            (#[trigger] levels[j]).price.0,
        )
}

/// The levels that are better than `price`.
pub open spec fn better_than(side: Side, levels: Seq<Level>, price: Decimal) -> Seq<Level> {
    levels.filter(|l: Level| better(side, l.price.0, price))
}

/// The levels that are worse than `price`.
pub open spec fn worse_than(side: Side, levels: Seq<Level>, price: Decimal) -> Seq<Level> {
    levels.filter(|l: Level| better(side, price, l.price.0))
}

/// The levels once the quantity at `price` is `quantity`. A quantity that is not positive means
/// that there is no level at `price`.
#[verifier::opaque]
pub open spec fn with_level(
    side: Side,
    levels: Seq<Level>,
    price: Decimal,
    quantity: Decimal,
) -> Seq<Level> {
    let here = if quantity.units() > 0 {
        seq![Level { price: Price(price), quantity: Quantity(quantity) }]
    } else {
        Seq::empty()
    };
    better_than(side, levels, price) + here + worse_than(side, levels, price)
}

/// The levels once all `changes` are made, the first one first. A change without a price or a
/// quantity is none.
pub open spec fn updated(
    side: Side,
    levels: Seq<Level>,
    changes: Seq<Option<(Decimal, Decimal)>>,
) -> Seq<Level>
    decreases changes.len(),
{
    if changes.len() == 0 {
        levels
    } else {
        let before = updated(side, levels, changes.drop_last());
        match changes.last() {
            Some((price, quantity)) => with_level(side, before, price, quantity),
            None => before,
        }
    }
}

/// The levels that `quotes` list, a later quantity for a price in place of an earlier one. What has
/// no positive quantity is passed over.
pub open spec fn listed(side: Side, quotes: Seq<Option<(Decimal, Decimal)>>) -> Seq<Level>
    decreases quotes.len(),
{
    if quotes.len() == 0 {
        Seq::empty()
    } else {
        let before = listed(side, quotes.drop_last());
        match quotes.last() {
            Some((price, quantity)) => if quantity.units() > 0 {
                with_level(side, before, price, quantity)
            } else {
                before
            },
            None => before,
        }
    }
}

/// The first `n` of `levels`, or all where there are no more.
pub open spec fn first_of(levels: Seq<Level>, n: nat) -> Seq<Level> {
    if levels.len() <= n {
        levels
    } else {
        levels.take(n as int)
    }
}

/// What `quotes` say.
pub open spec fn pairs<Q: Quote>(quotes: Seq<Q>) -> Seq<Option<(Decimal, Decimal)>> {
    quotes.map_values(|q: Q| q.pair())
}

/// Whether the level at place `i` has the price `price`.
pub open spec fn stands_at(levels: Seq<Level>, i: int, price: Decimal) -> bool {
    0 <= i < levels.len() && levels[i].price.0.units() == price.units()
}

/// The quantity at `price`, where there is a level.
pub open spec fn quantity_at(levels: Seq<Level>, price: Decimal) -> Option<Decimal> {
    if exists|i: int| stands_at(levels, i, price) {
        Some(levels[choose|i: int| stands_at(levels, i, price)].quantity.0)
    } else {
        None
    }
}

/// Filtering out a tail leaves the levels before it.
pub proof fn lemma_filter_prefix(levels: Seq<Level>, keep: spec_fn(Level) -> bool, n: int)
    requires
        0 <= n <= levels.len(),
        forall|i: int| 0 <= i < n ==> keep(#[trigger] levels[i]),
        forall|i: int| n <= i < levels.len() ==> !keep(#[trigger] levels[i]),
    ensures
        levels.filter(keep) == levels.take(n),
    decreases levels.len(),
{
    reveal(Seq::filter);
    if levels.len() > 0 {
        let front = levels.drop_last();
        if n == levels.len() {
            lemma_filter_prefix(front, keep, n - 1);
            assert(front.take(n - 1).push(levels.last()) =~= levels.take(n));
        } else {
            lemma_filter_prefix(front, keep, n);
            assert(front.take(n) =~= levels.take(n));
        }
    } else {
        assert(levels.take(n) =~= levels);
    }
}

/// Filtering out a head leaves the levels behind it.
pub proof fn lemma_filter_suffix(levels: Seq<Level>, keep: spec_fn(Level) -> bool, n: int)
    requires
        0 <= n <= levels.len(),
        forall|i: int| 0 <= i < n ==> !keep(#[trigger] levels[i]),
        forall|i: int| n <= i < levels.len() ==> keep(#[trigger] levels[i]),
    ensures
        levels.filter(keep) == levels.skip(n),
    decreases levels.len(),
{
    reveal(Seq::filter);
    if levels.len() > 0 {
        let front = levels.drop_last();
        if n == levels.len() {
            lemma_filter_suffix(front, keep, n - 1);
            assert(front.skip(n - 1) =~= levels.skip(n));
        } else {
            lemma_filter_suffix(front, keep, n);
            assert(front.skip(n).push(levels.last()) =~= levels.skip(n));
        }
    } else {
        assert(levels.skip(n) =~= levels);
    }
}

/// Where the levels before `at` are better than `price`, those from `past` on are worse, and none
/// but the price itself stands between, `with_level` keeps the two ends.
proof fn lemma_with_level(
    side: Side,
    levels: Seq<Level>,
    price: Decimal,
    quantity: Decimal,
    at: int,
    past: int,
)
    requires
        0 <= at <= past <= levels.len(),
        forall|i: int| 0 <= i < at ==> better(side, (#[trigger] levels[i]).price.0, price),
        forall|i: int|
            at <= i < past ==> (#[trigger] levels[i]).price.0.units() == price.units(),
        forall|i: int|
            past <= i < levels.len() ==> better(side, price, (#[trigger] levels[i]).price.0),
    ensures
        quantity.units() > 0 ==> with_level(side, levels, price, quantity) == levels.take(at).push(
            Level { price: Price(price), quantity: Quantity(quantity) },
        ) + levels.skip(past),
        quantity.units() <= 0 ==> with_level(side, levels, price, quantity) == levels.take(at)
            + levels.skip(past),
{
    reveal(with_level);
    lemma_filter_prefix(levels, |l: Level| better(side, l.price.0, price), at);
    lemma_filter_suffix(levels, |l: Level| better(side, price, l.price.0), past);
    if quantity.units() > 0 {
        let l = Level { price: Price(price), quantity: Quantity(quantity) };
        assert(levels.take(at) + seq![l] =~= levels.take(at).push(l));
    } else {
        assert(levels.take(at) + Seq::<Level>::empty() =~= levels.take(at));
    }
}

/// The place of the first level that is not better than `price`, and that of the first worse one.
proof fn lemma_split(side: Side, levels: Seq<Level>, price: Decimal) -> (r: (int, int))
    requires
        best_first(side, levels),
    ensures
        0 <= r.0 <= r.1 <= levels.len(),
        r.1 <= r.0 + 1,
        forall|i: int| 0 <= i < r.0 ==> better(side, (#[trigger] levels[i]).price.0, price),
        forall|i: int|
            r.0 <= i < r.1 ==> (#[trigger] levels[i]).price.0.units() == price.units(),
        forall|i: int|
            r.1 <= i < levels.len() ==> better(side, price, (#[trigger] levels[i]).price.0),
    decreases levels.len(),
{
    if levels.len() == 0 {
        (0, 0)
    } else {
        let front = levels.drop_last();
        let (at, past) = lemma_split(side, front, price);
        let last = levels.last();
        assert(forall|i: int| 0 <= i < front.len() ==> front[i] == #[trigger] levels[i]);
        if better(side, price, last.price.0) {
            (at, past)
        } else {
            assert(at == front.len()) by {
                if at < front.len() {
                    assert(better(side, levels[at].price.0, last.price.0));
                    assert(!better(side, levels[at].price.0, price));
                }
            }
            if better(side, last.price.0, price) {
                (levels.len() as int, levels.len() as int)
            } else {
                (at, at + 1)
            }
        }
    }
}

/// Setting a quantity keeps the best level first and every quantity positive.
pub proof fn lemma_with_level_wf(side: Side, levels: Seq<Level>, price: Decimal, quantity: Decimal)
    requires
        best_first(side, levels),
    ensures
        best_first(side, with_level(side, levels, price, quantity)),
        book::all_positive(levels) ==> book::all_positive(
            with_level(side, levels, price, quantity),
        ),
{
    let (at, past) = lemma_split(side, levels, price);
    lemma_with_level(side, levels, price, quantity, at, past);
    let after = with_level(side, levels, price, quantity);
    let shift = if quantity.units() > 0 { at + 1 - past } else { at - past };
    assert forall|j: int| 0 <= j < after.len() && !(quantity.units() > 0 && j == at) implies after[j]
        == levels[if j < at { j } else { j - shift }] by {}
    assert forall|i: int, j: int| 0 <= i < j < after.len() implies better(
        side,
        (#[trigger] after[i]).price.0,
        (#[trigger] after[j]).price.0,
    ) by {}
}

/// One side of a book. The best level stands first; every quantity is positive.
pub struct Ladder {
    side: Side,
    levels: Vec<Level>,
}

impl View for Ladder {
    type V = Seq<Level>;

    closed spec fn view(&self) -> Seq<Level> {
        self.levels@
    }
}

impl Ladder {
    /// The side of the book.
    pub closed spec fn side_of(self) -> Side {
        self.side
    }

    /// Whether the best level stands first and every quantity is positive.
    pub open spec fn wf(self) -> bool {
        best_first(self.side_of(), self@) && book::all_positive(self@)
    }

    /// An empty side.
    pub fn new(side: Side) -> (r: Ladder)
        ensures
            r.wf(),
            r.side_of() == side,
            r@ == Seq::<Level>::empty(),
    {
        Ladder { side, levels: Vec::new() }
    }

    /// The count of levels.
    pub fn len(&self) -> (r: usize)
        ensures
            r == self@.len(),
    {
        self.levels.len()
    }

    /// The level at place `i`, the best one at 0.
    pub fn level(&self, i: usize) -> (r: Level)
        requires
            i < self@.len(),
        ensures
            r == self@[i as int],
    {
        self.levels[i]
    }

    /// Drops every level.
    pub fn clear(&mut self)
        ensures
            final(self).wf(),
            final(self).side_of() == old(self).side_of(),
            final(self)@ == Seq::<Level>::empty(),
    {
        self.levels.clear();
    }

    /// Sets the quantity at `price`. A quantity that is not positive drops the level, if there is
    /// one.
    pub fn set(&mut self, price: Decimal, quantity: Decimal)
        requires
            old(self).wf(),
        ensures
            final(self).wf(),
            final(self).side_of() == old(self).side_of(),
            final(self)@ == with_level(old(self).side_of(), old(self)@, price, quantity),
    {
        let n: usize = self.levels.len();
        let mut at: usize = 0;
        while at < n && self.is_better(self.levels[at].price.0, price)
            invariant
                at <= n,
                n == self.levels@.len(),
                *self == *old(self),
                forall|i: int|
                    0 <= i < at ==> better(self.side, (#[trigger] self.levels@[i]).price.0, price),
            ensures
                at < n ==> !better(self.side, self.levels@[at as int].price.0, price),
            decreases n - at,
        {
            at += 1;
        }
        let found = at < n && !self.is_better(price, self.levels[at].price.0);
        let ghost past = if found { at + 1 } else { at as int };
        proof {
            assert forall|i: int| past <= i < n implies better(
                self.side,
                price,
                (#[trigger] self.levels@[i]).price.0,
            ) by {
                if i > at {
                    assert(better(
                        self.side,
                        self.levels@[at as int].price.0,
                        self.levels@[i].price.0,
                    ));
                }
            }
            lemma_with_level(self.side, self.levels@, price, quantity, at as int, past);
            lemma_with_level_wf(self.side, self.levels@, price, quantity);
        }
        if quantity.is_positive() {
            let level = Level { price: Price(price), quantity: Quantity(quantity) };
            if found {
                self.levels.set(at, level);
                proof {
                    assert(self.levels@ =~= old(self).levels@.take(at as int).push(level)
                        + old(self).levels@.skip(past));
                }
            } else {
                self.levels.insert(at, level);
                proof {
                    assert(self.levels@ =~= old(self).levels@.take(at as int).push(level)
                        + old(self).levels@.skip(past));
                }
            }
        } else if found {
            self.levels.remove(at);
            proof {
                assert(self.levels@ =~= old(self).levels@.take(at as int) + old(self).levels@.skip(
                    past,
                ));
            }
        } else {
            proof {
                assert(self.levels@ =~= old(self).levels@.take(at as int) + old(self).levels@.skip(
                    past,
                ));
            }
        }
    }

    fn is_better(&self, a: Decimal, b: Decimal) -> (r: bool)
        ensures
            r == better(self.side, a, b),
    {
        match self.side {
            Side::Bid => b.is_less(a),
            Side::Ask => a.is_less(b),
        }
    }

    /// Makes all `changes`, the first one first.
    pub fn update<Q: Quote>(&mut self, changes: &Vec<Q>)
        requires
            old(self).wf(),
        ensures
            final(self).wf(),
            final(self).side_of() == old(self).side_of(),
            final(self)@ == updated(old(self).side_of(), old(self)@, pairs(changes@)),
    {
        let n: usize = changes.len();
        let ghost side = self.side;
        let ghost all = pairs(changes@);
        let mut i: usize = 0;
        while i < n
            invariant
                i <= n,
                n == changes@.len(),
                all == pairs(changes@),
                self.wf(),
                self.side_of() == side,
                side == old(self).side_of(),
                self@ == updated(side, old(self)@, all.take(i as int)),
            decreases n - i,
        {
            let parts = changes[i].parts();
            proof {
                assert(all.take(i + 1).drop_last() =~= all.take(i as int));
                assert(all.take(i + 1).last() == parts);
            }
            if let Some((price, quantity)) = parts {
                self.set(price, quantity);
            }
            i += 1;
        }
        proof {
            assert(all.take(n as int) =~= all);
        }
    }

    /// Puts the levels that `quotes` list in place of all that was there.
    pub fn replace<Q: Quote>(&mut self, quotes: &Vec<Q>)
        requires
            old(self).wf(),
        ensures
            final(self).wf(),
            final(self).side_of() == old(self).side_of(),
            final(self)@ == listed(old(self).side_of(), pairs(quotes@)),
    {
        self.clear();
        let n: usize = quotes.len();
        let ghost side = self.side;
        let ghost all = pairs(quotes@);
        let mut i: usize = 0;
        while i < n
            invariant
                i <= n,
                n == quotes@.len(),
                all == pairs(quotes@),
                self.wf(),
                self.side_of() == side,
                self@ == listed(side, all.take(i as int)),
            decreases n - i,
        {
            let parts = quotes[i].parts();
            proof {
                assert(all.take(i + 1).drop_last() =~= all.take(i as int));
                assert(all.take(i + 1).last() == parts);
            }
            if let Some((price, quantity)) = parts {
                if quantity.is_positive() {
                    self.set(price, quantity);
                }
            }
            i += 1;
        }
        proof {
            assert(all.take(n as int) =~= all);
        }
    }

    /// Keeps the best `n` levels.
    pub fn truncate(&mut self, n: usize)
        requires
            old(self).wf(),
        ensures
            final(self).wf(),
            final(self).side_of() == old(self).side_of(),
            final(self)@ == first_of(old(self)@, n as nat),
    {
        self.levels.truncate(n);
        proof {
            assert(self.levels@ =~= first_of(old(self).levels@, n as nat));
        }
    }

    /// The best `n` levels, the best one first.
    pub fn top(&self, n: usize) -> (r: Vec<Level>)
        ensures
            r@ == first_of(self@, n as nat),
    {
        let mut out: Vec<Level> = Vec::new();
        let mut i: usize = 0;
        while i < self.levels.len() && i < n
            invariant
                i <= self.levels@.len(),
                i <= n,
                out@ =~= self.levels@.take(i as int),
            decreases n - i,
        {
            out.push(self.levels[i]);
            i += 1;
        }
        proof {
            assert(out@ =~= first_of(self@, n as nat));
        }
        out
    }
}

proof fn lemma_quantity_at(side: Side, levels: Seq<Level>, price: Decimal, i: int)
    requires
        best_first(side, levels),
        stands_at(levels, i, price),
    ensures
        quantity_at(levels, price) == Some(levels[i].quantity.0),
{
    let j = choose|j: int| stands_at(levels, j, price);
    if i < j {
        assert(better(side, levels[i].price.0, levels[j].price.0));
    }
    if j < i {
        assert(better(side, levels[j].price.0, levels[i].price.0));
    }
}

/// A quantity that is set can be read back; one that is not positive leaves no level behind.
pub proof fn law_set_quantity_is_read_back(
    side: Side,
    levels: Seq<Level>,
    price: Decimal,
    quantity: Decimal,
)
    requires
        best_first(side, levels),
    ensures
        quantity_at(with_level(side, levels, price, quantity), price) == if quantity.units() > 0 {
            Some(quantity)
        } else {
            None
        },
{
    let (at, past) = lemma_split(side, levels, price);
    lemma_with_level(side, levels, price, quantity, at, past);
    let after = with_level(side, levels, price, quantity);
    if quantity.units() > 0 {
        assert(after[at].price.0 == price);
        assert(stands_at(after, at, price));
        lemma_with_level_wf(side, levels, price, quantity);
        lemma_quantity_at(side, after, price, at);
    } else {
        assert forall|i: int| !stands_at(after, i, price) by {
            if 0 <= i < at {
                assert(after[i] == levels[i]);
            } else if at <= i < after.len() {
                assert(after[i] == levels[past + (i - at)]);
            }
        }
    }
}

/// Setting the quantity at one price leaves every other price as it was.
pub proof fn law_set_leaves_other_prices(
    side: Side,
    levels: Seq<Level>,
    price: Decimal,
    quantity: Decimal,
    other: Decimal,
)
    requires
        best_first(side, levels),
        other.units() != price.units(),
    ensures
        quantity_at(with_level(side, levels, price, quantity), other) == quantity_at(levels, other),
{
    let (at, past) = lemma_split(side, levels, price);
    lemma_with_level(side, levels, price, quantity, at, past);
    let after = with_level(side, levels, price, quantity);
    let shift = if quantity.units() > 0 { at + 1 - past } else { at - past };
    lemma_with_level_wf(side, levels, price, quantity);
    if exists|i: int| stands_at(levels, i, other) {
        let i = choose|i: int| stands_at(levels, i, other);
        lemma_quantity_at(side, levels, other, i);
        let j = if i < at { i } else { i + shift };
        assert(after[j] == levels[i]);
        assert(stands_at(after, j, other));
        lemma_quantity_at(side, after, other, j);
    } else {
        assert forall|j: int| !stands_at(after, j, other) by {
            if 0 <= j < at {
                assert(after[j] == levels[j]);
                assert(!stands_at(levels, j, other));
            } else if past + shift <= j < after.len() {
                assert(after[j] == levels[j - shift]);
                assert(!stands_at(levels, j - shift, other));
            }
        }
    }
}

proof fn lemma_take_and_skip(levels: Seq<Level>, n: int)
    requires
        0 <= n <= levels.len(),
    ensures
        levels.take(n) + levels.skip(n) == levels,
{
    assert(levels.take(n) + levels.skip(n) =~= levels);
}

/// Dropping a level that is not there changes nothing.
pub proof fn law_dropping_unknown_level_is_harmless(
    side: Side,
    levels: Seq<Level>,
    price: Decimal,
    quantity: Decimal,
)
    requires
        best_first(side, levels),
        quantity_at(levels, price) is None,
        quantity.units() <= 0,
    ensures
        with_level(side, levels, price, quantity) == levels,
{
    let (at, past) = lemma_split(side, levels, price);
    lemma_with_level(side, levels, price, quantity, at, past);
    if at < past {
        assert(stands_at(levels, at, price));
    }
    lemma_take_and_skip(levels, at);
}

/// Whether the change speaks of `price`.
pub open spec fn names(change: Option<(Decimal, Decimal)>, price: Decimal) -> bool {
    change matches Some((p, _)) && p.units() == price.units()
}

/// The quantity that is left at a price once it is set to `quantity`.
pub open spec fn remaining(quantity: Decimal) -> Option<Decimal> {
    if quantity.units() > 0 {
        Some(quantity)
    } else {
        None
    }
}

/// Changes keep the best level first and every quantity positive.
pub proof fn lemma_updated_wf(
    side: Side,
    levels: Seq<Level>,
    changes: Seq<Option<(Decimal, Decimal)>>,
)
    requires
        best_first(side, levels),
    ensures
        best_first(side, updated(side, levels, changes)),
        book::all_positive(levels) ==> book::all_positive(updated(side, levels, changes)),
    decreases changes.len(),
{
    if changes.len() > 0 {
        let before = updated(side, levels, changes.drop_last());
        lemma_updated_wf(side, levels, changes.drop_last());
        if let Some((price, quantity)) = changes.last() {
            lemma_with_level_wf(side, before, price, quantity);
        }
    }
}

/// Quotes are listed with the best level first and every quantity positive.
pub proof fn lemma_listed_wf(side: Side, quotes: Seq<Option<(Decimal, Decimal)>>)
    ensures
        best_first(side, listed(side, quotes)),
        book::all_positive(listed(side, quotes)),
    decreases quotes.len(),
{
    if quotes.len() > 0 {
        let before = listed(side, quotes.drop_last());
        lemma_listed_wf(side, quotes.drop_last());
        if let Some((price, quantity)) = quotes.last() {
            lemma_with_level_wf(side, before, price, quantity);
        }
    }
}

/// The last change that names a price settles what is there: its quantity, or no level where that is
/// not positive. The changes before it and all other changes do not matter, however many there are.
pub proof fn law_last_change_settles_a_price(
    side: Side,
    levels: Seq<Level>,
    changes: Seq<Option<(Decimal, Decimal)>>,
    i: int,
    price: Decimal,
    quantity: Decimal,
)
    requires
        best_first(side, levels),
        0 <= i < changes.len(),
        changes[i] == Some((price, quantity)),
        forall|j: int| i < j < changes.len() ==> !names(#[trigger] changes[j], price),
    ensures
        quantity_at(updated(side, levels, changes), price) == remaining(quantity),
    decreases changes.len(),
{
    let front = changes.drop_last();
    let before = updated(side, levels, front);
    lemma_updated_wf(side, levels, front);
    if i == changes.len() - 1 {
        law_set_quantity_is_read_back(side, before, price, quantity);
    } else {
        assert forall|j: int| i < j < front.len() implies !names(#[trigger] front[j], price) by {
            assert(front[j] == changes[j]);
        }
        law_last_change_settles_a_price(side, levels, front, i, price, quantity);
        assert(!names(changes[changes.len() - 1], price));
        if let Some((p, q)) = changes.last() {
            law_set_leaves_other_prices(side, before, p, q, price);
        }
    }
}

/// What no change names stays as it was.
pub proof fn law_unnamed_prices_stay(
    side: Side,
    levels: Seq<Level>,
    changes: Seq<Option<(Decimal, Decimal)>>,
    price: Decimal,
)
    requires
        best_first(side, levels),
        forall|j: int| 0 <= j < changes.len() ==> !names(#[trigger] changes[j], price),
    ensures
        quantity_at(updated(side, levels, changes), price) == quantity_at(levels, price),
    decreases changes.len(),
{
    if changes.len() > 0 {
        let front = changes.drop_last();
        let before = updated(side, levels, front);
        lemma_updated_wf(side, levels, front);
        assert forall|j: int| 0 <= j < front.len() implies !names(#[trigger] front[j], price) by {
            assert(front[j] == changes[j]);
        }
        law_unnamed_prices_stay(side, levels, front, price);
        assert(!names(changes[changes.len() - 1], price));
        if let Some((p, q)) = changes.last() {
            law_set_leaves_other_prices(side, before, p, q, price);
        }
    }
}

/// Whether the quote offers something at `price`.
pub open spec fn offers(quote: Option<(Decimal, Decimal)>, price: Decimal) -> bool {
    quote matches Some((p, q)) && p.units() == price.units() && q.units() > 0
}

/// The last quote with a positive quantity at a price gives the quantity there, however many quotes
/// there are.
pub proof fn law_last_quote_settles_a_price(
    side: Side,
    quotes: Seq<Option<(Decimal, Decimal)>>,
    i: int,
    price: Decimal,
    quantity: Decimal,
)
    requires
        0 <= i < quotes.len(),
        quotes[i] == Some((price, quantity)),
        quantity.units() > 0,
        forall|j: int| i < j < quotes.len() ==> !offers(#[trigger] quotes[j], price),
    ensures
        quantity_at(listed(side, quotes), price) == Some(quantity),
    decreases quotes.len(),
{
    let front = quotes.drop_last();
    let before = listed(side, front);
    lemma_listed_wf(side, front);
    if i == quotes.len() - 1 {
        law_set_quantity_is_read_back(side, before, price, quantity);
    } else {
        assert forall|j: int| i < j < front.len() implies !offers(#[trigger] front[j], price) by {
            assert(front[j] == quotes[j]);
        }
        law_last_quote_settles_a_price(side, front, i, price, quantity);
        assert(!offers(quotes[quotes.len() - 1], price));
        if let Some((p, q)) = quotes.last() {
            if q.units() > 0 {
                law_set_leaves_other_prices(side, before, p, q, price);
            }
        }
    }
}

/// There is no level at a price that no quote offers.
pub proof fn law_only_quoted_prices_are_listed(
    side: Side,
    quotes: Seq<Option<(Decimal, Decimal)>>,
    price: Decimal,
)
    requires
        forall|j: int| 0 <= j < quotes.len() ==> !offers(#[trigger] quotes[j], price),
    ensures
        quantity_at(listed(side, quotes), price) is None,
    decreases quotes.len(),
{
    if quotes.len() > 0 {
        let front = quotes.drop_last();
        let before = listed(side, front);
        lemma_listed_wf(side, front);
        assert forall|j: int| 0 <= j < front.len() implies !offers(#[trigger] front[j], price) by {
            assert(front[j] == quotes[j]);
        }
        law_only_quoted_prices_are_listed(side, front, price);
        assert(!offers(quotes[quotes.len() - 1], price));
        if let Some((p, q)) = quotes.last() {
            if q.units() > 0 {
                law_set_leaves_other_prices(side, before, p, q, price);
            }
        }
    }
}

/// Cutting a side off leaves as many levels as there may be, and only the best: none that goes is
/// better than one that stays, and what stays is as it was.
pub proof fn law_only_the_worst_levels_go(side: Side, levels: Seq<Level>, n: nat)
    requires
        best_first(side, levels),
    ensures
        first_of(levels, n).len() == if levels.len() <= n {
            levels.len()
        } else {
            n
        },
        forall|price: Decimal|
            #![trigger quantity_at(first_of(levels, n), price)]
            quantity_at(first_of(levels, n), price) == quantity_at(levels, price) || (quantity_at(
                first_of(levels, n),
                price,
            ) is None && forall|i: int|
                0 <= i < first_of(levels, n).len() ==> better(
                    side,
                    (#[trigger] first_of(levels, n)[i]).price.0,
                    price,
                )),
{
    let kept = first_of(levels, n);
    assert forall|i: int| 0 <= i < kept.len() implies #[trigger] kept[i] == levels[i] by {}
    assert forall|price: Decimal|
        #![trigger quantity_at(first_of(levels, n), price)]
        quantity_at(kept, price) == quantity_at(levels, price) || (quantity_at(kept, price) is None
            && forall|i: int|
            0 <= i < kept.len() ==> better(side, (#[trigger] kept[i]).price.0, price)) by {
        if exists|i: int| stands_at(levels, i, price) {
            let i = choose|i: int| stands_at(levels, i, price);
            lemma_quantity_at(side, levels, price, i);
            if i < kept.len() {
                assert(kept[i] == levels[i]);
                assert(stands_at(kept, i, price));
                assert(best_first(side, kept));
                lemma_quantity_at(side, kept, price, i);
            } else {
                assert forall|j: int| !stands_at(kept, j, price) by {
                    if 0 <= j < kept.len() {
                        assert(kept[j] == levels[j]);
                        assert(better(side, levels[j].price.0, levels[i].price.0));
                    }
                }
                assert forall|j: int| 0 <= j < kept.len() implies better(
                    side,
                    (#[trigger] kept[j]).price.0,
                    price,
                ) by {
                    assert(kept[j] == levels[j]);
                    assert(better(side, levels[j].price.0, levels[i].price.0));
                }
            }
        } else {
            assert forall|j: int| !stands_at(kept, j, price) by {
                if stands_at(kept, j, price) {
                    assert(kept[j] == levels[j]);
                    assert(stands_at(levels, j, price));
                }
            }
        }
    }
}

/// The quantity at `price` once `changes` have been made to `levels`: that of the last change that
/// names it, or else what was there.
pub open spec fn settled(
    levels: Seq<Level>,
    changes: Seq<Option<(Decimal, Decimal)>>,
    price: Decimal,
) -> Option<Decimal>
    decreases changes.len(),
{
    if changes.len() == 0 {
        quantity_at(levels, price)
    } else if names(changes.last(), price) {
        remaining(changes.last().unwrap().1)
    } else {
        settled(levels, changes.drop_last(), price)
    }
}

/// The quantity that `quotes` offer at `price`: that of the last one that offers something.
pub open spec fn offered(quotes: Seq<Option<(Decimal, Decimal)>>, price: Decimal) -> Option<Decimal>
    decreases quotes.len(),
{
    if quotes.len() == 0 {
        None
    } else if offers(quotes.last(), price) {
        Some(quotes.last().unwrap().1)
    } else {
        offered(quotes.drop_last(), price)
    }
}

/// Whether `after` shows `quantity` at every price, but for prices behind the worst level of a side
/// that has all the `max` levels it may have.
pub open spec fn shows(
    side: Side,
    after: Seq<Level>,
    quantity: spec_fn(Decimal) -> Option<Decimal>,
    max: nat,
) -> bool {
    &&& best_first(side, after)
    &&& book::all_positive(after)
    &&& after.len() <= max
    &&& forall|price: Decimal|
        #![trigger quantity_at(after, price)]
        quantity_at(after, price) == quantity(price) || (quantity_at(after, price) is None
            && after.len() == max && forall|i: int|
            0 <= i < after.len() ==> better(side, (#[trigger] after[i]).price.0, price))
}

/// Whether `after` is the side `before` with all `changes` made: at every price the quantity of the
/// last change that names it, or else what was there; no more than `max` levels, the worst left out.
pub open spec fn is_update(
    side: Side,
    before: Seq<Level>,
    changes: Seq<Option<(Decimal, Decimal)>>,
    after: Seq<Level>,
    max: nat,
) -> bool {
    shows(side, after, |price: Decimal| settled(before, changes, price), max)
}

/// Whether `after` is what `quotes` offer: at every price the quantity of the last one that offers
/// something; no more than `max` levels, the worst left out.
pub open spec fn is_listing(
    side: Side,
    quotes: Seq<Option<(Decimal, Decimal)>>,
    after: Seq<Level>,
    max: nat,
) -> bool {
    shows(side, after, |price: Decimal| offered(quotes, price), max)
}

/// Whether `top` is the best of `levels`, `n` of them or all where there are no more.
pub open spec fn is_top(levels: Seq<Level>, n: nat, top: Seq<Level>) -> bool {
    &&& top.len() == if levels.len() < n {
        levels.len()
    } else {
        n
    }
    &&& forall|i: int| 0 <= i < top.len() ==> #[trigger] top[i] == levels[i]
}

proof fn lemma_settled(
    side: Side,
    levels: Seq<Level>,
    changes: Seq<Option<(Decimal, Decimal)>>,
    price: Decimal,
)
    requires
        best_first(side, levels),
    ensures
        quantity_at(updated(side, levels, changes), price) == settled(levels, changes, price),
    decreases changes.len(),
{
    if changes.len() > 0 {
        let front = changes.drop_last();
        let before = updated(side, levels, front);
        lemma_updated_wf(side, levels, front);
        lemma_settled(side, levels, front, price);
        if let Some((p, q)) = changes.last() {
            if p.units() == price.units() {
                law_set_quantity_is_read_back(side, before, p, q);
                lemma_with_level_wf(side, before, p, q);
                lemma_same_price(side, with_level(side, before, p, q), p, price);
            } else {
                law_set_leaves_other_prices(side, before, p, q, price);
            }
        }
    }
}

proof fn lemma_offered(side: Side, quotes: Seq<Option<(Decimal, Decimal)>>, price: Decimal)
    ensures
        quantity_at(listed(side, quotes), price) == offered(quotes, price),
    decreases quotes.len(),
{
    if quotes.len() > 0 {
        let front = quotes.drop_last();
        let before = listed(side, front);
        lemma_listed_wf(side, front);
        lemma_offered(side, front, price);
        if let Some((p, q)) = quotes.last() {
            if q.units() > 0 {
                if p.units() == price.units() {
                    law_set_quantity_is_read_back(side, before, p, q);
                    lemma_with_level_wf(side, before, p, q);
                    lemma_same_price(side, with_level(side, before, p, q), p, price);
                } else {
                    law_set_leaves_other_prices(side, before, p, q, price);
                }
            }
        }
    }
}

/// What is at a price does not depend on how the price is written.
proof fn lemma_same_price(side: Side, levels: Seq<Level>, a: Decimal, b: Decimal)
    requires
        best_first(side, levels),
        a.units() == b.units(),
    ensures
        quantity_at(levels, a) == quantity_at(levels, b),
{
    if exists|i: int| stands_at(levels, i, a) {
        let i = choose|i: int| stands_at(levels, i, a);
        lemma_quantity_at(side, levels, a, i);
        assert(stands_at(levels, i, b));
        lemma_quantity_at(side, levels, b, i);
    } else {
        assert forall|i: int| !stands_at(levels, i, b) by {
            assert(!stands_at(levels, i, a));
        }
    }
}

/// A side with changes made and the worst levels cut off shows at every price what the changes and
/// the side before say of it.
pub proof fn law_update_makes_every_change(
    side: Side,
    levels: Seq<Level>,
    changes: Seq<Option<(Decimal, Decimal)>>,
    max: nat,
)
    requires
        best_first(side, levels),
        book::all_positive(levels),
    ensures
        is_update(side, levels, changes, first_of(updated(side, levels, changes), max), max),
{
    let all = updated(side, levels, changes);
    lemma_updated_wf(side, levels, changes);
    law_only_the_worst_levels_go(side, all, max);
    assert forall|price: Decimal| #[trigger] quantity_at(all, price) == settled(
        levels,
        changes,
        price,
    ) by {
        lemma_settled(side, levels, changes, price);
    }
}

/// Quotes that are listed, the worst cut off, show at every price what the quotes say of it.
pub proof fn law_listing_takes_every_quote(
    side: Side,
    quotes: Seq<Option<(Decimal, Decimal)>>,
    max: nat,
)
    ensures
        is_listing(side, quotes, first_of(listed(side, quotes), max), max),
{
    let all = listed(side, quotes);
    lemma_listed_wf(side, quotes);
    law_only_the_worst_levels_go(side, all, max);
    assert forall|price: Decimal| #[trigger] quantity_at(all, price) == offered(quotes, price) by {
        lemma_offered(side, quotes, price);
    }
}

} // verus!
