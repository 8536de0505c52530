//! The price by which positions are turned into dollars.

use vstd::prelude::*;

use crate::book::OrderBook;
use crate::decimal::Overflow;
use crate::num::Price;
use crate::store::BookStore;
use crate::symbol::{Dex, Symbol};

verus! {

/// Takes the price from the book that came in last. Venues differ by too little to matter here. A
/// crossed book is not trusted.
pub struct BookMidPrices {
    dexes: Vec<Dex>,
}

/// The book that came in last among those of `dexes` that are there and not crossed; of those that
/// came in together, the one of the last venue.
pub open spec fn freshest(
    books: Map<(Dex, Symbol), OrderBook>,
    dexes: Seq<Dex>,
    symbol: Symbol,
) -> Option<OrderBook>
    decreases dexes.len(),
{
    if dexes.len() == 0 {
        None
    } else {
        let before = freshest(books, dexes.drop_last(), symbol);
        let key = (dexes.last(), symbol);
        if !books.contains_key(key) || books[key].crossed() {
            before
        } else {
            match before {
                Some(book) => if books[key].trace.received_wall_ms >= book.trace.received_wall_ms {
                    Some(books[key])
                } else {
                    before
                },
                None => Some(books[key]),
            }
        }
    }
}

/// The price of `symbol`: nothing where there is no book with two sides to take it from.
pub open spec fn mark_price_outcome(
    books: Map<(Dex, Symbol), OrderBook>,
    dexes: Seq<Dex>,
    symbol: Symbol,
) -> Result<Option<Price>, Overflow> {
    match freshest(books, dexes, symbol) {
        Some(book) => book.mid_outcome(),
        None => Ok(None),
    }
}

impl BookMidPrices {
    /// The venues whose books are looked at.
    pub closed spec fn venues(self) -> Seq<Dex> {
        self.dexes@
    }

    /// Prices from the books of `dexes`.
    pub fn new(dexes: Vec<Dex>) -> (r: BookMidPrices)
        ensures
            r.venues() == dexes@,
    {
        BookMidPrices { dexes }
    }

    /// The price of `symbol`.
    pub fn checked_mark_price(&self, store: &BookStore, symbol: Symbol) -> (r: Result<
        Option<Price>,
        Overflow,
    >)
        requires
            store.wf(),
        ensures
            r == mark_price_outcome(store@, self.venues(), symbol),
    {
        let n: usize = self.dexes.len();
        let mut best: Option<&OrderBook> = None;
        let mut i: usize = 0;
        while i < n
            invariant
                store.wf(),
                i <= n,
                n == self.dexes@.len(),
                best is Some <==> freshest(store@, self.dexes@.take(i as int), symbol) is Some,
                best matches Some(b) ==> freshest(store@, self.dexes@.take(i as int), symbol)
                    == Some(*b),
            decreases n - i,
        {
            proof {
                assert(self.dexes@.take(i + 1).drop_last() =~= self.dexes@.take(i as int));
                assert(self.dexes@.take(i + 1).last() == self.dexes@[i as int]);
            }
            if let Some(book) = store.get(self.dexes[i], symbol) {
                if !book.is_crossed() {
                    let later = match best {
                        Some(b) => book.trace.received_wall_ms >= b.trace.received_wall_ms,
                        None => true,
                    };
                    if later {
                        best = Some(book);
                    }
                }
            }
            i += 1;
        }
        proof {
            assert(self.dexes@.take(n as int) =~= self.dexes@);
        }
        match best {
            Some(book) => book.checked_mid(),
            None => Ok(None),
        }
    }

    /// The price of `symbol`; `None` where there is none. A price of zero would hide a position.
    pub fn mark_price(&self, store: &BookStore, symbol: Symbol) -> (r: Option<Price>)
        requires
            store.wf(),
            mark_price_outcome(store@, self.venues(), symbol) is Ok,
        ensures
            mark_price_outcome(store@, self.venues(), symbol) == Ok::<Option<Price>, Overflow>(r),
    {
        match self.checked_mark_price(store, symbol) {
            Ok(price) => price,
            Err(_) => None,
        }
    }
}

/// The book that the price is taken from is not crossed, and none of the others that could be taken
/// came in later.
pub proof fn law_price_comes_from_the_freshest_book(
    books: Map<(Dex, Symbol), OrderBook>,
    dexes: Seq<Dex>,
    symbol: Symbol,
    i: int,
)
    requires
        0 <= i < dexes.len(),
        books.contains_key((dexes[i], symbol)),
        !books[(dexes[i], symbol)].crossed(),
    ensures
        freshest(books, dexes, symbol) matches Some(book) && !book.crossed()
            && book.trace.received_wall_ms >= books[(dexes[i], symbol)].trace.received_wall_ms,
    decreases dexes.len(),
{
    lemma_never_crossed(books, dexes, symbol);
    if i < dexes.len() - 1 {
        assert(dexes.drop_last()[i] == dexes[i]);
        law_price_comes_from_the_freshest_book(books, dexes.drop_last(), symbol, i);
    } else {
        lemma_never_crossed(books, dexes.drop_last(), symbol);
    }
}

proof fn lemma_never_crossed(
    books: Map<(Dex, Symbol), OrderBook>,
    dexes: Seq<Dex>,
    symbol: Symbol,
)
    ensures
        freshest(books, dexes, symbol) matches Some(book) ==> !book.crossed(),
    decreases dexes.len(),
{
    if dexes.len() > 0 {
        lemma_never_crossed(books, dexes.drop_last(), symbol);
    }
}

/// The book that the price is taken from is that of one of the venues; there is none only where no
/// venue has a book that is not crossed.
pub proof fn law_price_comes_from_one_of_the_venues(
    books: Map<(Dex, Symbol), OrderBook>,
    dexes: Seq<Dex>,
    symbol: Symbol,
)
    ensures
        match freshest(books, dexes, symbol) {
            Some(book) => exists|i: int|
                0 <= i < dexes.len() && books.contains_key((#[trigger] dexes[i], symbol))
                    && books[(dexes[i], symbol)] == book,
            None => forall|i: int|
                0 <= i < dexes.len() && books.contains_key((#[trigger] dexes[i], symbol))
                    ==> books[(dexes[i], symbol)].crossed(),
        },
    decreases dexes.len(),
{
    if dexes.len() > 0 {
        let front = dexes.drop_last();
        law_price_comes_from_one_of_the_venues(books, front, symbol);
        assert(dexes[dexes.len() - 1] == dexes.last());
        match freshest(books, dexes, symbol) {
            Some(book) => {
                if books.contains_key((dexes.last(), symbol)) && books[(dexes.last(), symbol)]
                    == book {
                    assert(dexes[dexes.len() - 1] == dexes.last());
                } else {
                    let i = choose|i: int|
                        0 <= i < front.len() && books.contains_key((#[trigger] front[i], symbol))
                            && books[(front[i], symbol)] == book;
                    assert(dexes[i] == front[i]);
                }
            },
            None => {
                assert forall|i: int|
                    0 <= i < dexes.len() && books.contains_key(
                        (#[trigger] dexes[i], symbol),
                    ) implies books[(dexes[i], symbol)].crossed() by {
                    if i < front.len() {
                        assert(front[i] == dexes[i]);
                    }
                }
            },
        }
    }
}

/// The price is the mid price of the freshest book, and there is none without such a book.
pub proof fn law_price_is_the_mid_price(
    books: Map<(Dex, Symbol), OrderBook>,
    dexes: Seq<Dex>,
    symbol: Symbol,
)
    ensures
        freshest(books, dexes, symbol) is None ==> mark_price_outcome(books, dexes, symbol) == Ok::<
            Option<Price>,
            Overflow,
        >(None),
        freshest(books, dexes, symbol) matches Some(book) ==> mark_price_outcome(
            books,
            dexes,
            symbol,
        ) == book.mid_outcome(),
{
}

/// Of the books that came in together, the price is taken from that of the last venue: every book
/// behind it that could be taken came in earlier.
pub proof fn law_last_of_the_freshest_books_is_taken(
    books: Map<(Dex, Symbol), OrderBook>,
    dexes: Seq<Dex>,
    symbol: Symbol,
) -> (i: int)
    requires
        freshest(books, dexes, symbol) is Some,
    ensures
        0 <= i < dexes.len(),
        books.contains_key((dexes[i], symbol)),
        freshest(books, dexes, symbol) == Some(books[(dexes[i], symbol)]),
        forall|j: int|
            i < j < dexes.len() && books.contains_key((#[trigger] dexes[j], symbol))
                && !books[(dexes[j], symbol)].crossed()
                ==> books[(dexes[j], symbol)].trace.received_wall_ms
                < books[(dexes[i], symbol)].trace.received_wall_ms,
    decreases dexes.len(),
{
    let front = dexes.drop_last();
    let key = (dexes.last(), symbol);
    if books.contains_key(key) && !books[key].crossed() && (freshest(books, front, symbol) is None
        || books[key].trace.received_wall_ms >= freshest(
        books,
        front,
        symbol,
    ).unwrap().trace.received_wall_ms) {
        dexes.len() - 1
    } else {
        let i = law_last_of_the_freshest_books_is_taken(books, front, symbol);
        assert forall|j: int|
            i < j < dexes.len() && books.contains_key((#[trigger] dexes[j], symbol))
                && !books[(dexes[j], symbol)].crossed() implies books[(
            dexes[j],
            symbol,
        )].trace.received_wall_ms < books[(dexes[i], symbol)].trace.received_wall_ms by {
            if j < front.len() {
                assert(front[j] == dexes[j]);
            }
        }
        i
    }
}

} // verus!
