//! The latest books.

use vstd::prelude::*;

use crate::book::OrderBook;
use crate::decimal::{Decimal, Overflow};
use crate::divergence::DivergenceSnapshot;
use crate::latest::Latest;
use crate::symbol::{Dex, Symbol};
use crate::time::{Clock, Instant};

verus! {

/// The latest book of each venue and instrument.
pub struct BookStore {
    books: Latest<OrderBook>,
}

impl View for BookStore {
    type V = Map<(Dex, Symbol), OrderBook>;

    closed spec fn view(&self) -> Map<(Dex, Symbol), OrderBook> {
        self.books@
    }
}

/// The snapshot of the books of two venues, where both are there.
pub open spec fn stored_outcome(
    books: Map<(Dex, Symbol), OrderBook>,
    symbol: Symbol,
    pair: (Dex, Dex),
    trigger_dex: Dex,
    vwap_notional: Option<Decimal>,
    at: Instant,
    wall_ms: u64,
) -> Result<Option<DivergenceSnapshot>, Overflow> {
    if books.contains_key((pair.0, symbol)) && books.contains_key((pair.1, symbol)) {
        DivergenceSnapshot::outcome(
            books[(pair.0, symbol)],
            books[(pair.1, symbol)],
            trigger_dex,
            vwap_notional,
            at,
            wall_ms,
        )
    } else {
        Ok(None)
    }
}

/// Whether the numbers of the comparison can be expressed, where both books are there.
pub open spec fn stored_computable(
    books: Map<(Dex, Symbol), OrderBook>,
    symbol: Symbol,
    pair: (Dex, Dex),
    vwap_notional: Option<Decimal>,
) -> bool {
    books.contains_key((pair.0, symbol)) && books.contains_key((pair.1, symbol))
        ==> DivergenceSnapshot::computable(
        books[(pair.0, symbol)],
        books[(pair.1, symbol)],
        vwap_notional,
    )
}

/// Whether `snapshots` are those of `pairs`, in their order and each made at a time of its own. A
/// pair that has none, such as one with a book that has not come in, is passed over.
pub open spec fn are_snapshots(
    books: Map<(Dex, Symbol), OrderBook>,
    symbol: Symbol,
    pairs: Seq<(Dex, Dex)>,
    trigger_dex: Dex,
    vwap_notional: Option<Decimal>,
    snapshots: Seq<DivergenceSnapshot>,
) -> bool
    decreases pairs.len(),
{
    if pairs.len() == 0 {
        snapshots.len() == 0
    } else {
        exists|at: Instant, wall_ms: u64|
            match #[trigger] stored_outcome(
                books,
                symbol,
                pairs.last(),
                trigger_dex,
                vwap_notional,
                at,
                wall_ms,
            ) {
                Ok(Some(snapshot)) => snapshots.len() > 0 && snapshots.last() == snapshot
                    && are_snapshots(
                    books,
                    symbol,
                    pairs.drop_last(),
                    trigger_dex,
                    vwap_notional,
                    snapshots.drop_last(),
                ),
                Ok(None) => are_snapshots(
                    books,
                    symbol,
                    pairs.drop_last(),
                    trigger_dex,
                    vwap_notional,
                    snapshots,
                ),
                Err(_) => false,
            }
    }
}

impl BookStore {
    /// Whether the store is in order.
    pub closed spec fn wf(self) -> bool {
        self.books.wf()
    }

    /// A store without books.
    pub fn new() -> (r: BookStore)
        ensures
            r.wf(),
            r@ == Map::<(Dex, Symbol), OrderBook>::empty(),
    {
        BookStore { books: Latest::new() }
    }

    /// Takes `book` as the latest of its venue and instrument.
    pub fn update(&mut self, book: OrderBook)
        requires
            old(self).wf(),
        ensures
            final(self).wf(),
            final(self)@ == old(self)@.insert((book.dex, book.symbol), book),
    {
        self.books.set(book.dex, book.symbol, book);
    }

    /// The latest book.
    pub fn get(&self, dex: Dex, symbol: Symbol) -> (r: Option<&OrderBook>)
        requires
            self.wf(),
        ensures
            r is Some <==> self@.contains_key((dex, symbol)),
            r matches Some(book) ==> *book == self@[(dex, symbol)],
    {
        self.books.get(dex, symbol)
    }

    /// How many books are there: at most one for each pair of a venue and an instrument.
    pub fn len(&self) -> (r: usize)
        requires
            self.wf(),
        ensures
            r == self@.len(),
            r <= 20,
    {
        self.books.len()
    }

    /// Whether no book is there.
    pub fn is_empty(&self) -> (r: bool)
        requires
            self.wf(),
        ensures
            r == (self@.len() == 0),
    {
        self.books.len() == 0
    }

    /// Compares the books of two venues at the given time.
    pub fn checked_divergence_at(
        &self,
        symbol: Symbol,
        dex_a: Dex,
        dex_b: Dex,
        trigger_dex: Dex,
        vwap_notional: Option<Decimal>,
        at: Instant,
        wall_ms: u64,
    ) -> (r: Result<Option<DivergenceSnapshot>, Overflow>)
        requires
            self.wf(),
        ensures
            r == stored_outcome(
                self@,
                symbol,
                (dex_a, dex_b),
                trigger_dex,
                vwap_notional,
                at,
                wall_ms,
            ),
            r is Ok <==> stored_computable(self@, symbol, (dex_a, dex_b), vwap_notional),
    {
        match (self.books.get(dex_a, symbol), self.books.get(dex_b, symbol)) {
            (Some(book_a), Some(book_b)) => DivergenceSnapshot::checked_compute_at(
                book_a,
                book_b,
                trigger_dex,
                vwap_notional,
                at,
                wall_ms,
            ),
            _ => Ok(None),
        }
    }

    /// Compares the books of two venues now.
    pub fn checked_divergence(
        &self,
        symbol: Symbol,
        dex_a: Dex,
        dex_b: Dex,
        trigger_dex: Dex,
        vwap_notional: Option<Decimal>,
        clock: &Clock,
    ) -> (r: Result<Option<DivergenceSnapshot>, Overflow>)
        requires
            self.wf(),
        ensures
            exists|at: Instant, wall_ms: u64|
                r == #[trigger] stored_outcome(
                    self@,
                    symbol,
                    (dex_a, dex_b),
                    trigger_dex,
                    vwap_notional,
                    at,
                    wall_ms,
                ),
            r is Ok <==> stored_computable(self@, symbol, (dex_a, dex_b), vwap_notional),
    {
        match (self.books.get(dex_a, symbol), self.books.get(dex_b, symbol)) {
            (Some(book_a), Some(book_b)) => {
                let r = DivergenceSnapshot::checked_compute(
                    book_a,
                    book_b,
                    trigger_dex,
                    vwap_notional,
                    clock,
                );
                proof {
                    let (at, wall_ms) = choose|at: Instant, wall_ms: u64|
                        r == #[trigger] DivergenceSnapshot::outcome(
                            *book_a,
                            *book_b,
                            trigger_dex,
                            vwap_notional,
                            at,
                            wall_ms,
                        );
                    assert(r == stored_outcome(
                        self@,
                        symbol,
                        (dex_a, dex_b),
                        trigger_dex,
                        vwap_notional,
                        at,
                        wall_ms,
                    ));
                }
                r
            },
            _ => {
                proof {
                    let at = Instant { nanos: 0 };
                    assert(stored_outcome(
                        self@,
                        symbol,
                        (dex_a, dex_b),
                        trigger_dex,
                        vwap_notional,
                        at,
                        0,
                    ) == Ok::<Option<DivergenceSnapshot>, Overflow>(None));
                }
                Ok(None)
            },
        }
    }

    /// Compares the books of two venues now; `None` where one of them has not come in, or where
    /// they cannot be compared. `trigger_dex` is the venue whose book has just changed.
    pub fn divergence(
        &self,
        symbol: Symbol,
        dex_a: Dex,
        dex_b: Dex,
        trigger_dex: Dex,
        vwap_notional: Option<Decimal>,
        clock: &Clock,
    ) -> (r: Option<DivergenceSnapshot>)
        requires
            self.wf(),
            stored_computable(self@, symbol, (dex_a, dex_b), vwap_notional),
        ensures
            exists|at: Instant, wall_ms: u64|
                Ok::<Option<DivergenceSnapshot>, Overflow>(r) == #[trigger] stored_outcome(
                    self@,
                    symbol,
                    (dex_a, dex_b),
                    trigger_dex,
                    vwap_notional,
                    at,
                    wall_ms,
                ),
    {
        match self.checked_divergence(symbol, dex_a, dex_b, trigger_dex, vwap_notional, clock) {
            Ok(snapshot) => snapshot,
            Err(_) => None,
        }
    }

    /// Compares the books of each pair, and stops at numbers that cannot be expressed. Not every
    /// venue has every instrument: a pair without its two books is passed over.
    pub fn checked_divergences(
        &self,
        symbol: Symbol,
        pairs: &[(Dex, Dex)],
        trigger_dex: Dex,
        vwap_notional: Option<Decimal>,
        clock: &Clock,
    ) -> (r: Result<Vec<DivergenceSnapshot>, Overflow>)
        requires
            self.wf(),
        ensures
            r matches Ok(snapshots) ==> are_snapshots(
                self@,
                symbol,
                pairs@,
                trigger_dex,
                vwap_notional,
                snapshots@,
            ),
            r is Ok <==> forall|i: int|
                0 <= i < pairs@.len() ==> stored_computable(
                    self@,
                    symbol,
                    #[trigger] pairs@[i],
                    vwap_notional,
                ),
    {
        let n: usize = pairs.len();
        let mut out: Vec<DivergenceSnapshot> = Vec::new();
        let mut i: usize = 0;
        while i < n
            invariant
                self.wf(),
                i <= n,
                n == pairs@.len(),
                forall|j: int|
                    0 <= j < i ==> stored_computable(
                        self@,
                        symbol,
                        #[trigger] pairs@[j],
                        vwap_notional,
                    ),
                are_snapshots(
                    self@,
                    symbol,
                    pairs@.take(i as int),
                    trigger_dex,
                    vwap_notional,
                    out@,
                ),
            decreases n - i,
        {
            let pair = pairs[i];
            let ghost before = out@;
            proof {
                assert(pair == pairs@[i as int]);
                assert(pairs@.take(i + 1).drop_last() =~= pairs@.take(i as int));
                assert(pairs@.take(i + 1).last() == pair);
            }
            match self.checked_divergence(
                symbol,
                pair.0,
                pair.1,
                trigger_dex,
                vwap_notional,
                clock,
            ) {
                Ok(Some(snapshot)) => {
                    out.push(snapshot);
                    proof {
                        assert(out@.drop_last() =~= before);
                    }
                },
                Ok(None) => {},
                Err(e) => {
                    proof {
                        assert(!stored_computable(
                            self@,
                            symbol,
                            pairs@[i as int],
                            vwap_notional,
                        ));
                    }
                    return Err(e);
                },
            }
            i += 1;
        }
        proof {
            assert(pairs@.take(n as int) =~= pairs@);
        }
        Ok(out)
    }

    /// Compares the books of each pair. Not every venue has every instrument: a pair without its
    /// two books is passed over.
    pub fn divergences(
        &self,
        symbol: Symbol,
        pairs: &[(Dex, Dex)],
        trigger_dex: Dex,
        vwap_notional: Option<Decimal>,
        clock: &Clock,
    ) -> (r: Vec<DivergenceSnapshot>)
        requires
            self.wf(),
            forall|i: int|
                0 <= i < pairs@.len() ==> stored_computable(
                    self@,
                    symbol,
                    #[trigger] pairs@[i],
                    vwap_notional,
                ),
        ensures
            are_snapshots(self@, symbol, pairs@, trigger_dex, vwap_notional, r@),
    {
        match self.checked_divergences(symbol, pairs, trigger_dex, vwap_notional, clock) {
            Ok(snapshots) => snapshots,
            Err(_) => Vec::new(),
        }
    }
}

/// A book that was taken is read back until another of its venue and instrument comes in; the
/// books of other venues and instruments stay as they are.
pub proof fn law_latest_book_is_read_back(
    books: Map<(Dex, Symbol), OrderBook>,
    book: OrderBook,
    dex: Dex,
    symbol: Symbol,
)
    ensures
        ({
            let after = books.insert((book.dex, book.symbol), book);
            &&& after[(book.dex, book.symbol)] == book
            &&& (dex, symbol) != (book.dex, book.symbol) ==> (after.contains_key((dex, symbol))
                == books.contains_key((dex, symbol)) && after[(dex, symbol)] == books[(
                dex,
                symbol,
            )])
        }),
{
}

/// A pair of which a book has not come in has no snapshot, and that is no fault.
pub proof fn law_missing_book_is_passed_over(
    books: Map<(Dex, Symbol), OrderBook>,
    symbol: Symbol,
    pair: (Dex, Dex),
    trigger_dex: Dex,
    vwap_notional: Option<Decimal>,
    at: Instant,
    wall_ms: u64,
)
    requires
        !books.contains_key((pair.0, symbol)) || !books.contains_key((pair.1, symbol)),
    ensures
        stored_outcome(books, symbol, pair, trigger_dex, vwap_notional, at, wall_ms) == Ok::<
            Option<DivergenceSnapshot>,
            Overflow,
        >(None),
        stored_computable(books, symbol, pair, vwap_notional),
{
}

/// Where both books of a pair are there, they are compared, the first one as A and the second one as
/// B.
pub proof fn law_stored_books_are_compared(
    books: Map<(Dex, Symbol), OrderBook>,
    symbol: Symbol,
    pair: (Dex, Dex),
    trigger_dex: Dex,
    vwap_notional: Option<Decimal>,
    at: Instant,
    wall_ms: u64,
    a: OrderBook,
    b: OrderBook,
)
    requires
        books.contains_key((pair.0, symbol)) && books[(pair.0, symbol)] == a,
        books.contains_key((pair.1, symbol)) && books[(pair.1, symbol)] == b,
    ensures
        stored_outcome(books, symbol, pair, trigger_dex, vwap_notional, at, wall_ms)
            == DivergenceSnapshot::outcome(a, b, trigger_dex, vwap_notional, at, wall_ms),
        stored_computable(books, symbol, pair, vwap_notional) == DivergenceSnapshot::computable(
            a,
            b,
            vwap_notional,
        ),
{
}

/// Whether a pair has a snapshot does not depend on the time.
proof fn lemma_time_does_not_matter(
    books: Map<(Dex, Symbol), OrderBook>,
    symbol: Symbol,
    pair: (Dex, Dex),
    trigger_dex: Dex,
    vwap_notional: Option<Decimal>,
    at: Instant,
    wall_ms: u64,
    other_at: Instant,
    other_ms: u64,
)
    ensures
        stored_outcome(books, symbol, pair, trigger_dex, vwap_notional, at, wall_ms) matches Ok(
            Some(_),
        ) <==> stored_outcome(
            books,
            symbol,
            pair,
            trigger_dex,
            vwap_notional,
            other_at,
            other_ms,
        ) matches Ok(Some(_)),
{
}

/// Whether the books of a pair can be compared, so that it has a snapshot.
pub open spec fn has_snapshot(
    books: Map<(Dex, Symbol), OrderBook>,
    symbol: Symbol,
    pair: (Dex, Dex),
    trigger_dex: Dex,
    vwap_notional: Option<Decimal>,
) -> bool {
    exists|snapshot: DivergenceSnapshot|
        is_snapshot_of(books, symbol, pair, trigger_dex, vwap_notional, snapshot)
}

/// The last pair either has its snapshot at the end of the list, or has none.
proof fn lemma_last_pair(
    books: Map<(Dex, Symbol), OrderBook>,
    symbol: Symbol,
    pairs: Seq<(Dex, Dex)>,
    trigger_dex: Dex,
    vwap_notional: Option<Decimal>,
    snapshots: Seq<DivergenceSnapshot>,
) -> (found: bool)
    requires
        pairs.len() > 0,
        are_snapshots(books, symbol, pairs, trigger_dex, vwap_notional, snapshots),
    ensures
        found ==> snapshots.len() > 0 && is_snapshot_of(
            books,
            symbol,
            pairs.last(),
            trigger_dex,
            vwap_notional,
            snapshots.last(),
        ) && are_snapshots(
            books,
            symbol,
            pairs.drop_last(),
            trigger_dex,
            vwap_notional,
            snapshots.drop_last(),
        ),
        !found ==> !has_snapshot(books, symbol, pairs.last(), trigger_dex, vwap_notional)
            && are_snapshots(
            books,
            symbol,
            pairs.drop_last(),
            trigger_dex,
            vwap_notional,
            snapshots,
        ),
{
    let (at, wall_ms) = choose|at: Instant, wall_ms: u64|
        match #[trigger] stored_outcome(
            books,
            symbol,
            pairs.last(),
            trigger_dex,
            vwap_notional,
            at,
            wall_ms,
        ) {
            Ok(Some(snapshot)) => snapshots.len() > 0 && snapshots.last() == snapshot
                && are_snapshots(
                books,
                symbol,
                pairs.drop_last(),
                trigger_dex,
                vwap_notional,
                snapshots.drop_last(),
            ),
            Ok(None) => are_snapshots(
                books,
                symbol,
                pairs.drop_last(),
                trigger_dex,
                vwap_notional,
                snapshots,
            ),
            Err(_) => false,
        };
    let outcome = stored_outcome(
        books,
        symbol,
        pairs.last(),
        trigger_dex,
        vwap_notional,
        at,
        wall_ms,
    );
    if !(outcome matches Ok(Some(_))) {
        assert forall|snapshot: DivergenceSnapshot| !is_snapshot_of(
            books,
            symbol,
            pairs.last(),
            trigger_dex,
            vwap_notional,
            snapshot,
        ) by {
            if is_snapshot_of(
                books,
                symbol,
                pairs.last(),
                trigger_dex,
                vwap_notional,
                snapshot,
            ) {
                let (x, y) = choose|x: Instant, y: u64|
                    #[trigger] stored_outcome(
                        books,
                        symbol,
                        pairs.last(),
                        trigger_dex,
                        vwap_notional,
                        x,
                        y,
                    ) == Ok::<Option<DivergenceSnapshot>, Overflow>(Some(snapshot));
                lemma_time_does_not_matter(
                    books,
                    symbol,
                    pairs.last(),
                    trigger_dex,
                    vwap_notional,
                    x,
                    y,
                    at,
                    wall_ms,
                );
            }
        }
    }
    outcome matches Ok(Some(_))
}

/// Every pair that can be compared has its snapshot among those that are made, however many pairs there
/// are.
pub proof fn law_every_pair_has_its_snapshot(
    books: Map<(Dex, Symbol), OrderBook>,
    symbol: Symbol,
    pairs: Seq<(Dex, Dex)>,
    trigger_dex: Dex,
    vwap_notional: Option<Decimal>,
    snapshots: Seq<DivergenceSnapshot>,
    i: int,
)
    requires
        are_snapshots(books, symbol, pairs, trigger_dex, vwap_notional, snapshots),
        0 <= i < pairs.len(),
        has_snapshot(books, symbol, pairs[i], trigger_dex, vwap_notional),
    ensures
        exists|k: int|
            0 <= k < snapshots.len() && is_snapshot_of(
                books,
                symbol,
                pairs[i],
                trigger_dex,
                vwap_notional,
                #[trigger] snapshots[k],
            ),
    decreases pairs.len(),
{
    let front = pairs.drop_last();
    let found = lemma_last_pair(books, symbol, pairs, trigger_dex, vwap_notional, snapshots);
    if i == pairs.len() - 1 {
        assert(pairs[i] == pairs.last());
        assert(snapshots[snapshots.len() - 1] == snapshots.last());
    } else {
        let rest = if found {
            snapshots.drop_last()
        } else {
            snapshots
        };
        assert(front[i] == pairs[i]);
        law_every_pair_has_its_snapshot(
            books,
            symbol,
            front,
            trigger_dex,
            vwap_notional,
            rest,
            i,
        );
        let k = choose|k: int|
            0 <= k < rest.len() && is_snapshot_of(
                books,
                symbol,
                front[i],
                trigger_dex,
                vwap_notional,
                #[trigger] rest[k],
            );
        assert(snapshots[k] == rest[k]);
    }
}

/// Every snapshot that is made is that of a pair, and no pair has more than one.
pub proof fn law_every_snapshot_is_that_of_a_pair(
    books: Map<(Dex, Symbol), OrderBook>,
    symbol: Symbol,
    pairs: Seq<(Dex, Dex)>,
    trigger_dex: Dex,
    vwap_notional: Option<Decimal>,
    snapshots: Seq<DivergenceSnapshot>,
    i: int,
)
    requires
        are_snapshots(books, symbol, pairs, trigger_dex, vwap_notional, snapshots),
    ensures
        snapshots.len() <= pairs.len(),
        0 <= i < snapshots.len() ==> exists|k: int|
            0 <= k < pairs.len() && is_snapshot_of(
                books,
                symbol,
                #[trigger] pairs[k],
                trigger_dex,
                vwap_notional,
                snapshots[i],
            ),
    decreases pairs.len(),
{
    if pairs.len() > 0 {
        let front = pairs.drop_last();
        let found = lemma_last_pair(books, symbol, pairs, trigger_dex, vwap_notional, snapshots);
        let rest = if found {
            snapshots.drop_last()
        } else {
            snapshots
        };
        law_every_snapshot_is_that_of_a_pair(
            books,
            symbol,
            front,
            trigger_dex,
            vwap_notional,
            rest,
            i,
        );
        if 0 <= i < rest.len() {
            let k = choose|k: int|
                0 <= k < front.len() && is_snapshot_of(
                    books,
                    symbol,
                    #[trigger] front[k],
                    trigger_dex,
                    vwap_notional,
                    rest[i],
                );
            assert(pairs[k] == front[k]);
            assert(snapshots[i] == rest[i]);
        } else if i == rest.len() && found {
            assert(pairs[pairs.len() - 1] == pairs.last());
            assert(snapshots[i] == snapshots.last());
        }
    }
}

/// Whether `snapshot` is one of the books of `pair`, made at some time.
pub open spec fn is_snapshot_of(
    books: Map<(Dex, Symbol), OrderBook>,
    symbol: Symbol,
    pair: (Dex, Dex),
    trigger_dex: Dex,
    vwap_notional: Option<Decimal>,
    snapshot: DivergenceSnapshot,
) -> bool {
    exists|at: Instant, wall_ms: u64|
        #[trigger] stored_outcome(books, symbol, pair, trigger_dex, vwap_notional, at, wall_ms)
            == Ok::<Option<DivergenceSnapshot>, Overflow>(Some(snapshot))
}

} // verus!
