//! What a source of market data counts.

use vstd::prelude::*;

verus! {

/// The counts of a source.
#[derive(Clone, Copy, Debug, PartialEq, Eq, Structural)]
pub struct SourceMetrics {
    /// Messages that came in.
    pub messages_received: u64,
    /// Books that went out.
    pub books_emitted: u64,
    /// Messages that could not be read.
    pub parse_errors: u64,
    /// Gaps in a sequence of changes.
    pub sequence_gaps: u64,
    /// Books that were built anew.
    pub resyncs: u64,
    /// Books with the best bid at or above the best ask.
    pub crossed_books: u64,
}

impl Default for SourceMetrics {
    fn default() -> (r: SourceMetrics)
        ensures
            r == SourceMetrics::none(),
    {
        SourceMetrics {
            messages_received: 0,
            books_emitted: 0,
            parse_errors: 0,
            sequence_gaps: 0,
            resyncs: 0,
            crossed_books: 0,
        }
    }
}

impl SourceMetrics {
    /// Nothing counted.
    pub open spec fn none() -> SourceMetrics {
        SourceMetrics {
            messages_received: 0,
            books_emitted: 0,
            parse_errors: 0,
            sequence_gaps: 0,
            resyncs: 0,
            crossed_books: 0,
        }
    }

    /// One message more.
    pub open spec fn with_message(self) -> SourceMetrics {
        SourceMetrics { messages_received: self.messages_received.wrapping_add(1), ..self }
    }

    /// One book more.
    pub open spec fn with_book(self) -> SourceMetrics {
        SourceMetrics { books_emitted: self.books_emitted.wrapping_add(1), ..self }
    }

    /// One message more that could not be read.
    pub open spec fn with_parse_error(self) -> SourceMetrics {
        SourceMetrics { parse_errors: self.parse_errors.wrapping_add(1), ..self }
    }

    /// One gap more.
    pub open spec fn with_sequence_gap(self) -> SourceMetrics {
        SourceMetrics { sequence_gaps: self.sequence_gaps.wrapping_add(1), ..self }
    }

    /// One book more that was built anew.
    pub open spec fn with_resync(self) -> SourceMetrics {
        SourceMetrics { resyncs: self.resyncs.wrapping_add(1), ..self }
    }

    /// One crossed book more.
    pub open spec fn with_crossed_book(self) -> SourceMetrics {
        SourceMetrics { crossed_books: self.crossed_books.wrapping_add(1), ..self }
    }
}

/// The counts of a source, as they grow. A count that is full starts at zero again.
#[derive(Clone, Copy, Debug, PartialEq, Eq, Structural)]
pub struct SourceCounters {
    counts: SourceMetrics,
}

impl View for SourceCounters {
    type V = SourceMetrics;

    closed spec fn view(&self) -> SourceMetrics {
        self.counts
    }
}

impl Default for SourceCounters {
    fn default() -> (r: SourceCounters)
        ensures
            r@ == SourceMetrics::none(),
    {
        SourceCounters { counts: SourceMetrics::default() }
    }
}

impl SourceCounters {
    /// Nothing counted.
    pub fn new() -> (r: SourceCounters)
        ensures
            r@ == SourceMetrics::none(),
    {
        SourceCounters { counts: SourceMetrics::default() }
    }

    /// Counts a message that came in.
    pub fn record_message(&mut self)
        ensures
            final(self)@ == old(self)@.with_message(),
    {
        self.counts.messages_received = self.counts.messages_received.wrapping_add(1);
    }

    /// Counts a book that went out.
    pub fn record_book(&mut self)
        ensures
            final(self)@ == old(self)@.with_book(),
    {
        self.counts.books_emitted = self.counts.books_emitted.wrapping_add(1);
    }

    /// Counts a message that could not be read.
    pub fn record_parse_error(&mut self)
        ensures
            final(self)@ == old(self)@.with_parse_error(),
    {
        self.counts.parse_errors = self.counts.parse_errors.wrapping_add(1);
    }

    /// Counts a gap in a sequence of changes.
    pub fn record_sequence_gap(&mut self)
        ensures
            final(self)@ == old(self)@.with_sequence_gap(),
    {
        self.counts.sequence_gaps = self.counts.sequence_gaps.wrapping_add(1);
    }

    /// Counts a book that was built anew.
    pub fn record_resync(&mut self)
        ensures
            final(self)@ == old(self)@.with_resync(),
    {
        self.counts.resyncs = self.counts.resyncs.wrapping_add(1);
    }

    /// Counts a crossed book.
    pub fn record_crossed_book(&mut self)
        ensures
            final(self)@ == old(self)@.with_crossed_book(),
    {
        self.counts.crossed_books = self.counts.crossed_books.wrapping_add(1);
    }

    /// The count of crossed books.
    pub fn crossed_books(&self) -> (r: u64)
        ensures
            r == self@.crossed_books,
    {
        self.counts.crossed_books
    }

    /// The counts.
    pub fn snapshot(&self) -> (r: SourceMetrics)
        ensures
            r == self@,
    {
        self.counts
    }
}

} // verus!
