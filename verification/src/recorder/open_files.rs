//! Which files are open: at most one for each instrument, all of the same day.

use vstd::prelude::*;

use crate::by_symbol::BySymbol;
use crate::dates::Date;
use crate::symbol;
use crate::symbol::Symbol;

verus! {

/// The open files: a day, and the instruments whose file of that day is open.
#[verifier::ext_equal]
pub struct Files {
    pub day: Option<Date>,
    pub symbols: Set<Symbol>,
}

/// What is to be done before a row can be written.
#[derive(Clone, Debug)]
pub enum Prepared {
    /// The file is open.
    Ready,
    /// The files of the instruments, of the day before, are to be closed, and the file is to be
    /// opened.
    Open { close: Vec<Symbol> },
}

/// Which files are open.
pub struct OpenFiles {
    day: Option<Date>,
    open: BySymbol<bool>,
}

impl View for OpenFiles {
    type V = Files;

    closed spec fn view(&self) -> Files {
        Files { day: self.day, symbols: self.open@.dom() }
    }
}

/// The instruments of `symbols`, in canonical order.
pub open spec fn listed(symbols: Set<Symbol>) -> Seq<Symbol> {
    symbol::all_symbols().filter(|s: Symbol| symbols.contains(s))
}

/// The open files once a row of `day` is due. Those of another day are closed.
pub open spec fn kept(files: Files, day: Date) -> Files {
    if files.day == Some(day) {
        files
    } else {
        Files { day: Some(day), symbols: Set::empty() }
    }
}

/// Whether a file of `size` bytes starts with the header: it does where nothing has been written to
/// it, and where it is not there yet or its size is not known.
pub fn starts_with_header(size: Option<u64>) -> (r: bool)
    ensures
        r == match size {
            Some(bytes) => bytes == 0,
            None => true,
        },
{
    match size {
        Some(bytes) => bytes == 0,
        None => true,
    }
}

impl OpenFiles {
    /// No file is open.
    pub fn new() -> (r: OpenFiles)
        ensures
            r@ == (Files { day: None, symbols: Set::empty() }),
    {
        let r = OpenFiles { day: None, open: BySymbol::new() };
        proof {
            assert(r@.symbols =~= Set::empty());
        }
        r
    }

    /// How many files are open.
    pub fn len(&self) -> (r: usize)
        ensures
            r == listed(self@.symbols).len(),
            r <= 4,
    {
        let open = self.list();
        proof {
            symbol::all_symbols().lemma_filter_len(|s: Symbol| self@.symbols.contains(s));
        }
        open.len()
    }

    fn list(&self) -> (r: Vec<Symbol>)
        ensures
            r@ == listed(self@.symbols),
    {
        let all = Symbol::ALL;
        let ghost is_open = |s: Symbol| self@.symbols.contains(s);
        let mut out: Vec<Symbol> = Vec::new();
        let mut i: usize = 0;
        proof {
            reveal(Seq::filter);
            assert(all@ =~= symbol::all_symbols());
            assert(all@.take(0).filter(is_open) =~= Seq::<Symbol>::empty());
        }
        while i < 4
            invariant
                i <= 4,
                all@ == symbol::all_symbols(),
                is_open == (|s: Symbol| self@.symbols.contains(s)),
                out@ == all@.take(i as int).filter(is_open),
            decreases 4 - i,
        {
            proof {
                reveal(Seq::filter);
                assert(all@.take(i + 1).drop_last() =~= all@.take(i as int));
                assert(all@.take(i + 1).last() == all@[i as int]);
            }
            if self.open.contains(all[i]) {
                out.push(all[i]);
            }
            i += 1;
        }
        proof {
            assert(all@.take(4) =~= all@);
        }
        out
    }

    /// Prepares for a row of `day` and `symbol`: says what is to be closed and opened. Once the file
    /// is open, [`OpenFiles::opened`] is to be called.
    pub fn prepare(&mut self, day: Date, symbol: Symbol) -> (r: Prepared)
        ensures
            final(self)@ == kept(old(self)@, day),
            match r {
                Prepared::Ready => old(self)@.day == Some(day) && old(self)@.symbols.contains(symbol),
                Prepared::Open { close } => !(old(self)@.day == Some(day)
                    && old(self)@.symbols.contains(symbol)) && close@ == if old(self)@.day == Some(
                    day,
                ) {
                    Seq::empty()
                } else {
                    listed(old(self)@.symbols)
                },
            },
    {
        let same_day = match self.day {
            Some(d) => d == day,
            None => false,
        };
        if same_day {
            if self.open.contains(symbol) {
                return Prepared::Ready;
            }
            return Prepared::Open { close: Vec::new() };
        }
        let close = self.list();
        self.day = Some(day);
        self.open = BySymbol::new();
        proof {
            assert(self@.symbols =~= Set::empty());
        }
        Prepared::Open { close }
    }

    /// Notes that the file of `symbol` was opened.
    pub fn opened(&mut self, symbol: Symbol)
        ensures
            final(self)@ == (Files {
                symbols: old(self)@.symbols.insert(symbol),
                ..old(self)@
            }),
    {
        self.open.set(symbol, true);
        proof {
            assert(self@.symbols =~= old(self)@.symbols.insert(symbol));
        }
    }
}

/// When a row of another day is due, all files of the day before are closed.
pub proof fn law_files_of_the_day_before_are_closed(files: Files, day: Date)
    requires
        files.day != Some(day),
    ensures
        kept(files, day).day == Some(day),
        kept(files, day).symbols == Set::<Symbol>::empty(),
{
}

/// Exactly the instruments whose files are open are listed to be closed.
pub proof fn law_every_open_file_is_listed(symbols: Set<Symbol>, symbol: Symbol)
    ensures
        listed(symbols).contains(symbol) <==> symbols.contains(symbol),
{
    let all = symbol::all_symbols();
    let p = |s: Symbol| symbols.contains(s);
    lemma_filtered(all, p, symbol);
    assert(all[symbol.rank()] == symbol);
}

proof fn lemma_filtered(all: Seq<Symbol>, p: spec_fn(Symbol) -> bool, symbol: Symbol)
    ensures
        all.filter(p).contains(symbol) <==> all.contains(symbol) && p(symbol),
    decreases all.len(),
{
    reveal(Seq::filter);
    if all.len() > 0 {
        let front = all.drop_last();
        lemma_filtered(front, p, symbol);
        let (kept, whole) = (front.filter(p), all.filter(p));
        assert(all[all.len() - 1] == all.last());
        if front.contains(symbol) {
            let k = choose|k: int| 0 <= k < front.len() && front[k] == symbol;
            assert(all[k] == symbol);
        }
        if all.contains(symbol) && symbol != all.last() {
            let k = choose|k: int| 0 <= k < all.len() && all[k] == symbol;
            assert(front[k] == symbol);
        }
        if p(all.last()) {
            assert(whole[kept.len() as int] == all.last());
            if kept.contains(symbol) {
                let k = choose|k: int| 0 <= k < kept.len() && kept[k] == symbol;
                assert(whole[k] == symbol);
            }
            if whole.contains(symbol) && symbol != all.last() {
                let k = choose|k: int| 0 <= k < whole.len() && whole[k] == symbol;
                assert(kept[k] == symbol);
            }
        }
    }
}

/// While rows of one day are due, no file is closed.
pub proof fn law_files_stay_open_through_the_day(files: Files, day: Date)
    requires
        files.day == Some(day),
    ensures
        kept(files, day) == files,
{
}

} // verus!
