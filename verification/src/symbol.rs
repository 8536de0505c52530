//! The venues and the instruments.

use vstd::prelude::*;

use crate::text;

verus! {

/// A venue. The order of the variants is the canonical order of venues: pairs of venues, and the
/// columns made from them, always stand in it.
#[derive(Clone, Copy, Debug, PartialEq, Eq, Hash, PartialOrd, Ord, Structural)]
pub enum Dex {
    Hyperliquid,
    EdgeX,
    Aster,
    Lighter,
    Dydx,
}

/// An instrument.
#[derive(Clone, Copy, Debug, PartialEq, Eq, Hash, PartialOrd, Ord, Structural)]
pub enum Symbol {
    Btc,
    Eth,
    Sol,
    Hype,
}

/// Text that names no venue or instrument.
#[derive(Clone, Debug, PartialEq, Eq)]
pub struct ParseSymbolError(pub String);

/// The venues in canonical order.
pub open spec fn all_dexes() -> Seq<Dex> {
    seq![Dex::Hyperliquid, Dex::EdgeX, Dex::Aster, Dex::Lighter, Dex::Dydx]
}

/// The instruments in canonical order.
pub open spec fn all_symbols() -> Seq<Symbol> {
    seq![Symbol::Btc, Symbol::Eth, Symbol::Sol, Symbol::Hype]
}

impl Dex {
    /// The venues in canonical order.
    pub const ALL: [Dex; 5] = [Dex::Hyperliquid, Dex::EdgeX, Dex::Aster, Dex::Lighter, Dex::Dydx];

    /// The place of the venue in the canonical order.
    pub open spec fn rank(self) -> int {
        match self {
            Dex::Hyperliquid => 0,
            Dex::EdgeX => 1,
            Dex::Aster => 2,
            Dex::Lighter => 3,
            Dex::Dydx => 4,
        }
    }

    /// The venue's name.
    pub open spec fn name(self) -> Seq<char> {
        match self {
            Dex::Hyperliquid => "hyperliquid"@,
            Dex::EdgeX => "edgex"@,
            Dex::Aster => "aster"@,
            Dex::Lighter => "lighter"@,
            Dex::Dydx => "dydx"@,
        }
    }

    /// Whether `text` names the venue, in any case and by its short or long name.
    pub open spec fn named_by(self, text: Seq<char>) -> bool {
        ||| text::same_letters(text, self.name())
        ||| self is Hyperliquid && text::same_letters(text, "hl"@)
        ||| self is Dydx && text::same_letters(text, "dydx_v4"@)
    }

    /// The place of the venue in the canonical order.
    pub fn index(&self) -> (r: usize)
        ensures
            r == self.rank(),
            r < 5,
    {
        match self {
            Dex::Hyperliquid => 0,
            Dex::EdgeX => 1,
            Dex::Aster => 2,
            Dex::Lighter => 3,
            Dex::Dydx => 4,
        }
    }

    /// The venue's name.
    pub fn as_str(&self) -> (r: &'static str)
        ensures
            r@ == self.name(),
    {
        match self {
            Dex::Hyperliquid => "hyperliquid",
            Dex::EdgeX => "edgex",
            Dex::Aster => "aster",
            Dex::Lighter => "lighter",
            Dex::Dydx => "dydx",
        }
    }

    /// Whether a book with its best bid at or above its best ask is normal on the venue.
    ///
    /// dYdX has no central book, so its feed shows crossed books that are no fault in the data.
    pub fn allows_crossed_book(&self) -> (r: bool)
        ensures
            r == (self is Dydx),
    {
        matches!(self, Dex::Dydx)
    }

    /// The venue that `text` names.
    pub fn parse(text: &str) -> (r: Result<Dex, ParseSymbolError>)
        ensures
            r matches Ok(dex) ==> dex.named_by(text@),
            r matches Err(e) ==> e.0@ == text@ && forall|dex: Dex| !#[trigger] dex.named_by(text@),
    {
        if text::eq_ignore_case(text, "hyperliquid") || text::eq_ignore_case(text, "hl") {
            Ok(Dex::Hyperliquid)
        } else if text::eq_ignore_case(text, "edgex") {
            Ok(Dex::EdgeX)
        } else if text::eq_ignore_case(text, "aster") {
            Ok(Dex::Aster)
        } else if text::eq_ignore_case(text, "lighter") {
            Ok(Dex::Lighter)
        } else if text::eq_ignore_case(text, "dydx") || text::eq_ignore_case(text, "dydx_v4") {
            Ok(Dex::Dydx)
        } else {
            Err(ParseSymbolError(text.to_owned()))
        }
    }
}

impl std::str::FromStr for Dex {
    type Err = ParseSymbolError;

    fn from_str(s: &str) -> Result<Dex, ParseSymbolError> {
        Dex::parse(s)
    }
}

impl Symbol {
    /// The instruments in canonical order.
    pub const ALL: [Symbol; 4] = [Symbol::Btc, Symbol::Eth, Symbol::Sol, Symbol::Hype];

    /// The place of the instrument in the canonical order.
    pub open spec fn rank(self) -> int {
        match self {
            Symbol::Btc => 0,
            Symbol::Eth => 1,
            Symbol::Sol => 2,
            Symbol::Hype => 3,
        }
    }

    /// The instrument's own name.
    pub open spec fn name(self) -> Seq<char> {
        match self {
            Symbol::Btc => "BTC"@,
            Symbol::Eth => "ETH"@,
            Symbol::Sol => "SOL"@,
            Symbol::Hype => "HYPE"@,
        }
    }

    /// What the venue `dex` calls the instrument.
    pub open spec fn dex_name(self, dex: Dex) -> Seq<char> {
        match dex {
            Dex::Hyperliquid | Dex::Lighter => self.name(),
            Dex::EdgeX => match self {
                Symbol::Btc => "BTCUSD"@,
                Symbol::Eth => "ETHUSD"@,
                Symbol::Sol => "SOLUSD"@,
                Symbol::Hype => "HYPEUSD"@,
            },
            Dex::Aster => match self {
                Symbol::Btc => "BTCUSDT"@,
                Symbol::Eth => "ETHUSDT"@,
                Symbol::Sol => "SOLUSDT"@,
                Symbol::Hype => "HYPEUSDT"@,
            },
            Dex::Dydx => match self {
                Symbol::Btc => "BTC-USD"@,
                Symbol::Eth => "ETH-USD"@,
                Symbol::Sol => "SOL-USD"@,
                Symbol::Hype => "HYPE-USD"@,
            },
        }
    }

    /// What the names of the streams of the venue `dex` call the instrument.
    pub open spec fn stream_name(self, dex: Dex) -> Seq<char> {
        if dex is Aster {
            text::lowered(self.dex_name(dex))
        } else {
            self.dex_name(dex)
        }
    }

    /// The instrument that the venue `dex` calls `text`, in any case.
    pub open spec fn called(dex: Dex, text: Seq<char>) -> Option<Symbol> {
        if exists|s: Symbol| text::same_letters(#[trigger] s.dex_name(dex), text) {
            Some(choose|s: Symbol| text::same_letters(#[trigger] s.dex_name(dex), text))
        } else {
            None
        }
    }

    /// The place of the instrument in the canonical order.
    pub fn index(&self) -> (r: usize)
        ensures
            r == self.rank(),
            r < 4,
    {
        match self {
            Symbol::Btc => 0,
            Symbol::Eth => 1,
            Symbol::Sol => 2,
            Symbol::Hype => 3,
        }
    }

    /// The instrument's own name.
    pub fn as_str(&self) -> (r: &'static str)
        ensures
            r@ == self.name(),
    {
        match self {
            Symbol::Btc => "BTC",
            Symbol::Eth => "ETH",
            Symbol::Sol => "SOL",
            Symbol::Hype => "HYPE",
        }
    }

    /// What the venue `dex` calls the instrument.
    ///
    /// Hyperliquid and Lighter use the bare name, edgeX the name of the contract, Aster that of the
    /// traded pair and dYdX the id of the market. On edgeX and Lighter this is the key under which
    /// the venue's own number for the instrument is looked up.
    pub fn to_dex_symbol(&self, dex: Dex) -> (r: &'static str)
        ensures
            r@ == self.dex_name(dex),
    {
        match dex {
            Dex::Hyperliquid | Dex::Lighter => self.as_str(),
            Dex::Dydx => match self {
                Symbol::Btc => "BTC-USD",
                Symbol::Eth => "ETH-USD",
                Symbol::Sol => "SOL-USD",
                Symbol::Hype => "HYPE-USD",
            },
            Dex::EdgeX => match self {
                Symbol::Btc => "BTCUSD",
                Symbol::Eth => "ETHUSD",
                Symbol::Sol => "SOLUSD",
                Symbol::Hype => "HYPEUSD",
            },
            Dex::Aster => match self {
                Symbol::Btc => "BTCUSDT",
                Symbol::Eth => "ETHUSDT",
                Symbol::Sol => "SOLUSDT",
                Symbol::Hype => "HYPEUSDT",
            },
        }
    }

    /// What the names of the streams of the venue `dex` call the instrument: on Aster, small
    /// letters.
    pub fn to_stream_symbol(&self, dex: Dex) -> (r: String)
        ensures
            r@ == self.stream_name(dex),
    {
        match dex {
            Dex::Aster => {
                let small = match self {
                    Symbol::Btc => "btcusdt",
                    Symbol::Eth => "ethusdt",
                    Symbol::Sol => "solusdt",
                    Symbol::Hype => "hypeusdt",
                };
                proof {
                    reveal_strlit("btcusdt");
                    reveal_strlit("ethusdt");
                    reveal_strlit("solusdt");
                    reveal_strlit("hypeusdt");
                    reveal_strlit("BTCUSDT");
                    reveal_strlit("ETHUSDT");
                    reveal_strlit("SOLUSDT");
                    reveal_strlit("HYPEUSDT");
                    assert(small@ =~= text::lowered(self.dex_name(dex)));
                }
                small.to_owned()
            },
            other => self.to_dex_symbol(other).to_owned(),
        }
    }

    /// The instrument that the venue `dex` calls `text`, in any case.
    pub fn from_dex_symbol(dex: Dex, text: &str) -> (r: Option<Symbol>)
        ensures
            r == Symbol::called(dex, text@),
            r matches Some(s) ==> text::same_letters(s.dex_name(dex), text@),
            r is None ==> forall|s: Symbol| !text::same_letters(#[trigger] s.dex_name(dex), text@),
    {
        let found = if text::eq_ignore_case(Symbol::Btc.to_dex_symbol(dex), text) {
            Some(Symbol::Btc)
        } else if text::eq_ignore_case(Symbol::Eth.to_dex_symbol(dex), text) {
            Some(Symbol::Eth)
        } else if text::eq_ignore_case(Symbol::Sol.to_dex_symbol(dex), text) {
            Some(Symbol::Sol)
        } else if text::eq_ignore_case(Symbol::Hype.to_dex_symbol(dex), text) {
            Some(Symbol::Hype)
        } else {
            None
        };
        proof {
            if let Some(s) = found {
                let t = choose|t: Symbol| text::same_letters(#[trigger] t.dex_name(dex), text@);
                law_dex_symbols_are_distinct(dex, s, t, text@);
            } else {
                assert forall|s: Symbol| !text::same_letters(#[trigger] s.dex_name(dex), text@) by {
                    assert(s is Btc || s is Eth || s is Sol || s is Hype);
                }
            }
        }
        found
    }

    /// The instrument that `text` names, in any case.
    pub fn parse(text: &str) -> (r: Result<Symbol, ParseSymbolError>)
        ensures
            r matches Ok(s) ==> text::same_letters(text@, s.name()),
            r matches Err(e) ==> e.0@ == text@ && forall|s: Symbol|
                !text::same_letters(text@, #[trigger] s.name()),
    {
        if text::eq_ignore_case(text, "BTC") {
            Ok(Symbol::Btc)
        } else if text::eq_ignore_case(text, "ETH") {
            Ok(Symbol::Eth)
        } else if text::eq_ignore_case(text, "SOL") {
            Ok(Symbol::Sol)
        } else if text::eq_ignore_case(text, "HYPE") {
            Ok(Symbol::Hype)
        } else {
            proof {
                assert forall|s: Symbol| !text::same_letters(text@, #[trigger] s.name()) by {
                    assert(s is Btc || s is Eth || s is Sol || s is Hype);
                }
            }
            Err(ParseSymbolError(text.to_owned()))
        }
    }
}

impl std::str::FromStr for Symbol {
    type Err = ParseSymbolError;

    fn from_str(s: &str) -> Result<Symbol, ParseSymbolError> {
        Symbol::parse(s)
    }
}

impl ParseSymbolError {
    /// The error in words.
    pub fn message(&self) -> (r: String)
        ensures
            r@ == "未知のシンボル/DEX 表記: "@ + self.0@,
    {
        let mut out = "未知のシンボル/DEX 表記: ".to_owned();
        out.append(self.0.as_str());
        out
    }
}

/// No venue calls two instruments by the same name, whatever the case of the letters.
pub proof fn law_dex_symbols_are_distinct(dex: Dex, a: Symbol, b: Symbol, text: Seq<char>)
    requires
        text::same_letters(a.dex_name(dex), text),
        text::same_letters(b.dex_name(dex), text),
    ensures
        a == b,
{
    reveal_strlit("BTC");
    reveal_strlit("ETH");
    reveal_strlit("SOL");
    reveal_strlit("HYPE");
    reveal_strlit("BTCUSD");
    reveal_strlit("ETHUSD");
    reveal_strlit("SOLUSD");
    reveal_strlit("HYPEUSD");
    reveal_strlit("BTCUSDT");
    reveal_strlit("ETHUSDT");
    reveal_strlit("SOLUSDT");
    reveal_strlit("HYPEUSDT");
    reveal_strlit("BTC-USD");
    reveal_strlit("ETH-USD");
    reveal_strlit("SOL-USD");
    reveal_strlit("HYPE-USD");
    assert(text::lower(a.dex_name(dex)[0]) == text::lower(text[0]));
    assert(text::lower(b.dex_name(dex)[0]) == text::lower(text[0]));
}

/// The name that a venue has for an instrument leads back to the instrument, in any case.
pub proof fn law_dex_symbol_roundtrip(dex: Dex, s: Symbol, text: Seq<char>)
    requires
        text::same_letters(s.dex_name(dex), text),
    ensures
        Symbol::called(dex, text) == Some(s),
{
    let t = choose|t: Symbol| text::same_letters(#[trigger] t.dex_name(dex), text);
    law_dex_symbols_are_distinct(dex, s, t, text);
}

/// A text names at most one venue, whatever the case of its letters, and a venue's own name names it.
pub proof fn law_venues_are_named_apart(a: Dex, b: Dex, text: Seq<char>)
    ensures
        a.named_by(text) && b.named_by(text) ==> a == b,
        a.named_by(a.name()),
        a.named_by(text) == a.named_by(text::lowered(text)),
{
    reveal_strlit("hyperliquid");
    reveal_strlit("edgex");
    reveal_strlit("aster");
    reveal_strlit("lighter");
    reveal_strlit("dydx");
    reveal_strlit("hl");
    reveal_strlit("dydx_v4");
    lemma_same_in_small(text, a.name());
    lemma_same_in_small(text, "hl"@);
    lemma_same_in_small(text, "dydx_v4"@);
    if a.named_by(text) && b.named_by(text) {
        let first = text::lower(text[0]);
        assert("hyperliquid"@[0] == 'h' && "edgex"@[0] == 'e' && "aster"@[0] == 'a');
        assert("lighter"@[0] == 'l' && "dydx"@[0] == 'd');
        assert("hl"@[0] == 'h' && "dydx_v4"@[0] == 'd');
        assert(first == text::lower(a.name()[0]));
        assert(first == text::lower(b.name()[0]));
    }
}

proof fn lemma_same_in_small(text: Seq<char>, name: Seq<char>)
    ensures
        text::same_letters(text, name) == text::same_letters(text::lowered(text), name),
{
    let low = text::lowered(text);
    assert forall|i: int|
        #![trigger low[i]]
        #![trigger text[i]]
        0 <= i < text.len() implies text::lower(low[i]) == text::lower(text[i]) by {}
}

/// No instrument is called by a text that has not the letters of one of the venue's names.
pub proof fn law_other_names_are_unknown(dex: Dex, text: Seq<char>, s: Symbol)
    ensures
        Symbol::called(dex, text) == Some(s) <==> text::same_letters(s.dex_name(dex), text),
{
    if text::same_letters(s.dex_name(dex), text) {
        law_dex_symbol_roundtrip(dex, s, text);
    }
}

} // verus!
