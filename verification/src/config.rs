//! The configuration.
//!
//! Every threshold comes from here. What a file leaves out has the default value given here.

use vstd::prelude::*;

use crate::decimal::Decimal;
use crate::symbol;
use crate::symbol::{Dex, Symbol};
use crate::text;
use crate::time::Duration;

verus! {

/// Why a configuration cannot be used.
#[derive(Clone, Debug, PartialEq, Eq)]
pub enum ConfigError {
    /// The file cannot be read.
    Io { path: String, source: String },
    /// The file is not well formed.
    Parse { path: String, source: String },
    /// A value is out of range.
    Invalid(String),
}

impl ConfigError {
    /// The error in words.
    pub fn message(&self) -> (r: String)
        ensures
            r@ == match *self {
                ConfigError::Io { path, source } => "設定ファイルを読めません ("@ + path@ + "): "@
                    + source@,
                ConfigError::Parse { path, source } => "設定ファイルの構文エラー ("@ + path@
                    + "): "@ + source@,
                ConfigError::Invalid(s) => "設定値が不正: "@ + s@,
            },
    {
        match self {
            ConfigError::Io { path, source } => {
                let mut out = "設定ファイルを読めません (".to_owned();
                out.append(path.as_str());
                out.append("): ");
                out.append(source.as_str());
                out
            },
            ConfigError::Parse { path, source } => {
                let mut out = "設定ファイルの構文エラー (".to_owned();
                out.append(path.as_str());
                out.append("): ");
                out.append(source.as_str());
                out
            },
            ConfigError::Invalid(s) => {
                let mut out = "設定値が不正: ".to_owned();
                out.append(s.as_str());
                out
            },
        }
    }
}

/// The configuration.
#[derive(Clone, Debug)]
pub struct Config {
    pub general: GeneralConfig,
    pub dex: DexConfig,
    pub funding: FundingConfig,
    pub recording: RecordingConfig,
    pub monitoring: MonitoringConfig,
}

/// What concerns all venues.
#[derive(Clone, Debug)]
pub struct GeneralConfig {
    /// The instruments.
    pub symbols: Vec<Symbol>,
    /// How many levels of each side are taken.
    pub orderbook_depth: usize,
    /// The size of the order, in US dollars, for which average prices are compared. Zero or less
    /// means that they are not.
    pub vwap_notional_usd: Decimal,
    /// How many books may wait to be worked on.
    pub book_channel_capacity: usize,
}

/// The venues.
#[derive(Clone, Debug)]
pub struct DexConfig {
    pub hyperliquid: HyperliquidConfig,
    pub edgex: EdgeXConfig,
    pub aster: AsterConfig,
    pub lighter: LighterConfig,
    pub dydx: DydxConfig,
}

/// How a venue is connected to again.
#[derive(Clone, Copy, Debug, PartialEq, Eq, Structural)]
pub struct ReconnectPolicy {
    pub max_attempts: u32,
    pub base_delay_ms: u64,
    pub max_delay_ms: u64,
}

/// Hyperliquid.
#[derive(Clone, Debug)]
pub struct HyperliquidConfig {
    pub enabled: bool,
    pub ws_url: String,
    pub reconnect_max_attempts: u32,
    pub reconnect_base_delay_ms: u64,
    pub reconnect_max_delay_ms: u64,
    /// The span between two pings, in seconds.
    pub ping_interval_secs: u64,
    /// Instruments that the venue does not have.
    pub excluded_symbols: Vec<Symbol>,
}

/// edgeX.
#[derive(Clone, Debug)]
pub struct EdgeXConfig {
    pub enabled: bool,
    pub ws_url: String,
    pub reconnect_max_attempts: u32,
    pub reconnect_base_delay_ms: u64,
    pub reconnect_max_delay_ms: u64,
    pub ping_interval_secs: u64,
    /// How many levels the channel brings.
    pub depth_level: usize,
    /// The span, in seconds, after which the book is subscribed to again so that a snapshot can be
    /// compared with it; zero for never.
    pub resync_interval_secs: u64,
    /// Whether the ids of the contracts are read from the venue's metadata.
    pub resolve_contract_ids: bool,
    pub metadata_url: String,
    /// Ids of contracts, which take the place of those in the metadata.
    pub contract_ids: Vec<(Symbol, String)>,
    pub excluded_symbols: Vec<Symbol>,
}

/// Aster.
#[derive(Clone, Debug)]
pub struct AsterConfig {
    pub enabled: bool,
    pub ws_url: String,
    /// The address of the REST interface for perpetual futures.
    pub rest_url: String,
    /// How often a stream brings changes; empty for the venue's own choice.
    pub depth_stream_interval: String,
    /// How many levels a snapshot has.
    pub snapshot_limit: u32,
    /// The hours after which a connection is made anew, before the venue cuts it; zero for never.
    pub reconnect_before_hours: u64,
    pub reconnect_max_attempts: u32,
    pub reconnect_base_delay_ms: u64,
    pub reconnect_max_delay_ms: u64,
    /// The least span between two snapshots. The venue bans addresses that ask too often.
    pub resync_backoff_ms: u64,
    pub excluded_symbols: Vec<Symbol>,
}

/// Lighter.
#[derive(Clone, Debug)]
pub struct LighterConfig {
    pub enabled: bool,
    pub ws_url: String,
    pub testnet_ws_url: String,
    pub use_testnet: bool,
    /// The span between two pings, in seconds. The venue cuts a connection on which nothing is sent
    /// for two minutes.
    pub keepalive_interval_secs: u64,
    pub reconnect_max_attempts: u32,
    pub reconnect_base_delay_ms: u64,
    pub reconnect_max_delay_ms: u64,
    /// The seconds after which instruments without a market index are warned about.
    pub mapping_warn_secs: u64,
    pub excluded_symbols: Vec<Symbol>,
}

/// dYdX v4.
#[derive(Clone, Debug)]
pub struct DydxConfig {
    pub enabled: bool,
    pub ws_url: String,
    pub testnet_ws_url: String,
    pub use_testnet: bool,
    /// The seconds within which the server must say that the connection is ready.
    pub connected_timeout_secs: u64,
    pub reconnect_max_attempts: u32,
    pub reconnect_base_delay_ms: u64,
    pub reconnect_max_delay_ms: u64,
    pub excluded_symbols: Vec<Symbol>,
}

/// Funding rates.
#[derive(Clone, Debug)]
pub struct FundingConfig {
    /// Whether rates are collected.
    pub enabled: bool,
    /// How many rates may wait to be written.
    pub channel_capacity: usize,
    /// The interval of each venue, in hours. There is no default: a rate with a guessed interval
    /// could not be compared.
    pub intervals_hours: Vec<(Dex, Decimal)>,
}

/// Which snapshots are written.
#[derive(Clone, Copy, Debug, PartialEq, Eq, Structural)]
pub enum CsvMode {
    /// All of them.
    All,
    /// One of each instrument in `csv_sample_interval_ms`.
    Sampled,
    /// Those with a spread above `csv_threshold_bps`.
    Threshold,
}

/// What is written, and where.
#[derive(Clone, Debug)]
pub struct RecordingConfig {
    pub csv_dir: String,
    pub log_dir: String,
    pub csv_mode: CsvMode,
    pub csv_sample_interval_ms: u64,
    pub csv_threshold_bps: Decimal,
    /// The span between two flushes of the files, in milliseconds.
    pub csv_flush_interval_ms: u64,
    /// How many snapshots may wait to be written.
    pub snapshot_channel_capacity: usize,
    pub log_filter: String,
    pub log_to_stdout: bool,
    pub funding: FundingRecordingConfig,
}

/// How funding rates are written.
#[derive(Clone, Copy, Debug, PartialEq, Eq, Structural)]
pub struct FundingRecordingConfig {
    pub enabled: bool,
    /// The seconds after which a rate is written though it has not changed.
    pub heartbeat_interval_secs: u64,
}

/// When something is worth a warning.
#[derive(Clone, Copy, Debug, PartialEq, Eq, Structural)]
pub struct MonitoringConfig {
    /// A message that was under way for longer, in milliseconds.
    pub latency_warn_threshold_ms: i64,
    /// Two books whose ages differ by more, in milliseconds.
    pub staleness_warn_threshold_ms: i64,
    /// The seconds between two reports.
    pub status_interval_secs: u64,
    /// The least span between two warnings of the same kind, in seconds.
    pub warn_min_interval_secs: u64,
}

/// The interval that `intervals` give for `dex`, the last one where there are more.
pub open spec fn interval_of(intervals: Seq<(Dex, Decimal)>, dex: Dex) -> Option<Decimal>
    decreases intervals.len(),
{
    if intervals.len() == 0 {
        None
    } else if intervals.last().0 == dex {
        Some(intervals.last().1)
    } else {
        interval_of(intervals.drop_last(), dex)
    }
}

impl Config {
    /// Whether the venue is collected from.
    pub open spec fn enabled(self, dex: Dex) -> bool {
        match dex {
            Dex::Hyperliquid => self.dex.hyperliquid.enabled,
            Dex::EdgeX => self.dex.edgex.enabled,
            Dex::Aster => self.dex.aster.enabled,
            Dex::Lighter => self.dex.lighter.enabled,
            Dex::Dydx => self.dex.dydx.enabled,
        }
    }

    /// The instruments that are left out on the venue.
    pub open spec fn excluded(self, dex: Dex) -> Seq<Symbol> {
        match dex {
            Dex::Hyperliquid => self.dex.hyperliquid.excluded_symbols@,
            Dex::EdgeX => self.dex.edgex.excluded_symbols@,
            Dex::Aster => self.dex.aster.excluded_symbols@,
            Dex::Lighter => self.dex.lighter.excluded_symbols@,
            Dex::Dydx => self.dex.dydx.excluded_symbols@,
        }
    }

    /// The instruments of the venue, in their order.
    pub open spec fn listed(self, dex: Dex) -> Seq<Symbol> {
        self.general.symbols@.filter(|s: Symbol| !self.excluded(dex).contains(s))
    }

    /// The venues that are collected from, in canonical order.
    pub open spec fn dexes(self) -> Seq<Dex> {
        symbol::all_dexes().filter(|d: Dex| self.enabled(d))
    }

    /// Whether the venue is collected from but has no instrument.
    pub open spec fn starved(self, dex: Dex) -> bool {
        self.enabled(dex) && self.listed(dex).len() == 0
    }

    /// The first venue that is collected from but has no instrument.
    pub open spec fn first_starved(self) -> Option<Dex> {
        if self.starved(Dex::Hyperliquid) {
            Some(Dex::Hyperliquid)
        } else if self.starved(Dex::EdgeX) {
            Some(Dex::EdgeX)
        } else if self.starved(Dex::Aster) {
            Some(Dex::Aster)
        } else if self.starved(Dex::Lighter) {
            Some(Dex::Lighter)
        } else if self.starved(Dex::Dydx) {
            Some(Dex::Dydx)
        } else {
            None
        }
    }

    /// What is wrong with the configuration: the first of these that applies.
    pub open spec fn fault(self) -> Option<Seq<char>> {
        if self.general.symbols@.len() == 0 {
            Some("symbols が空です"@)
        } else if self.general.orderbook_depth == 0 {
            Some("orderbook_depth は 1 以上"@)
        } else if self.general.book_channel_capacity == 0 {
            Some("book_channel_capacity は 1 以上"@)
        } else if self.recording.snapshot_channel_capacity == 0 {
            Some("snapshot_channel_capacity は 1 以上"@)
        } else if forall|d: Dex| !#[trigger] self.enabled(d) {
            Some("少なくとも 1 つの DEX を enabled にしてください"@)
        } else if self.dex.hyperliquid.enabled && self.dex.hyperliquid.ping_interval_secs == 0 {
            Some("hyperliquid.ping_interval_secs は 1 以上"@)
        } else if self.dex.edgex.enabled && self.dex.edgex.depth_level == 0 {
            Some("edgex.depth_level は 1 以上"@)
        } else if self.dex.aster.enabled && self.dex.aster.snapshot_limit == 0 {
            Some("aster.snapshot_limit は 1 以上"@)
        } else if self.dex.lighter.enabled && self.dex.lighter.keepalive_interval_secs == 0 {
            Some("lighter.keepalive_interval_secs は 1 以上"@)
        } else if self.dex.lighter.enabled && self.dex.lighter.keepalive_interval_secs >= 120 {
            Some(
                "lighter.keepalive_interval_secs は 120 未満にしてください（2 分で切断されます）"@,
            )
        } else {
            match self.first_starved() {
                Some(dex) => Some(
                    dex.name()
                        + " で購読する銘柄が 1 つもありません（excluded_symbols を確認してください）"@,
                ),
                None => None,
            }
        }
    }

    /// Checks the values.
    pub fn validate(&self) -> (r: Result<(), ConfigError>)
        ensures
            r is Ok <==> self.fault() is None,
            r matches Err(e) ==> e matches ConfigError::Invalid(s) && self.fault() == Some(s@),
    {
        if self.general.symbols.len() == 0 {
            return invalid("symbols が空です");
        }
        if self.general.orderbook_depth == 0 {
            return invalid("orderbook_depth は 1 以上");
        }
        if self.general.book_channel_capacity == 0 {
            return invalid("book_channel_capacity は 1 以上");
        }
        if self.recording.snapshot_channel_capacity == 0 {
            return invalid("snapshot_channel_capacity は 1 以上");
        }
        let dexes = self.enabled_dexes();
        proof {
            lemma_dexes(*self);
            assert(symbol::all_dexes().contains(Dex::Hyperliquid)) by {
                assert(symbol::all_dexes()[0] == Dex::Hyperliquid);
            }
        }
        if dexes.len() == 0 {
            return invalid("少なくとも 1 つの DEX を enabled にしてください");
        }
        if self.dex.hyperliquid.enabled && self.dex.hyperliquid.ping_interval_secs == 0 {
            return invalid("hyperliquid.ping_interval_secs は 1 以上");
        }
        if self.dex.edgex.enabled && self.dex.edgex.depth_level == 0 {
            return invalid("edgex.depth_level は 1 以上");
        }
        if self.dex.aster.enabled && self.dex.aster.snapshot_limit == 0 {
            return invalid("aster.snapshot_limit は 1 以上");
        }
        if self.dex.lighter.enabled && self.dex.lighter.keepalive_interval_secs == 0 {
            return invalid("lighter.keepalive_interval_secs は 1 以上");
        }
        if self.dex.lighter.enabled && self.dex.lighter.keepalive_interval_secs >= 120 {
            return invalid(
                "lighter.keepalive_interval_secs は 120 未満にしてください（2 分で切断されます）",
            );
        }
        if self.is_starved(Dex::Hyperliquid) {
            return without_symbols(Dex::Hyperliquid);
        }
        if self.is_starved(Dex::EdgeX) {
            return without_symbols(Dex::EdgeX);
        }
        if self.is_starved(Dex::Aster) {
            return without_symbols(Dex::Aster);
        }
        if self.is_starved(Dex::Lighter) {
            return without_symbols(Dex::Lighter);
        }
        if self.is_starved(Dex::Dydx) {
            return without_symbols(Dex::Dydx);
        }
        Ok(())
    }

    fn is_starved(&self, dex: Dex) -> (r: bool)
        ensures
            r == self.starved(dex),
    {
        self.is_enabled(dex) && self.symbols_for(dex).len() == 0
    }

    /// The size of the order for which average prices are compared; `None` where they are not.
    pub fn vwap_notional(&self) -> (r: Option<Decimal>)
        ensures
            r == if self.general.vwap_notional_usd.units() > 0 {
                Some(self.general.vwap_notional_usd)
            } else {
                None
            },
    {
        if self.general.vwap_notional_usd.is_positive() {
            Some(self.general.vwap_notional_usd)
        } else {
            None
        }
    }

    /// Whether the venue is collected from.
    pub fn is_enabled(&self, dex: Dex) -> (r: bool)
        ensures
            r == self.enabled(dex),
    {
        match dex {
            Dex::Hyperliquid => self.dex.hyperliquid.enabled,
            Dex::EdgeX => self.dex.edgex.enabled,
            Dex::Aster => self.dex.aster.enabled,
            Dex::Lighter => self.dex.lighter.enabled,
            Dex::Dydx => self.dex.dydx.enabled,
        }
    }

    /// The venues that are collected from, in canonical order.
    pub fn enabled_dexes(&self) -> (r: Vec<Dex>)
        ensures
            r@ == self.dexes(),
    {
        let mut out: Vec<Dex> = Vec::new();
        let all = Dex::ALL;
        let ghost on = |d: Dex| self.enabled(d);
        let mut i: usize = 0;
        proof {
            reveal(Seq::filter);
            assert(all@ =~= symbol::all_dexes());
            assert(all@.take(0).filter(on) =~= Seq::<Dex>::empty());
        }
        while i < 5
            invariant
                i <= 5,
                all@ == symbol::all_dexes(),
                on == (|d: Dex| self.enabled(d)),
                out@ == all@.take(i as int).filter(on),
            decreases 5 - i,
        {
            proof {
                reveal(Seq::filter);
                assert(all@.take(i + 1).drop_last() =~= all@.take(i as int));
                assert(all@.take(i + 1).last() == all@[i as int]);
            }
            if self.is_enabled(all[i]) {
                out.push(all[i]);
            }
            i += 1;
        }
        proof {
            assert(all@.take(5) =~= all@);
        }
        out
    }

    /// The instruments of the venue: not every venue has every instrument.
    pub fn symbols_for(&self, dex: Dex) -> (r: Vec<Symbol>)
        ensures
            r@ == self.listed(dex),
    {
        let excluded = match dex {
            Dex::Hyperliquid => &self.dex.hyperliquid.excluded_symbols,
            Dex::EdgeX => &self.dex.edgex.excluded_symbols,
            Dex::Aster => &self.dex.aster.excluded_symbols,
            Dex::Lighter => &self.dex.lighter.excluded_symbols,
            Dex::Dydx => &self.dex.dydx.excluded_symbols,
        };
        let symbols = &self.general.symbols;
        let ghost kept = |s: Symbol| !self.excluded(dex).contains(s);
        let mut out: Vec<Symbol> = Vec::new();
        let n: usize = symbols.len();
        let mut i: usize = 0;
        proof {
            reveal(Seq::filter);
            assert(symbols@.take(0).filter(kept) =~= Seq::<Symbol>::empty());
        }
        while i < n
            invariant
                i <= n,
                n == symbols@.len(),
                excluded@ == self.excluded(dex),
                kept == (|s: Symbol| !self.excluded(dex).contains(s)),
                out@ == symbols@.take(i as int).filter(kept),
            decreases n - i,
        {
            proof {
                reveal(Seq::filter);
                assert(symbols@.take(i + 1).drop_last() =~= symbols@.take(i as int));
                assert(symbols@.take(i + 1).last() == symbols@[i as int]);
            }
            if !has_symbol(excluded, symbols[i]) {
                out.push(symbols[i]);
            }
            i += 1;
        }
        proof {
            assert(symbols@.take(n as int) =~= symbols@);
        }
        out
    }

    /// The configured interval of the venue's funding, in hours.
    pub fn funding_interval_hours(&self, dex: Dex) -> (r: Option<Decimal>)
        ensures
            r == interval_of(self.funding.intervals_hours@, dex),
    {
        let intervals = &self.funding.intervals_hours;
        let mut i: usize = intervals.len();
        proof {
            assert(intervals@.take(i as int) =~= intervals@);
        }
        while i > 0
            invariant
                i <= intervals@.len(),
                intervals@ == self.funding.intervals_hours@,
                interval_of(self.funding.intervals_hours@, dex) == interval_of(
                    intervals@.take(i as int),
                    dex,
                ),
            decreases i,
        {
            proof {
                assert(intervals@.take(i as int).last() == intervals@[i - 1]);
                assert(intervals@.take(i as int).drop_last() =~= intervals@.take(i - 1));
            }
            if intervals[i - 1].0 == dex {
                return Some(intervals[i - 1].1);
            }
            i -= 1;
        }
        None
    }

    /// The venues that are collected from without a configured interval of their funding, in
    /// canonical order.
    pub fn dexes_missing_funding_interval(&self) -> (r: Vec<Dex>)
        ensures
            r@ == self.dexes().filter(
                |d: Dex| interval_of(self.funding.intervals_hours@, d) is None,
            ),
    {
        let dexes = self.enabled_dexes();
        let ghost missing = |d: Dex| interval_of(self.funding.intervals_hours@, d) is None;
        let mut out: Vec<Dex> = Vec::new();
        let n: usize = dexes.len();
        let mut i: usize = 0;
        proof {
            reveal(Seq::filter);
            assert(dexes@.take(0).filter(missing) =~= Seq::<Dex>::empty());
        }
        while i < n
            invariant
                i <= n,
                n == dexes@.len(),
                missing == (|d: Dex| interval_of(self.funding.intervals_hours@, d) is None),
                out@ == dexes@.take(i as int).filter(missing),
            decreases n - i,
        {
            proof {
                reveal(Seq::filter);
                assert(dexes@.take(i + 1).drop_last() =~= dexes@.take(i as int));
                assert(dexes@.take(i + 1).last() == dexes@[i as int]);
            }
            if self.funding_interval_hours(dexes[i]).is_none() {
                out.push(dexes[i]);
            }
            i += 1;
        }
        proof {
            assert(dexes@.take(n as int) =~= dexes@);
        }
        out
    }
}

proof fn lemma_dexes(cfg: Config)
    ensures
        cfg.dexes().len() == 0 <==> forall|d: Dex| !#[trigger] cfg.enabled(d),
{
    let on = |d: Dex| cfg.enabled(d);
    let all = symbol::all_dexes();
    broadcast use vstd::seq_lib::group_filter_ensures;

    assert forall|d: Dex| #[trigger] cfg.enabled(d) implies cfg.dexes().len() > 0 by {
        assert(all[d.rank()] == d);
        assert(all.contains(d) && on(d));
        assert(all.filter(on).contains(d));
    }
    if cfg.dexes().len() > 0 {
        let d = cfg.dexes()[0];
        assert(cfg.dexes().contains(d));
        assert(on(d));
        assert(cfg.enabled(d));
    }
}

fn has_symbol(symbols: &Vec<Symbol>, symbol: Symbol) -> (r: bool)
    ensures
        r == symbols@.contains(symbol),
{
    let n: usize = symbols.len();
    let mut i: usize = 0;
    while i < n
        invariant
            i <= n,
            n == symbols@.len(),
            forall|j: int| 0 <= j < i ==> symbols@[j] != symbol,
        decreases n - i,
    {
        if symbols[i] == symbol {
            return true;
        }
        i += 1;
    }
    false
}

fn invalid(message: &str) -> (r: Result<(), ConfigError>)
    ensures
        r matches Err(ConfigError::Invalid(s)) && s@ == message@,
{
    Err(ConfigError::Invalid(message.to_owned()))
}

fn without_symbols(dex: Dex) -> (r: Result<(), ConfigError>)
    ensures
        r matches Err(ConfigError::Invalid(s)) && s@ == dex.name()
            + " で購読する銘柄が 1 つもありません（excluded_symbols を確認してください）"@,
{
    let mut out = dex.as_str().to_owned();
    out.append(" で購読する銘柄が 1 つもありません（excluded_symbols を確認してください）");
    Err(ConfigError::Invalid(out))
}

impl HyperliquidConfig {
    /// How the venue is connected to again.
    pub fn reconnect_policy(&self) -> (r: ReconnectPolicy)
        ensures
            r == (ReconnectPolicy {
                max_attempts: self.reconnect_max_attempts,
                base_delay_ms: self.reconnect_base_delay_ms,
                max_delay_ms: self.reconnect_max_delay_ms,
            }),
    {
        ReconnectPolicy {
            max_attempts: self.reconnect_max_attempts,
            base_delay_ms: self.reconnect_base_delay_ms,
            max_delay_ms: self.reconnect_max_delay_ms,
        }
    }
}

impl EdgeXConfig {
    /// How the venue is connected to again.
    pub fn reconnect_policy(&self) -> (r: ReconnectPolicy)
        ensures
            r == (ReconnectPolicy {
                max_attempts: self.reconnect_max_attempts,
                base_delay_ms: self.reconnect_base_delay_ms,
                max_delay_ms: self.reconnect_max_delay_ms,
            }),
    {
        ReconnectPolicy {
            max_attempts: self.reconnect_max_attempts,
            base_delay_ms: self.reconnect_base_delay_ms,
            max_delay_ms: self.reconnect_max_delay_ms,
        }
    }
}

impl LighterConfig {
    /// How the venue is connected to again.
    pub fn reconnect_policy(&self) -> (r: ReconnectPolicy)
        ensures
            r == (ReconnectPolicy {
                max_attempts: self.reconnect_max_attempts,
                base_delay_ms: self.reconnect_base_delay_ms,
                max_delay_ms: self.reconnect_max_delay_ms,
            }),
    {
        ReconnectPolicy {
            max_attempts: self.reconnect_max_attempts,
            base_delay_ms: self.reconnect_base_delay_ms,
            max_delay_ms: self.reconnect_max_delay_ms,
        }
    }

    /// The address of the network that is configured.
    pub fn effective_ws_url(&self) -> (r: &str)
        ensures
            r@ == if self.use_testnet {
                self.testnet_ws_url@
            } else {
                self.ws_url@
            },
    {
        if self.use_testnet {
            self.testnet_ws_url.as_str()
        } else {
            self.ws_url.as_str()
        }
    }
}

impl DydxConfig {
    /// How the venue is connected to again.
    pub fn reconnect_policy(&self) -> (r: ReconnectPolicy)
        ensures
            r == (ReconnectPolicy {
                max_attempts: self.reconnect_max_attempts,
                base_delay_ms: self.reconnect_base_delay_ms,
                max_delay_ms: self.reconnect_max_delay_ms,
            }),
    {
        ReconnectPolicy {
            max_attempts: self.reconnect_max_attempts,
            base_delay_ms: self.reconnect_base_delay_ms,
            max_delay_ms: self.reconnect_max_delay_ms,
        }
    }

    /// The address of the network that is configured.
    pub fn effective_ws_url(&self) -> (r: &str)
        ensures
            r@ == if self.use_testnet {
                self.testnet_ws_url@
            } else {
                self.ws_url@
            },
    {
        if self.use_testnet {
            self.testnet_ws_url.as_str()
        } else {
            self.ws_url.as_str()
        }
    }
}

impl AsterConfig {
    /// How the venue is connected to again.
    pub fn reconnect_policy(&self) -> (r: ReconnectPolicy)
        ensures
            r == (ReconnectPolicy {
                max_attempts: self.reconnect_max_attempts,
                base_delay_ms: self.reconnect_base_delay_ms,
                max_delay_ms: self.reconnect_max_delay_ms,
            }),
    {
        ReconnectPolicy {
            max_attempts: self.reconnect_max_attempts,
            base_delay_ms: self.reconnect_base_delay_ms,
            max_delay_ms: self.reconnect_max_delay_ms,
        }
    }

    /// The name of the stream of `symbol`: with the interval, where one is given.
    pub open spec fn stream_name_of(self, symbol: Symbol) -> Seq<char> {
        if text::trimmed(self.depth_stream_interval@).len() == 0 {
            symbol.stream_name(Dex::Aster) + "@depth"@
        } else {
            symbol.stream_name(Dex::Aster) + "@depth@"@ + text::trimmed(self.depth_stream_interval@)
        }
    }

    /// The address of a snapshot of `symbol`.
    pub open spec fn snapshot_url_of(self, symbol: Symbol) -> Seq<char> {
        text::without_end_slashes(self.rest_url@) + "/fapi/v1/depth?symbol="@ + symbol.dex_name(
            Dex::Aster,
        ) + "&limit="@ + text::digits(self.snapshot_limit as nat)
    }

    /// The name of the stream of `symbol`, such as `btcusdt@depth@100ms`.
    pub fn depth_stream_name(&self, symbol: Symbol) -> (r: String)
        ensures
            r@ == self.stream_name_of(symbol),
    {
        let mut out = symbol.to_stream_symbol(Dex::Aster);
        let interval = text::trim(self.depth_stream_interval.as_str());
        if interval.unicode_len() == 0 {
            out.append("@depth");
        } else {
            out.append("@depth@");
            out.append(interval);
        }
        out
    }

    /// The address of a snapshot of `symbol`.
    pub fn snapshot_url(&self, symbol: Symbol) -> (r: String)
        ensures
            r@ == self.snapshot_url_of(symbol),
    {
        let mut out = text::trim_end_slashes(self.rest_url.as_str()).to_owned();
        out.append("/fapi/v1/depth?symbol=");
        out.append(symbol.to_dex_symbol(Dex::Aster));
        out.append("&limit=");
        out.append(text::number_text(self.snapshot_limit as u64).as_str());
        out
    }

    /// The span after which a connection is made anew; `None` for never.
    pub fn session_max_duration(&self) -> (r: Option<Duration>)
        ensures
            r is None <==> self.reconnect_before_hours == 0,
            r matches Some(span) ==> span.nanos == self.reconnect_before_hours * 3_600
                * 1_000_000_000,
    {
        if self.reconnect_before_hours == 0 {
            None
        } else {
            Some(
                Duration {
                    nanos: self.reconnect_before_hours as u128 * 3_600 * 1_000_000_000,
                },
            )
        }
    }
}

fn all_symbols_vec() -> (r: Vec<Symbol>)
    ensures
        r@ == symbol::all_symbols(),
{
    let mut out: Vec<Symbol> = Vec::new();
    out.push(Symbol::Btc);
    out.push(Symbol::Eth);
    out.push(Symbol::Sol);
    out.push(Symbol::Hype);
    proof {
        assert(out@ =~= symbol::all_symbols());
    }
    out
}

impl GeneralConfig {
    /// What a file that leaves the section out has.
    pub open spec fn is_default(self) -> bool {
        &&& self.symbols@ == symbol::all_symbols()
        &&& self.orderbook_depth == 20
        &&& self.vwap_notional_usd == Decimal::whole(1000)
        &&& self.book_channel_capacity == 4096
    }
}

impl Default for GeneralConfig {
    fn default() -> (r: GeneralConfig)
        ensures
            r.is_default(),
    {
        GeneralConfig {
            symbols: all_symbols_vec(),
            orderbook_depth: 20,
            vwap_notional_usd: Decimal::from_u64(1000),
            book_channel_capacity: 4096,
        }
    }
}

impl HyperliquidConfig {
    /// What a file that leaves the section out has.
    pub open spec fn is_default(self) -> bool {
        &&& self.enabled
        &&& self.ws_url@ == "wss://api.hyperliquid.xyz/ws"@
        &&& self.reconnect_max_attempts == 10
        &&& self.reconnect_base_delay_ms == 500
        &&& self.reconnect_max_delay_ms == 30_000
        &&& self.ping_interval_secs == 30
        &&& self.excluded_symbols@.len() == 0
    }
}

impl Default for HyperliquidConfig {
    fn default() -> (r: HyperliquidConfig)
        ensures
            r.is_default(),
    {
        HyperliquidConfig {
            enabled: true,
            ws_url: "wss://api.hyperliquid.xyz/ws".to_owned(),
            reconnect_max_attempts: 10,
            reconnect_base_delay_ms: 500,
            reconnect_max_delay_ms: 30_000,
            ping_interval_secs: 30,
            excluded_symbols: Vec::new(),
        }
    }
}

impl EdgeXConfig {
    /// What a file that leaves the section out has.
    pub open spec fn is_default(self) -> bool {
        &&& self.enabled
        &&& self.ws_url@ == "wss://quote.edgex.exchange/api/v1/public/ws"@
        &&& self.reconnect_max_attempts == 10
        &&& self.reconnect_base_delay_ms == 500
        &&& self.reconnect_max_delay_ms == 30_000
        &&& self.ping_interval_secs == 20
        &&& self.depth_level == 15
        &&& self.resync_interval_secs == 300
        &&& self.resolve_contract_ids
        &&& self.metadata_url@ == "https://pro.edgex.exchange/api/v1/public/meta/getMetaData"@
        &&& self.contract_ids@.len() == 0
        &&& self.excluded_symbols@.len() == 0
    }
}

impl Default for EdgeXConfig {
    fn default() -> (r: EdgeXConfig)
        ensures
            r.is_default(),
    {
        EdgeXConfig {
            enabled: true,
            ws_url: "wss://quote.edgex.exchange/api/v1/public/ws".to_owned(),
            reconnect_max_attempts: 10,
            reconnect_base_delay_ms: 500,
            reconnect_max_delay_ms: 30_000,
            ping_interval_secs: 20,
            depth_level: 15,
            resync_interval_secs: 300,
            resolve_contract_ids: true,
            metadata_url: "https://pro.edgex.exchange/api/v1/public/meta/getMetaData".to_owned(),
            contract_ids: Vec::new(),
            excluded_symbols: Vec::new(),
        }
    }
}

impl AsterConfig {
    /// What a file that leaves the section out has.
    pub open spec fn is_default(self) -> bool {
        &&& self.enabled
        &&& self.ws_url@ == "wss://fstream.asterdex.com"@
        &&& self.rest_url@ == "https://fapi.asterdex.com"@
        &&& self.depth_stream_interval@ == "100ms"@
        &&& self.snapshot_limit == 1000
        &&& self.reconnect_before_hours == 23
        &&& self.reconnect_max_attempts == 10
        &&& self.reconnect_base_delay_ms == 500
        &&& self.reconnect_max_delay_ms == 30_000
        &&& self.resync_backoff_ms == 5000
        &&& self.excluded_symbols@.len() == 0
    }
}

impl Default for AsterConfig {
    fn default() -> (r: AsterConfig)
        ensures
            r.is_default(),
    {
        AsterConfig {
            enabled: true,
            ws_url: "wss://fstream.asterdex.com".to_owned(),
            rest_url: "https://fapi.asterdex.com".to_owned(),
            depth_stream_interval: "100ms".to_owned(),
            snapshot_limit: 1000,
            reconnect_before_hours: 23,
            reconnect_max_attempts: 10,
            reconnect_base_delay_ms: 500,
            reconnect_max_delay_ms: 30_000,
            resync_backoff_ms: 5000,
            excluded_symbols: Vec::new(),
        }
    }
}

impl LighterConfig {
    /// What a file that leaves the section out has.
    pub open spec fn is_default(self) -> bool {
        &&& self.enabled
        &&& self.ws_url@ == "wss://mainnet.zklighter.elliot.ai/stream"@
        &&& self.testnet_ws_url@ == "wss://testnet.zklighter.elliot.ai/stream"@
        &&& !self.use_testnet
        &&& self.keepalive_interval_secs == 60
        &&& self.reconnect_max_attempts == 10
        &&& self.reconnect_base_delay_ms == 500
        &&& self.reconnect_max_delay_ms == 30_000
        &&& self.mapping_warn_secs == 30
        &&& self.excluded_symbols@.len() == 0
    }
}

impl Default for LighterConfig {
    fn default() -> (r: LighterConfig)
        ensures
            r.is_default(),
    {
        LighterConfig {
            enabled: true,
            ws_url: "wss://mainnet.zklighter.elliot.ai/stream".to_owned(),
            testnet_ws_url: "wss://testnet.zklighter.elliot.ai/stream".to_owned(),
            use_testnet: false,
            keepalive_interval_secs: 60,
            reconnect_max_attempts: 10,
            reconnect_base_delay_ms: 500,
            reconnect_max_delay_ms: 30_000,
            mapping_warn_secs: 30,
            excluded_symbols: Vec::new(),
        }
    }
}

impl DydxConfig {
    /// What a file that leaves the section out has.
    pub open spec fn is_default(self) -> bool {
        &&& !self.enabled
        &&& self.ws_url@ == "wss://indexer.dydx.trade/v4/ws"@
        &&& self.testnet_ws_url@ == "wss://indexer.v4testnet.dydx.exchange/v4/ws"@
        &&& !self.use_testnet
        &&& self.connected_timeout_secs == 10
        &&& self.reconnect_max_attempts == 10
        &&& self.reconnect_base_delay_ms == 500
        &&& self.reconnect_max_delay_ms == 30_000
        &&& self.excluded_symbols@.len() == 0
    }
}

impl Default for DydxConfig {
    fn default() -> (r: DydxConfig)
        ensures
            r.is_default(),
    {
        DydxConfig {
            enabled: false,
            ws_url: "wss://indexer.dydx.trade/v4/ws".to_owned(),
            testnet_ws_url: "wss://indexer.v4testnet.dydx.exchange/v4/ws".to_owned(),
            use_testnet: false,
            connected_timeout_secs: 10,
            reconnect_max_attempts: 10,
            reconnect_base_delay_ms: 500,
            reconnect_max_delay_ms: 30_000,
            excluded_symbols: Vec::new(),
        }
    }
}

impl FundingConfig {
    /// What a file that leaves the section out has.
    pub open spec fn is_default(self) -> bool {
        &&& self.enabled
        &&& self.channel_capacity == 1024
        &&& self.intervals_hours@.len() == 0
    }
}

impl Default for FundingConfig {
    fn default() -> (r: FundingConfig)
        ensures
            r.is_default(),
    {
        FundingConfig {
            enabled: true,
            channel_capacity: 1024,
            intervals_hours: Vec::new(),
        }
    }
}

impl FundingRecordingConfig {
    /// What a file that leaves the section out has.
    pub open spec fn is_default(self) -> bool {
        &&& self.enabled
        &&& self.heartbeat_interval_secs == 300
    }
}

impl Default for FundingRecordingConfig {
    fn default() -> (r: FundingRecordingConfig)
        ensures
            r.is_default(),
    {
        FundingRecordingConfig {
            enabled: true,
            heartbeat_interval_secs: 300,
        }
    }
}

impl RecordingConfig {
    /// What a file that leaves the section out has.
    pub open spec fn is_default(self) -> bool {
        &&& self.csv_dir@ == "data"@
        &&& self.log_dir@ == "logs"@
        &&& self.csv_mode == CsvMode::All
        &&& self.csv_sample_interval_ms == 100
        &&& self.csv_threshold_bps == Decimal::whole(5)
        &&& self.csv_flush_interval_ms == 1000
        &&& self.snapshot_channel_capacity == 8192
        &&& self.log_filter@ == "info"@
        &&& !self.log_to_stdout
        &&& self.funding.is_default()
    }
}

impl Default for RecordingConfig {
    fn default() -> (r: RecordingConfig)
        ensures
            r.is_default(),
    {
        RecordingConfig {
            csv_dir: "data".to_owned(),
            log_dir: "logs".to_owned(),
            csv_mode: CsvMode::All,
            csv_sample_interval_ms: 100,
            csv_threshold_bps: Decimal::from_u64(5),
            csv_flush_interval_ms: 1000,
            snapshot_channel_capacity: 8192,
            log_filter: "info".to_owned(),
            log_to_stdout: false,
            funding: FundingRecordingConfig::default(),
        }
    }
}

impl MonitoringConfig {
    /// What a file that leaves the section out has.
    pub open spec fn is_default(self) -> bool {
        &&& self.latency_warn_threshold_ms == 500
        &&& self.staleness_warn_threshold_ms == 1000
        &&& self.status_interval_secs == 60
        &&& self.warn_min_interval_secs == 10
    }
}

impl Default for MonitoringConfig {
    fn default() -> (r: MonitoringConfig)
        ensures
            r.is_default(),
    {
        MonitoringConfig {
            latency_warn_threshold_ms: 500,
            staleness_warn_threshold_ms: 1000,
            status_interval_secs: 60,
            warn_min_interval_secs: 10,
        }
    }
}

impl DexConfig {
    /// What a file that leaves the section out has.
    pub open spec fn is_default(self) -> bool {
        &&& self.hyperliquid.is_default()
        &&& self.edgex.is_default()
        &&& self.aster.is_default()
        &&& self.lighter.is_default()
        &&& self.dydx.is_default()
    }
}

impl Default for DexConfig {
    fn default() -> (r: DexConfig)
        ensures
            r.is_default(),
    {
        DexConfig {
            hyperliquid: HyperliquidConfig::default(),
            edgex: EdgeXConfig::default(),
            aster: AsterConfig::default(),
            lighter: LighterConfig::default(),
            dydx: DydxConfig::default(),
        }
    }
}

impl Default for Config {
    /// The configuration of a file that leaves everything out. It is valid.
    fn default() -> (r: Config)
        ensures
            r.fault() is None,
            r.general.is_default(),
            r.dex.is_default(),
            r.funding.is_default(),
            r.recording.is_default(),
            r.monitoring.is_default(),
            r.dexes() == seq![Dex::Hyperliquid, Dex::EdgeX, Dex::Aster, Dex::Lighter],
    {
        let r = Config {
            general: GeneralConfig::default(),
            dex: DexConfig::default(),
            funding: FundingConfig::default(),
            recording: RecordingConfig::default(),
            monitoring: MonitoringConfig::default(),
        };
        proof {
            assert(r.enabled(Dex::Hyperliquid));
            assert forall|d: Dex| !#[trigger] r.starved(d) by {
                lemma_nothing_excluded(r, d);
            }
            lemma_default_dexes(r);
        }
        r
    }
}

proof fn lemma_nothing_excluded(cfg: Config, dex: Dex)
    requires
        cfg.general.symbols@ == symbol::all_symbols(),
        cfg.excluded(dex).len() == 0,
    ensures
        cfg.listed(dex).len() > 0,
{
    broadcast use vstd::seq_lib::group_filter_ensures;

    let kept = |s: Symbol| !cfg.excluded(dex).contains(s);
    assert(symbol::all_symbols()[0] == Symbol::Btc);
    assert(symbol::all_symbols().contains(Symbol::Btc) && kept(Symbol::Btc));
    assert(symbol::all_symbols().filter(kept).contains(Symbol::Btc));
}

proof fn lemma_default_dexes(cfg: Config)
    requires
        cfg.enabled(Dex::Hyperliquid) && cfg.enabled(Dex::EdgeX) && cfg.enabled(Dex::Aster)
            && cfg.enabled(Dex::Lighter),
        !cfg.enabled(Dex::Dydx),
    ensures
        cfg.dexes() == seq![Dex::Hyperliquid, Dex::EdgeX, Dex::Aster, Dex::Lighter],
{
    reveal(Seq::filter);
    let on = |d: Dex| cfg.enabled(d);
    let four = seq![Dex::Hyperliquid, Dex::EdgeX, Dex::Aster, Dex::Lighter];
    let three = seq![Dex::Hyperliquid, Dex::EdgeX, Dex::Aster];
    let two = seq![Dex::Hyperliquid, Dex::EdgeX];
    let one = seq![Dex::Hyperliquid];
    assert(symbol::all_dexes().drop_last() =~= four);
    assert(four.drop_last() =~= three);
    assert(three.drop_last() =~= two);
    assert(two.drop_last() =~= one);
    assert(one.drop_last() =~= Seq::<Dex>::empty());
    assert(Seq::<Dex>::empty().filter(on) =~= Seq::<Dex>::empty());
    assert(one.filter(on) =~= one);
    assert(two.filter(on) =~= two);
    assert(three.filter(on) =~= three);
    assert(four.filter(on) =~= four);
    assert(symbol::all_dexes().filter(on) =~= four);
}

/// A venue is collected from exactly where it is among the venues that are listed.
pub proof fn law_enabled_dexes_are_listed(cfg: Config, dex: Dex)
    ensures
        cfg.dexes().contains(dex) <==> cfg.enabled(dex),
{
    broadcast use vstd::seq_lib::group_filter_ensures;

    let on = |d: Dex| cfg.enabled(d);
    if cfg.enabled(dex) {
        assert(symbol::all_dexes()[dex.rank()] == dex);
        assert(symbol::all_dexes().contains(dex) && on(dex));
    }
    if cfg.dexes().contains(dex) {
        assert(on(dex));
    }
}

/// An instrument is subscribed to on a venue exactly where it is configured and not left out there.
pub proof fn law_excluded_symbols_are_left_out(cfg: Config, dex: Dex, symbol: Symbol)
    ensures
        cfg.listed(dex).contains(symbol) <==> cfg.general.symbols@.contains(symbol)
            && !cfg.excluded(dex).contains(symbol),
{
    broadcast use vstd::seq_lib::group_filter_ensures;

    let kept = |s: Symbol| !cfg.excluded(dex).contains(s);
    if cfg.general.symbols@.contains(symbol) && kept(symbol) {
        assert(cfg.general.symbols@.filter(kept).contains(symbol));
    }
    if cfg.listed(dex).contains(symbol) {
        assert(kept(symbol));
        cfg.general.symbols@.lemma_filter_contains_rev(kept, symbol);
    }
}

/// The interval of a venue is the last one that is given for it, however many there are, and there is
/// none exactly where none is given.
pub proof fn law_last_interval_counts(intervals: Seq<(Dex, Decimal)>, dex: Dex, i: int)
    ensures
        0 <= i < intervals.len() && intervals[i].0 == dex && (forall|j: int|
            i < j < intervals.len() ==> (#[trigger] intervals[j]).0 != dex) ==> interval_of(
            intervals,
            dex,
        ) == Some(intervals[i].1),
        interval_of(intervals, dex) is None <==> forall|j: int|
            0 <= j < intervals.len() ==> (#[trigger] intervals[j]).0 != dex,
    decreases intervals.len(),
{
    if intervals.len() > 0 {
        let front = intervals.drop_last();
        law_last_interval_counts(front, dex, i);
        assert(intervals[intervals.len() - 1] == intervals.last());
        assert forall|j: int|
            #![trigger front[j]]
            #![trigger intervals[j]]
            0 <= j < front.len() implies front[j] == intervals[j] by {}
        if interval_of(front, dex) is Some {
            let j = choose|j: int| 0 <= j < front.len() && (#[trigger] front[j]).0 == dex;
            assert(intervals[j].0 == dex);
        }
    }
}

/// A configuration is without fault exactly where it has an instrument, every size that must not be
/// zero is not, a venue is enabled, and every venue that is enabled can be collected from.
pub proof fn law_faultless_configurations(cfg: Config)
    ensures
        cfg.fault() is None <==> {
            &&& cfg.general.symbols@.len() > 0
            &&& cfg.general.orderbook_depth > 0
            &&& cfg.general.book_channel_capacity > 0
            &&& cfg.recording.snapshot_channel_capacity > 0
            &&& exists|d: Dex| #[trigger] cfg.enabled(d)
            &&& forall|d: Dex| #[trigger]
                cfg.enabled(d) ==> exists|s: Symbol|
                    cfg.general.symbols@.contains(s) && !#[trigger] cfg.excluded(d).contains(s)
            &&& cfg.dex.hyperliquid.enabled ==> cfg.dex.hyperliquid.ping_interval_secs > 0
            &&& cfg.dex.edgex.enabled ==> cfg.dex.edgex.depth_level > 0
            &&& cfg.dex.aster.enabled ==> cfg.dex.aster.snapshot_limit > 0
            &&& cfg.dex.lighter.enabled ==> 0 < cfg.dex.lighter.keepalive_interval_secs < 120
        },
{
    assert forall|d: Dex| #[trigger] cfg.listed(d).len() > 0 <==> exists|s: Symbol|
        cfg.general.symbols@.contains(s) && !#[trigger] cfg.excluded(d).contains(s) by {
        if cfg.listed(d).len() > 0 {
            let s = cfg.listed(d)[0];
            assert(cfg.listed(d).contains(s));
            law_excluded_symbols_are_left_out(cfg, d, s);
        }
        if exists|s: Symbol|
            cfg.general.symbols@.contains(s) && !#[trigger] cfg.excluded(d).contains(s) {
            let s = choose|s: Symbol|
                cfg.general.symbols@.contains(s) && !#[trigger] cfg.excluded(d).contains(s);
            law_excluded_symbols_are_left_out(cfg, d, s);
        }
    }
    if cfg.first_starved() is Some {
        assert(cfg.enabled(cfg.first_starved().unwrap()));
        assert(cfg.listed(cfg.first_starved().unwrap()).len() == 0);
    } else {
        assert forall|d: Dex| #[trigger] cfg.enabled(d) implies cfg.listed(d).len() > 0 by {
            assert(!cfg.starved(d));
        }
    }
}

/// The name of a stream and the address of a snapshot tell instruments apart, and the address ends with
/// the count of levels.
pub proof fn law_streams_tell_instruments_apart(cfg: AsterConfig, a: Symbol, b: Symbol)
    requires
        a != b,
    ensures
        cfg.stream_name_of(a) != cfg.stream_name_of(b),
        cfg.snapshot_url_of(a) != cfg.snapshot_url_of(b),
{
    reveal_strlit("BTCUSDT");
    reveal_strlit("ETHUSDT");
    reveal_strlit("SOLUSDT");
    reveal_strlit("HYPEUSDT");
    let (x, y) = (cfg.stream_name_of(a), cfg.stream_name_of(b));
    let (p, q) = (a.stream_name(Dex::Aster), b.stream_name(Dex::Aster));
    assert(p.len() >= 7 && q.len() >= 7);
    assert(x[0] == p[0] && y[0] == q[0]);
    assert(p[0] == text::lower(a.dex_name(Dex::Aster)[0]));
    assert(q[0] == text::lower(b.dex_name(Dex::Aster)[0]));
    let head = text::without_end_slashes(cfg.rest_url@) + "/fapi/v1/depth?symbol="@;
    let n = head.len() as int;
    assert(cfg.snapshot_url_of(a)[n] == a.dex_name(Dex::Aster)[0]);
    assert(cfg.snapshot_url_of(b)[n] == b.dex_name(Dex::Aster)[0]);
}

/// A venue is collected from, and instruments are left out on it, as its own part of the configuration
/// says: another part for one venue changes nothing of the others.
pub proof fn law_venues_are_configured_apart(cfg: Config, other: DexConfig, dex: Dex)
    ensures
        ({
            let hyperliquid = Config {
                dex: DexConfig { hyperliquid: other.hyperliquid, ..cfg.dex },
                ..cfg
            };
            let edgex = Config { dex: DexConfig { edgex: other.edgex, ..cfg.dex }, ..cfg };
            let aster = Config { dex: DexConfig { aster: other.aster, ..cfg.dex }, ..cfg };
            let lighter = Config { dex: DexConfig { lighter: other.lighter, ..cfg.dex }, ..cfg };
            let dydx = Config { dex: DexConfig { dydx: other.dydx, ..cfg.dex }, ..cfg };
            &&& hyperliquid.enabled(dex) == if dex == Dex::Hyperliquid {
                other.hyperliquid.enabled
            } else {
                cfg.enabled(dex)
            }
            &&& edgex.enabled(dex) == if dex == Dex::EdgeX {
                other.edgex.enabled
            } else {
                cfg.enabled(dex)
            }
            &&& aster.enabled(dex) == if dex == Dex::Aster {
                other.aster.enabled
            } else {
                cfg.enabled(dex)
            }
            &&& lighter.enabled(dex) == if dex == Dex::Lighter {
                other.lighter.enabled
            } else {
                cfg.enabled(dex)
            }
            &&& dydx.enabled(dex) == if dex == Dex::Dydx {
                other.dydx.enabled
            } else {
                cfg.enabled(dex)
            }
            &&& hyperliquid.excluded(dex) == if dex == Dex::Hyperliquid {
                other.hyperliquid.excluded_symbols@
            } else {
                cfg.excluded(dex)
            }
            &&& edgex.excluded(dex) == if dex == Dex::EdgeX {
                other.edgex.excluded_symbols@
            } else {
                cfg.excluded(dex)
            }
            &&& aster.excluded(dex) == if dex == Dex::Aster {
                other.aster.excluded_symbols@
            } else {
                cfg.excluded(dex)
            }
            &&& lighter.excluded(dex) == if dex == Dex::Lighter {
                other.lighter.excluded_symbols@
            } else {
                cfg.excluded(dex)
            }
            &&& dydx.excluded(dex) == if dex == Dex::Dydx {
                other.dydx.excluded_symbols@
            } else {
                cfg.excluded(dex)
            }
        }),
{
}

/// The name of a stream starts with the instrument, and the interval, where one is given, ends it, with
/// its white space cut off. The address of a snapshot starts with that of the venue and ends with the
/// count of levels.
pub proof fn law_streams_and_addresses_say_what_is_asked_for(cfg: AsterConfig, symbol: Symbol)
    ensures
        ({
            let name = symbol.stream_name(Dex::Aster);
            let interval = text::trimmed(cfg.depth_stream_interval@);
            let stream = cfg.stream_name_of(symbol);
            let url = cfg.snapshot_url_of(symbol);
            let head = text::without_end_slashes(cfg.rest_url@);
            let limit = text::digits(cfg.snapshot_limit as nat);
            &&& stream.take(name.len() as int) == name
            &&& stream.skip(name.len() as int) == if interval.len() == 0 {
                "@depth"@
            } else {
                "@depth@"@ + interval
            }
            &&& url.take(head.len() as int) == head
            &&& url.len() >= limit.len()
            &&& url.skip(url.len() - limit.len()) == limit
            &&& text::stands_in(
                url,
                "symbol="@ + symbol.dex_name(Dex::Aster) + "&"@,
                head.len() as int + 15,
            )
        }),
{
    reveal_strlit("@depth");
    reveal_strlit("@depth@");
    reveal_strlit("/fapi/v1/depth?symbol=");
    reveal_strlit("symbol=");
    reveal_strlit("&limit=");
    reveal_strlit("&");
    let name = symbol.stream_name(Dex::Aster);
    let interval = text::trimmed(cfg.depth_stream_interval@);
    let stream = cfg.stream_name_of(symbol);
    assert(stream.take(name.len() as int) =~= name);
    if interval.len() == 0 {
        assert(stream.skip(name.len() as int) =~= "@depth"@);
    } else {
        assert(stream.skip(name.len() as int) =~= "@depth@"@ + interval);
    }
    let url = cfg.snapshot_url_of(symbol);
    let head = text::without_end_slashes(cfg.rest_url@);
    let limit = text::digits(cfg.snapshot_limit as nat);
    assert(url.take(head.len() as int) =~= head);
    assert(url.skip(url.len() - limit.len()) =~= limit);
    let asked = "symbol="@ + symbol.dex_name(Dex::Aster) + "&"@;
    let at = head.len() as int + 15;
    assert forall|i: int| 0 <= i < asked.len() implies url[at + i] == #[trigger] asked[i] by {
        if i < 7 {
            assert(url[at + i] == "/fapi/v1/depth?symbol="@[15 + i]);
        }
    }
}

/// Where one thing is wrong with a configuration, the fault says that it is this one.
pub proof fn law_fault_says_what_is_wrong(cfg: Config)
    ensures
        ({
            let symbols = cfg.general.symbols@.len() == 0;
            let depth = cfg.general.orderbook_depth == 0;
            let books = cfg.general.book_channel_capacity == 0;
            let snapshots = cfg.recording.snapshot_channel_capacity == 0;
            let ping = cfg.dex.hyperliquid.enabled && cfg.dex.hyperliquid.ping_interval_secs == 0;
            let level = cfg.dex.edgex.enabled && cfg.dex.edgex.depth_level == 0;
            let limit = cfg.dex.aster.enabled && cfg.dex.aster.snapshot_limit == 0;
            let short = cfg.dex.lighter.enabled && cfg.dex.lighter.keepalive_interval_secs == 0;
            let long = cfg.dex.lighter.enabled && cfg.dex.lighter.keepalive_interval_secs >= 120;
            let general = symbols || depth || books || snapshots;
            &&& symbols ==> cfg.fault() == Some("symbols が空です"@)
            &&& depth && !symbols ==> cfg.fault() == Some("orderbook_depth は 1 以上"@)
            &&& books && !symbols && !depth ==> cfg.fault() == Some(
                "book_channel_capacity は 1 以上"@,
            )
            &&& snapshots && !symbols && !depth && !books ==> cfg.fault() == Some(
                "snapshot_channel_capacity は 1 以上"@,
            )
            &&& !general && ping ==> cfg.fault() == Some(
                "hyperliquid.ping_interval_secs は 1 以上"@,
            )
            &&& !general && level && !ping ==> cfg.fault() == Some("edgex.depth_level は 1 以上"@)
            &&& !general && limit && !ping && !level ==> cfg.fault() == Some(
                "aster.snapshot_limit は 1 以上"@,
            )
            &&& !general && short && !ping && !level && !limit ==> cfg.fault() == Some(
                "lighter.keepalive_interval_secs は 1 以上"@,
            )
            &&& !general && long && !ping && !level && !limit ==> cfg.fault() == Some(
                "lighter.keepalive_interval_secs は 120 未満にしてください（2 分で切断されます）"@,
            )
        }),
{
    if cfg.dex.hyperliquid.enabled {
        assert(cfg.enabled(Dex::Hyperliquid));
    }
    if cfg.dex.edgex.enabled {
        assert(cfg.enabled(Dex::EdgeX));
    }
    if cfg.dex.aster.enabled {
        assert(cfg.enabled(Dex::Aster));
    }
    if cfg.dex.lighter.enabled {
        assert(cfg.enabled(Dex::Lighter));
    }
}

/// The venue that is named for want of instruments is one that is collected from and has none, and no
/// venue before it in canonical order is such a one.
pub proof fn law_first_venue_without_instruments_is_named(cfg: Config, dex: Dex)
    ensures
        cfg.first_starved() matches Some(first) ==> cfg.enabled(first) && cfg.listed(first).len()
            == 0 && (cfg.enabled(dex) && cfg.listed(dex).len() == 0 ==> first.rank()
            <= dex.rank()),
        cfg.first_starved() is None ==> !(cfg.enabled(dex) && cfg.listed(dex).len() == 0),
{
}

} // verus!
