//! What the collector does when it starts.

use vstd::prelude::*;

use crate::config;
use crate::config::Config;
use crate::symbol;
use crate::symbol::Dex;
use crate::text;

verus! {

/// What the arguments ask for.
#[derive(Clone, Debug, PartialEq, Eq)]
pub enum Command {
    /// To run with the configuration at the path.
    Run(String),
    /// To show how the program is used.
    Help,
}

/// What a command says.
#[verifier::ext_equal]
pub enum Asked {
    Run(Seq<char>),
    Help,
}

impl View for Command {
    type V = Asked;

    open spec fn view(&self) -> Asked {
        match *self {
            Command::Run(path) => Asked::Run(path@),
            Command::Help => Asked::Help,
        }
    }
}

/// Where the configuration is looked for where no path is given.
pub open spec fn default_path() -> Seq<char> {
    "config/collector.toml"@
}

/// What `args` from place `i` on ask for, `path` being the path so far. The last path counts; a
/// request for help is met at once, before any later argument is looked at.
pub open spec fn asked(args: Seq<Seq<char>>, i: int, path: Seq<char>) -> Result<Asked, Seq<char>>
    decreases args.len() - i,
{
    if i < 0 || i >= args.len() {
        Ok(Asked::Run(path))
    } else if args[i] == "--config"@ || args[i] == "-c"@ {
        if i + 1 < args.len() {
            asked(args, i + 2, args[i + 1])
        } else {
            Err("--config には設定ファイルのパスが必要です"@)
        }
    } else if args[i] == "--help"@ || args[i] == "-h"@ {
        Ok(Asked::Help)
    } else {
        Err("不明な引数: "@ + args[i] + "（--help を参照）"@)
    }
}

/// What the arguments ask for, the program's own name left out; or what is wrong with them.
pub fn parse_config_path(args: &Vec<String>) -> (r: Result<Command, String>)
    ensures
        r is Ok <==> asked(text::views(args@), 0, default_path()) is Ok,
        r matches Ok(command) ==> asked(text::views(args@), 0, default_path()) == Ok::<
            Asked,
            Seq<char>,
        >(command@),
        r matches Err(message) ==> asked(text::views(args@), 0, default_path()) == Err::<
            Asked,
            Seq<char>,
        >(message@),
{
    let ghost all = text::views(args@);
    let n: usize = args.len();
    let mut path = "config/collector.toml".to_owned();
    let mut i: usize = 0;
    while i < n
        invariant
            i <= n,
            n == args@.len(),
            all == text::views(args@),
            asked(all, i as int, path@) == asked(all, 0, default_path()),
        decreases n - i,
    {
        let arg = args[i].as_str();
        proof {
            assert(all[i as int] == arg@);
        }
        if text::same_text(arg, "--config") || text::same_text(arg, "-c") {
            if i + 1 >= n {
                return Err("--config には設定ファイルのパスが必要です".to_owned());
            }
            path = args[i + 1].as_str().to_owned();
            proof {
                assert(all[i + 1] == path@);
            }
            i += 2;
        } else if text::same_text(arg, "--help") || text::same_text(arg, "-h") {
            return Ok(Command::Help);
        } else {
            let mut message = "不明な引数: ".to_owned();
            message.append(arg);
            message.append("（--help を参照）");
            return Err(message);
        }
    }
    Ok(Command::Run(path))
}

/// Which sources are started, and what is said about it.
#[derive(Clone, Debug)]
pub struct SourcePlan {
    /// The venues whose books are collected.
    pub market_data: Vec<Dex>,
    /// The venues whose funding rates are collected.
    pub funding: Vec<Dex>,
    /// The venues that are left out.
    pub disabled: Vec<Dex>,
    /// The venues whose books are collected but not their funding rates, although rates are.
    pub without_funding: Vec<Dex>,
    /// The venues whose funding rates are collected without an interval: they are not annualized.
    pub without_interval: Vec<Dex>,
}

/// Whether the funding rates of the venue can be collected.
pub open spec fn offers_funding(dex: Dex) -> bool {
    dex is Hyperliquid || dex is Lighter
}

/// Whether the funding rates of the venue are collected.
pub open spec fn collects_funding(cfg: Config, dex: Dex) -> bool {
    cfg.funding.enabled && cfg.enabled(dex) && offers_funding(dex)
}

/// The venues of which `p` holds, in canonical order.
pub open spec fn those(p: spec_fn(Dex) -> bool) -> Seq<Dex> {
    symbol::all_dexes().filter(p)
}

/// Which sources are to be started.
pub fn plan_sources(cfg: &Config) -> (r: SourcePlan)
    ensures
        r.market_data@ == cfg.dexes(),
        r.funding@ == those(|d: Dex| collects_funding(*cfg, d)),
        r.disabled@ == those(|d: Dex| !cfg.enabled(d)),
        r.without_funding@ == those(
            |d: Dex| cfg.funding.enabled && cfg.enabled(d) && !offers_funding(d),
        ),
        r.without_interval@ == those(
            |d: Dex|
                collects_funding(*cfg, d) && config::interval_of(
                    cfg.funding.intervals_hours@,
                    d,
                ) is None,
        ),
{
    let all = Dex::ALL;
    let ghost on = |d: Dex| cfg.enabled(d);
    let ghost paid = |d: Dex| collects_funding(*cfg, d);
    let ghost off = |d: Dex| !cfg.enabled(d);
    let ghost unpaid = |d: Dex| cfg.funding.enabled && cfg.enabled(d) && !offers_funding(d);
    let ghost open = |d: Dex|
        collects_funding(*cfg, d) && config::interval_of(cfg.funding.intervals_hours@, d) is None;
    let mut plan = SourcePlan {
        market_data: Vec::new(),
        funding: Vec::new(),
        disabled: Vec::new(),
        without_funding: Vec::new(),
        without_interval: Vec::new(),
    };
    let mut i: usize = 0;
    proof {
        reveal(Seq::filter);
        assert(all@ =~= symbol::all_dexes());
        let none = all@.take(0);
        assert(none.filter(on) =~= Seq::<Dex>::empty());
        assert(none.filter(paid) =~= Seq::<Dex>::empty());
        assert(none.filter(off) =~= Seq::<Dex>::empty());
        assert(none.filter(unpaid) =~= Seq::<Dex>::empty());
        assert(none.filter(open) =~= Seq::<Dex>::empty());
    }
    while i < 5
        invariant
            i <= 5,
            all@ == symbol::all_dexes(),
            on == (|d: Dex| cfg.enabled(d)),
            paid == (|d: Dex| collects_funding(*cfg, d)),
            off == (|d: Dex| !cfg.enabled(d)),
            unpaid == (|d: Dex| cfg.funding.enabled && cfg.enabled(d) && !offers_funding(d)),
            open == (|d: Dex|
                collects_funding(*cfg, d) && config::interval_of(
                    cfg.funding.intervals_hours@,
                    d,
                ) is None),
            plan.market_data@ == all@.take(i as int).filter(on),
            plan.funding@ == all@.take(i as int).filter(paid),
            plan.disabled@ == all@.take(i as int).filter(off),
            plan.without_funding@ == all@.take(i as int).filter(unpaid),
            plan.without_interval@ == all@.take(i as int).filter(open),
        decreases 5 - i,
    {
        proof {
            reveal(Seq::filter);
            assert(all@.take(i + 1).drop_last() =~= all@.take(i as int));
            assert(all@.take(i + 1).last() == all@[i as int]);
        }
        let dex = all[i];
        if cfg.is_enabled(dex) {
            plan.market_data.push(dex);
            if cfg.funding.enabled {
                if matches!(dex, Dex::Hyperliquid | Dex::Lighter) {
                    plan.funding.push(dex);
                    if cfg.funding_interval_hours(dex).is_none() {
                        plan.without_interval.push(dex);
                    }
                } else {
                    plan.without_funding.push(dex);
                }
            }
        } else {
            plan.disabled.push(dex);
        }
        i += 1;
    }
    proof {
        assert(all@.take(5) =~= all@);
    }
    plan
}

/// Arguments that ask for a run may be followed by others: what all of them ask for is what the others
/// ask for, with the path of the first ones as the one so far. So the last path counts.
pub proof fn law_arguments_are_read_in_turn(
    first: Seq<Seq<char>>,
    second: Seq<Seq<char>>,
    path: Seq<char>,
)
    ensures
        asked(first, 0, path) matches Ok(Asked::Run(given)) ==> asked(first + second, 0, path)
            == asked(second, 0, given),
        asked(first, 0, path) == Ok::<Asked, Seq<char>>(Asked::Help) ==> asked(
            first + second,
            0,
            path,
        ) == Ok::<Asked, Seq<char>>(Asked::Help),
{
    lemma_in_turn(first, second, 0, path);
}

proof fn lemma_in_turn(first: Seq<Seq<char>>, second: Seq<Seq<char>>, i: int, path: Seq<char>)
    requires
        0 <= i <= first.len(),
    ensures
        asked(first, i, path) matches Ok(Asked::Run(given)) ==> asked(first + second, i, path)
            == asked(second, 0, given),
        asked(first, i, path) == Ok::<Asked, Seq<char>>(Asked::Help) ==> asked(
            first + second,
            i,
            path,
        ) == Ok::<Asked, Seq<char>>(Asked::Help),
    decreases first.len() - i,
{
    let all = first + second;
    if i == first.len() {
        lemma_behind(first, second, 0, path);
    } else {
        assert(all[i] == first[i]);
        if first[i] == "--config"@ || first[i] == "-c"@ {
            if i + 1 < first.len() {
                assert(all[i + 1] == first[i + 1]);
                lemma_in_turn(first, second, i + 2, first[i + 1]);
            }
        }
    }
}

proof fn lemma_behind(first: Seq<Seq<char>>, second: Seq<Seq<char>>, i: int, path: Seq<char>)
    requires
        0 <= i,
    ensures
        asked(first + second, first.len() + i, path) == asked(second, i, path),
    decreases second.len() - i,
{
    let all = first + second;
    if i < second.len() {
        assert(all[first.len() + i] == second[i]);
        if i + 1 < second.len() {
            assert(all[first.len() + i + 1] == second[i + 1]);
            lemma_behind(first, second, i + 2, second[i + 1]);
        }
    }
}

/// Without arguments the default path is taken; either spelling of the option gives the path behind
/// it; either spelling of the request for help is met; anything else is refused.
pub proof fn law_single_requests(path: Seq<char>, given: Seq<char>)
    ensures
        asked(Seq::empty(), 0, path) == Ok::<Asked, Seq<char>>(Asked::Run(path)),
        asked(seq!["--config"@, given], 0, path) == Ok::<Asked, Seq<char>>(Asked::Run(given)),
        asked(seq!["-c"@, given], 0, path) == Ok::<Asked, Seq<char>>(Asked::Run(given)),
        asked(seq!["--help"@], 0, path) == Ok::<Asked, Seq<char>>(Asked::Help),
        asked(seq!["-h"@], 0, path) == Ok::<Asked, Seq<char>>(Asked::Help),
        asked(seq!["--config"@], 0, path) is Err,
        asked(seq!["-c"@], 0, path) is Err,
        given != "--config"@ && given != "-c"@ && given != "--help"@ && given != "-h"@ ==> asked(
            seq![given],
            0,
            path,
        ) is Err,
{
    reveal_strlit("--config");
    reveal_strlit("-c");
    reveal_strlit("--help");
    reveal_strlit("-h");
    assert("--help"@.len() == 6 && "-h"@.len() == 2 && "--config"@.len() == 8 && "-c"@.len() == 2);
    assert("-h"@[1] == 'h' && "-c"@[1] == 'c');
    reveal_with_fuel(asked, 3);
}

/// A venue is named in a plan exactly where what the plan says holds of it.
pub proof fn law_plans_name_every_venue(p: spec_fn(Dex) -> bool, dex: Dex)
    ensures
        those(p).contains(dex) <==> p(dex),
{
    lemma_filtered(symbol::all_dexes(), p, dex);
    assert(symbol::all_dexes()[dex.rank()] == dex);
}

proof fn lemma_filtered(all: Seq<Dex>, p: spec_fn(Dex) -> bool, dex: Dex)
    ensures
        all.filter(p).contains(dex) <==> all.contains(dex) && p(dex),
    decreases all.len(),
{
    reveal(Seq::filter);
    if all.len() > 0 {
        let front = all.drop_last();
        lemma_filtered(front, p, dex);
        let (kept, whole) = (front.filter(p), all.filter(p));
        assert(all[all.len() - 1] == all.last());
        if front.contains(dex) {
            let k = choose|k: int| 0 <= k < front.len() && front[k] == dex;
            assert(all[k] == dex);
        }
        if all.contains(dex) && dex != all.last() {
            let k = choose|k: int| 0 <= k < all.len() && all[k] == dex;
            assert(front[k] == dex);
        }
        if p(all.last()) {
            assert(whole[kept.len() as int] == all.last());
            if kept.contains(dex) {
                let k = choose|k: int| 0 <= k < kept.len() && kept[k] == dex;
                assert(whole[k] == dex);
            }
            if whole.contains(dex) && dex != all.last() {
                let k = choose|k: int| 0 <= k < whole.len() && whole[k] == dex;
                assert(kept[k] == dex);
            }
        }
    }
}

/// Funding rates are collected of the two venues that offer them, where rates are collected at all and
/// the venue is enabled.
pub proof fn law_which_rates_are_collected(cfg: Config, dex: Dex)
    ensures
        collects_funding(cfg, dex) ==> cfg.funding.enabled && cfg.enabled(dex) && (dex
            == Dex::Hyperliquid || dex == Dex::Lighter),
        cfg.funding.enabled && cfg.enabled(dex) && (dex == Dex::Hyperliquid || dex == Dex::Lighter)
            ==> collects_funding(cfg, dex),
{
}

} // verus!
