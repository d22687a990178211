//! Reading a market's prices as a signal to trade, to stay out or to sell.

use vstd::prelude::*;

use crate::config::SignalConfig;
use crate::decimal::Decimal;

verus! {

#[derive(Debug, Clone, Copy, PartialEq, Eq, Structural)]
pub enum MarketSignal {
    Good,
    Bad,
    Unknown,
}

/// One side is as good as certain while more than the configured number of minutes
/// remain.
pub open spec fn is_decided_early(
    cfg: SignalConfig,
    up: int,
    down: int,
    time_remaining_secs: int,
) -> bool {
    &&& up >= cfg.clear_threshold@ || down >= cfg.clear_threshold@
    &&& time_remaining_secs > 60 * cfg.clear_remaining_mins
}

/// Both sides lie in the stable range.
pub open spec fn is_stable(cfg: SignalConfig, up: int, down: int) -> bool {
    &&& cfg.stable_min@ <= up <= cfg.stable_max@
    &&& cfg.stable_min@ <= down <= cfg.stable_max@
}

/// The signal of a market's two prices.
pub open spec fn place_signal(
    cfg: SignalConfig,
    up: int,
    down: int,
    time_remaining_secs: int,
) -> MarketSignal {
    if !cfg.enabled {
        MarketSignal::Good
    } else if is_decided_early(cfg, up, down, time_remaining_secs) {
        MarketSignal::Bad
    } else if is_stable(cfg, up, down) {
        MarketSignal::Good
    } else {
        MarketSignal::Bad
    }
}

/// Whether the prices of a market speak for placing orders. With signals switched
/// off they always do.
pub fn evaluate_place_signal(
    cfg: &SignalConfig,
    up_price: Decimal,
    down_price: Decimal,
    time_remaining_secs: i64,
) -> (signal: MarketSignal)
    ensures
        signal == place_signal(*cfg, up_price@, down_price@, time_remaining_secs as int),
{
    if !cfg.enabled {
        return MarketSignal::Good;
    }
    let up = up_price.units();
    let down = down_price.units();
    let early: bool = time_remaining_secs > 60 * cfg.clear_remaining_mins as i64;
    if up >= cfg.clear_threshold.units() && early {
        return MarketSignal::Bad;
    }
    if down >= cfg.clear_threshold.units() && early {
        return MarketSignal::Bad;
    }
    let up_stable = up >= cfg.stable_min.units() && up <= cfg.stable_max.units();
    let down_stable = down >= cfg.stable_min.units() && down <= cfg.stable_max.units();
    if up_stable && down_stable {
        return MarketSignal::Good;
    }
    MarketSignal::Bad
}

/// Whether a price of a held token is a danger.
pub open spec fn is_danger(cfg: SignalConfig, price: int) -> bool {
    cfg.enabled && price <= cfg.danger_price@
}

/// Whether a held token has fallen so far that it is to be sold.
pub fn is_danger_signal(cfg: &SignalConfig, matched_token_price: Decimal) -> (danger: bool)
    ensures
        danger == (cfg.enabled && matched_token_price@ <= cfg.danger_price@),
        danger == is_danger(*cfg, matched_token_price@),
{
    if !cfg.enabled {
        return false;
    }
    matched_token_price.units() <= cfg.danger_price.units()
}

/// A good signal does not depend on which side is called up.
pub proof fn law_signal_is_symmetric(
    cfg: SignalConfig,
    up: int,
    down: int,
    time_remaining_secs: int,
)
    ensures
        place_signal(cfg, up, down, time_remaining_secs) == place_signal(
            cfg,
            down,
            up,
            time_remaining_secs,
        ),
{
}

/// A market that is good to trade stays so as its time runs out, prices being equal:
/// being decided weighs less the closer the end is.
pub proof fn law_good_signal_outlasts_time(
    cfg: SignalConfig,
    up: int,
    down: int,
    earlier_remaining: int,
    later_remaining: int,
)
    requires
        later_remaining <= earlier_remaining,
        place_signal(cfg, up, down, earlier_remaining) == MarketSignal::Good,
    ensures
        place_signal(cfg, up, down, later_remaining) == MarketSignal::Good,
{
}

/// Every market gets a verdict.
pub proof fn law_signal_is_known(cfg: SignalConfig, up: int, down: int, time_remaining_secs: int)
    ensures
        place_signal(cfg, up, down, time_remaining_secs) != MarketSignal::Unknown,
{
}

/// A market with a side that has fallen or risen out of the stable range is bad to trade,
/// however much time remains.
pub proof fn law_unstable_market_is_bad(
    cfg: SignalConfig,
    up: int,
    down: int,
    time_remaining_secs: int,
)
    requires
        cfg.enabled,
        up < cfg.stable_min@ || down < cfg.stable_min@ || up > cfg.stable_max@ || down
            > cfg.stable_max@,
    ensures
        place_signal(cfg, up, down, time_remaining_secs) == MarketSignal::Bad,
{
}

/// What a signal rests on, case by case: with signals switched on, a market is good exactly
/// when both prices lie in the stable range and no side is clear too early, whatever the
/// prices add up to.
pub proof fn law_stable_and_open_market_is_good(
    cfg: SignalConfig,
    up: int,
    down: int,
    time_remaining_secs: int,
)
    ensures
        !cfg.enabled ==> place_signal(cfg, up, down, time_remaining_secs) == MarketSignal::Good,
        cfg.enabled ==> (place_signal(cfg, up, down, time_remaining_secs) == MarketSignal::Good
            <==> {
            &&& cfg.stable_min@ <= up
            &&& up <= cfg.stable_max@
            &&& cfg.stable_min@ <= down
            &&& down <= cfg.stable_max@
            &&& (up < cfg.clear_threshold@ && down < cfg.clear_threshold@) || time_remaining_secs
                <= 60 * cfg.clear_remaining_mins
        }),
        place_signal(cfg, up, down, time_remaining_secs) == MarketSignal::Good || place_signal(
            cfg,
            up,
            down,
            time_remaining_secs,
        ) == MarketSignal::Bad,
{
}

/// Moving a price further into the stable range, and not to the clear threshold, never
/// spoils a good signal.
pub proof fn law_steadier_market_stays_good(
    cfg: SignalConfig,
    up: int,
    down: int,
    steadier: int,
    time_remaining_secs: int,
)
    requires
        place_signal(cfg, up, down, time_remaining_secs) == MarketSignal::Good,
        cfg.stable_min@ <= steadier <= cfg.stable_max@,
        steadier < cfg.clear_threshold@ || steadier <= up,
    ensures
        place_signal(cfg, steadier, down, time_remaining_secs) == MarketSignal::Good,
        place_signal(cfg, down, steadier, time_remaining_secs) == MarketSignal::Good,
{
}

/// With signals on, danger begins at the danger price: there and below it is, above it is
/// not. Without signals nothing is a danger.
pub proof fn law_danger_begins_at_its_price(cfg: SignalConfig, price: int, lower: int)
    requires
        lower <= price,
    ensures
        is_danger(cfg, price) ==> is_danger(cfg, lower),
        cfg.enabled ==> is_danger(cfg, cfg.danger_price@),
        price > cfg.danger_price@ ==> !is_danger(cfg, price),
        !cfg.enabled ==> !is_danger(cfg, price),
{
}

} // verus!
