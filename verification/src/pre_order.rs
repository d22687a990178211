//! Limit orders on both sides of an hourly market: when to place them and at which
//! prices, and what to do as they fill. And the limit order on one side of a 5-minute
//! market.

use vstd::prelude::*;

use crate::config::{SignalConfig, StrategyConfig};
use crate::decimal::{held_product, held_sum, Decimal, ONE};
#[allow(unused_imports)]
use crate::decimal::{held, opt_units, LIMIT};
#[allow(unused_imports)]
use crate::settlement::in_units;
use crate::signals::{evaluate_place_signal, is_danger_signal, MarketSignal};
#[allow(unused_imports)]
use crate::signals::place_signal;
use crate::text::same_text;
use crate::ws::{BestPrices, Price};
#[allow(unused_imports)]
use crate::ws::{PriceView, Quote};

verus! {

/// One tick: a cent.
pub const TICK: i128 = 10_000_000_000_000_000;

/// How far below the current price the dearer side is ordered in a running market:
/// two cents.
pub const DISCOUNT: i128 = 20_000_000_000_000_000;

/// How many assets are traded side by side.
pub const N_ASSETS: i128 = 4;

/// Settings of the orders on both sides.
#[derive(Debug, Clone, Copy)]
pub struct PreLimitConfig {
    /// Most that is paid a share, on either side, before a market starts.
    pub price_limit: Decimal,
    /// Shares a side.
    pub shares: Decimal,
    /// Orders for the next hour are considered from this many minutes before it.
    pub place_order_before_mins: u64,
    /// A single filled side is sold after this many minutes.
    pub sell_unmatched_after_mins: u64,
    /// Also place orders in the running market.
    pub mid_market_enabled: bool,
    pub signal: SignalConfig,
}

/// Prices of the buy orders on the two sides.
#[derive(Debug, Clone, Copy)]
pub struct SideOrders {
    pub up: Decimal,
    pub down: Decimal,
}

/// Prices of the orders for the next hour, where there are any.
pub open spec fn next_hour_prices(
    cfg: PreLimitConfig,
    has_orders: bool,
    mins_until_next_hour: int,
    up: int,
    down: int,
    time_remaining_secs: int,
) -> Option<(int, int)> {
    if !has_orders && mins_until_next_hour <= cfg.place_order_before_mins && place_signal(
        cfg.signal,
        up,
        down,
        time_remaining_secs,
    ) == MarketSignal::Good {
        Some((cfg.price_limit@, cfg.price_limit@))
    } else {
        None
    }
}

/// The prices of orders on the two sides.
pub open spec fn side_prices(orders: Option<SideOrders>) -> Option<(int, int)> {
    match orders {
        Some(o) => Some((o.up@, o.down@)),
        None => None,
    }
}

/// The orders for the next hour: on both sides at the limit, once the hour is near, when
/// there are none yet and the running market gives a good signal.
pub fn next_hour_orders(
    cfg: &PreLimitConfig,
    has_orders: bool,
    mins_until_next_hour: u64,
    up_price: Decimal,
    down_price: Decimal,
    time_remaining_secs: i64,
) -> (orders: Option<SideOrders>)
    ensures
        orders is Some <==> {
            &&& !has_orders
            &&& mins_until_next_hour <= cfg.place_order_before_mins
            &&& place_signal(cfg.signal, up_price@, down_price@, time_remaining_secs as int)
                == MarketSignal::Good
        },
        orders matches Some(o) ==> o.up@ == cfg.price_limit@ && o.down@ == cfg.price_limit@,
        side_prices(orders) == next_hour_prices(
            *cfg,
            has_orders,
            mins_until_next_hour as int,
            up_price@,
            down_price@,
            time_remaining_secs as int,
        ),
{
    if has_orders || mins_until_next_hour > cfg.place_order_before_mins {
        return None;
    }
    match evaluate_place_signal(&cfg.signal, up_price, down_price, time_remaining_secs) {
        MarketSignal::Good => Some(SideOrders { up: cfg.price_limit, down: cfg.price_limit }),
        _ => None,
    }
}

/// What the dearer side is ordered at.
pub open spec fn discounted(price: int) -> int {
    held(price - DISCOUNT)
}

/// Prices of the orders for the running market, where there are any.
pub open spec fn mid_market_prices(
    cfg: PreLimitConfig,
    has_orders: bool,
    up: int,
    down: int,
    time_remaining_secs: int,
) -> Option<(int, int)> {
    if cfg.mid_market_enabled && !has_orders && place_signal(
        cfg.signal,
        up,
        down,
        time_remaining_secs,
    ) == MarketSignal::Good {
        if up <= down {
            Some((up, discounted(down)))
        } else {
            Some((discounted(up), down))
        }
    } else {
        None
    }
}

/// The orders for the running market, where that is allowed, when there are none yet and
/// the signal is good: on the cheaper side at its price, on the other below its price.
/// At equal prices the upper side counts as the cheaper one.
pub fn mid_market_orders(
    cfg: &PreLimitConfig,
    has_orders: bool,
    up_price: Decimal,
    down_price: Decimal,
    time_remaining_secs: i64,
) -> (orders: Option<SideOrders>)
    ensures
        orders is Some <==> {
            &&& cfg.mid_market_enabled
            &&& !has_orders
            &&& place_signal(cfg.signal, up_price@, down_price@, time_remaining_secs as int)
                == MarketSignal::Good
        },
        orders matches Some(o) ==> if up_price@ <= down_price@ {
            o.up@ == up_price@ && o.down@ == discounted(down_price@)
        } else {
            o.up@ == discounted(up_price@) && o.down@ == down_price@
        },
        side_prices(orders) == mid_market_prices(
            *cfg,
            has_orders,
            up_price@,
            down_price@,
            time_remaining_secs as int,
        ),
{
    if !cfg.mid_market_enabled || has_orders {
        return None;
    }
    match evaluate_place_signal(&cfg.signal, up_price, down_price, time_remaining_secs) {
        MarketSignal::Good => if up_price.units() <= down_price.units() {
            Some(
                SideOrders {
                    up: up_price,
                    down: Decimal::from_units(down_price.units() - DISCOUNT),
                },
            )
        } else {
            Some(
                SideOrders {
                    up: Decimal::from_units(up_price.units() - DISCOUNT),
                    down: down_price,
                },
            )
        },
        _ => None,
    }
}

/// What to do with the orders of a market.
#[derive(Debug, Clone, Copy, PartialEq, Eq, Structural)]
pub enum PositionAction {
    /// Both sides filled: turn them into money.
    Merge,
    /// Sell the upper side and cancel the order on the lower one.
    SellUp,
    /// Sell the lower side and cancel the order on the upper one.
    SellDown,
    Hold,
}

/// Whether a single filled side is to be sold: at once when it is in danger, else when
/// its time is up.
pub open spec fn is_sold(cfg: PreLimitConfig, price: int, mins_elapsed: int) -> bool {
    ||| cfg.signal.enabled && price <= cfg.signal.danger_price@
    ||| mins_elapsed >= cfg.sell_unmatched_after_mins
}

/// The decision on the orders of a market.
pub open spec fn position_decided(
    cfg: PreLimitConfig,
    up_filled: bool,
    down_filled: bool,
    up: int,
    down: int,
    mins_elapsed: int,
) -> PositionAction {
    if up_filled && down_filled {
        PositionAction::Merge
    } else if up_filled && is_sold(cfg, up, mins_elapsed) {
        PositionAction::SellUp
    } else if down_filled && is_sold(cfg, down, mins_elapsed) {
        PositionAction::SellDown
    } else {
        PositionAction::Hold
    }
}

/// Decides on the orders of a market by which of them have filled.
pub fn position_action(
    cfg: &PreLimitConfig,
    up_filled: bool,
    down_filled: bool,
    up_price: Decimal,
    down_price: Decimal,
    mins_elapsed: u64,
) -> (action: PositionAction)
    ensures
        action == if up_filled && down_filled {
            PositionAction::Merge
        } else if up_filled && is_sold(*cfg, up_price@, mins_elapsed as int) {
            PositionAction::SellUp
        } else if down_filled && is_sold(*cfg, down_price@, mins_elapsed as int) {
            PositionAction::SellDown
        } else {
            PositionAction::Hold
        },
        action == position_decided(
            *cfg,
            up_filled,
            down_filled,
            up_price@,
            down_price@,
            mins_elapsed as int,
        ),
{
    let late = mins_elapsed >= cfg.sell_unmatched_after_mins;
    if up_filled && down_filled {
        PositionAction::Merge
    } else if up_filled && (is_danger_signal(&cfg.signal, up_price) || late) {
        PositionAction::SellUp
    } else if down_filled && (is_danger_signal(&cfg.signal, down_price) || late) {
        PositionAction::SellDown
    } else {
        PositionAction::Hold
    }
}

/// The orders of a market that are followed.
#[derive(Debug, Clone, Copy, PartialEq, Eq, Structural)]
pub struct OpenOrders {
    /// When the market ends.
    pub market_end: i64,
    pub up_filled: bool,
    pub down_filled: bool,
}

/// What is still followed at a moment: orders are forgotten once their market has ended.
pub fn still_followed(orders: Option<OpenOrders>, now: i64) -> (r: Option<OpenOrders>)
    ensures
        r == match orders {
            Some(o) if now < o.market_end => Some(o),
            _ => None,
        },
{
    match orders {
        Some(o) => if now < o.market_end {
            Some(o)
        } else {
            None
        },
        None => None,
    }
}

/// A side of a market.
#[derive(Debug, Clone, Copy, PartialEq, Eq, Structural)]
pub enum Side {
    Up,
    Down,
}

/// A limit order on one side of a market.
#[derive(Debug)]
pub struct PreOrder {
    pub side: Side,
    pub price: Decimal,
    pub size: String,
}

/// The ask of a quote, where it is known and an amount.
pub open spec fn ask_in(quote: Quote) -> Option<int> {
    match quote.ask {
        Some(PriceView::Amount(v)) => Some(v),
        _ => None,
    }
}

/// The side that a setting means: a named one, or the one that the market favors, which is
/// the dearer one. At equal asks that is the upper side.
pub open spec fn side_meant(setting: Seq<char>, up: Quote, down: Quote) -> Option<Side> {
    if setting == "up"@ {
        Some(Side::Up)
    } else if setting == "down"@ {
        Some(Side::Down)
    } else if setting == "favor"@ {
        match (ask_in(up), ask_in(down)) {
            (Some(u), Some(d)) => Some(
                if u >= d {
                    Side::Up
                } else {
                    Side::Down
                },
            ),
            _ => None,
        }
    } else {
        None
    }
}

/// Side and price of the order on a 5-minute market, where one is to be placed: pre-orders
/// are switched on, the market has none in this period, the side is known, and its ask less
/// the configured ticks is above zero.
pub open spec fn pre_order_of(
    settings: StrategyConfig,
    has_order: bool,
    up: Quote,
    down: Quote,
) -> Option<(Side, int)> {
    if !settings.pre_order_enabled || has_order {
        None
    } else {
        match side_meant(settings.pre_order_side@, up, down) {
            Some(side) => {
                let ask = ask_in(
                    if side == Side::Up {
                        up
                    } else {
                        down
                    },
                );
                match ask {
                    Some(ask) if ask - settings.pre_order_improve_ticks * TICK > 0 => Some(
                        (side, ask - settings.pre_order_improve_ticks * TICK),
                    ),
                    _ => None,
                }
            },
            None => None,
        }
    }
}

fn ask_amount(prices: &BestPrices) -> (ask: Option<Decimal>)
    ensures
        opt_units(ask) == ask_in(prices@),
{
    match prices.ask {
        Some(Price::Amount(ask)) => Some(ask),
        _ => None,
    }
}

/// The limit order for a 5-minute market, if one is to be placed: one per market and
/// period, on the configured side, so many ticks below its best ask.
pub fn pre_order(
    settings: &StrategyConfig,
    has_order: bool,
    up: &BestPrices,
    down: &BestPrices,
) -> (order: Option<PreOrder>)
    ensures
        match order {
            Some(o) => pre_order_of(*settings, has_order, up@, down@) == Some((o.side, o.price@))
                && o.size@ == settings.pre_order_size@,
            None => pre_order_of(*settings, has_order, up@, down@) is None,
        },
{
    if !settings.pre_order_enabled || has_order {
        return None;
    }
    let (up_ask, down_ask) = (ask_amount(up), ask_amount(down));
    let setting = settings.pre_order_side.as_str();
    let side = if same_text(setting, "up") {
        Side::Up
    } else if same_text(setting, "down") {
        Side::Down
    } else if same_text(setting, "favor") {
        match up_ask {
            Some(u) => match down_ask {
                Some(d) => if u.units() >= d.units() {
                    Side::Up
                } else {
                    Side::Down
                },
                None => {
                    return None;
                },
            },
            None => {
                return None;
            },
        }
    } else {
        return None;
    };
    let ask = match side {
        Side::Up => up_ask,
        Side::Down => down_ask,
    };
    match ask {
        Some(ask) => {
            let price: i128 = ask.units() - settings.pre_order_improve_ticks as i128 * TICK;
            if price > 0 {
                Some(
                    PreOrder {
                        side,
                        price: Decimal::from_units(price),
                        size: settings.pre_order_size.clone(),
                    },
                )
            } else {
                None
            }
        },
        None => None,
    }
}

/// A market gets one order per period, and none above its best ask; without ticks it is
/// placed at the best ask.
pub proof fn law_pre_order_does_not_overpay(settings: StrategyConfig, up: Quote, down: Quote)
    ensures
        pre_order_of(settings, true, up, down) is None,
        pre_order_of(settings, false, up, down) matches Some((side, price)) ==> {
            let ask = ask_in(
                if side == Side::Up {
                    up
                } else {
                    down
                },
            );
            &&& ask is Some
            &&& price <= ask->0
            &&& settings.pre_order_improve_ticks == 0 ==> price == ask->0
        },
{
}

/// Profit of merging both sides: a dollar a share, less what the sides cost. In units of a
/// unit.
pub open spec fn merge_pnl(shares: int, up: int, down: int) -> int {
    shares * (ONE - up - down)
}

/// Profit of selling a side, in units of a unit.
pub open spec fn sale_pnl(shares: int, bought: int, sold: int) -> int {
    shares * (sold - bought)
}

/// The profit of merging both sides, in units.
pub fn merged_profit(shares: Decimal, up_price: Decimal, down_price: Decimal) -> (pnl: i128)
    ensures
        pnl == in_units(merge_pnl(shares@, up_price@, down_price@)),
{
    held_product(shares.units(), ONE - up_price.units() - down_price.units())
}

/// The profit of selling a side, in units.
pub fn sold_profit(shares: Decimal, bought: Decimal, sold: Decimal) -> (pnl: i128)
    ensures
        pnl == in_units(sale_pnl(shares@, bought@, sold@)),
{
    held_product(shares.units(), sold.units() - bought.units())
}

/// What trading at the limit costs, in units.
#[derive(Debug, Clone, Copy, PartialEq, Eq, Structural)]
pub struct Exposure {
    pub cost_per_side: i128,
    /// Both sides.
    pub payout_per_trade: i128,
    /// One side of every asset.
    pub all_assets: i128,
}

/// What trading at the limit costs.
pub fn exposure(cfg: &PreLimitConfig) -> (e: Exposure)
    ensures
        e.cost_per_side == in_units(cfg.shares@ * cfg.price_limit@),
        e.payout_per_trade == held(2 * e.cost_per_side),
        e.all_assets == held(N_ASSETS * e.cost_per_side),
{
    let cost_per_side = held_product(cfg.shares.units(), cfg.price_limit.units());
    let payout_per_trade = held_sum(cost_per_side, cost_per_side);
    Exposure {
        cost_per_side,
        payout_per_trade,
        all_assets: held_sum(payout_per_trade, payout_per_trade),
    }
}

/// Buying both sides for less than a dollar together and merging them gains.
pub proof fn law_merging_gains(shares: int, up: int, down: int)
    requires
        shares > 0,
        up + down < ONE,
    ensures
        merge_pnl(shares, up, down) > 0,
{
    assert(shares * (ONE - up - down) > 0) by (nonlinear_arith)
        requires
            shares > 0,
            up + down < ONE,
    ;
}

/// In a running market neither side is ordered above its current price.
pub proof fn law_mid_market_does_not_overpay(price: int)
    requires
        -LIMIT <= price <= LIMIT,
    ensures
        discounted(price) <= price,
        price >= DISCOUNT - LIMIT ==> discounted(price) == price - DISCOUNT,
{
}

/// The sooner a falling side is sold the less is lost.
pub proof fn law_selling_early_loses_less(shares: int, bought: int, sooner: int, later: int)
    requires
        shares >= 0,
        later <= sooner,
    ensures
        sale_pnl(shares, bought, later) <= sale_pnl(shares, bought, sooner),
{
    assert(shares * (later - bought) <= shares * (sooner - bought)) by (nonlinear_arith)
        requires
            shares >= 0,
            later <= sooner,
    ;
}

/// The dearer side of a running market is ordered two cents below its price.
pub proof fn law_dearer_side_is_discounted_by_two_cents(price: int)
    requires
        -LIMIT + 20_000_000_000_000_000 <= price <= LIMIT,
    ensures
        discounted(price) + 20_000_000_000_000_000 == price,
{
}

/// A single filled side is sold exactly when it is in danger, however little time has
/// passed, or when its time is up, whatever its price.
pub proof fn law_single_side_is_sold_in_danger_or_late(
    cfg: PreLimitConfig,
    price: int,
    mins_elapsed: int,
)
    ensures
        cfg.signal.enabled && price <= cfg.signal.danger_price@ ==> is_sold(
            cfg,
            price,
            mins_elapsed,
        ),
        mins_elapsed >= cfg.sell_unmatched_after_mins ==> is_sold(cfg, price, mins_elapsed),
        is_sold(cfg, price, mins_elapsed) ==> mins_elapsed >= cfg.sell_unmatched_after_mins || (
        cfg.signal.enabled && price <= cfg.signal.danger_price@),
{
}

/// Merging pays a dollar a share and selling the price a share; what was paid for the
/// shares is taken off.
pub proof fn law_profit_is_what_comes_in_less_what_was_paid(
    shares: int,
    up: int,
    down: int,
    sold: int,
)
    ensures
        merge_pnl(shares, up, down) + shares * up + shares * down == shares
            * 1_000_000_000_000_000_000,
        sale_pnl(shares, up, sold) + shares * up == shares * sold,
        merge_pnl(shares, up, down) == merge_pnl(shares, down, up),
{
    assert(shares * (ONE - up - down) + shares * up + shares * down == shares * ONE)
        by (nonlinear_arith);
    assert(shares * (sold - up) + shares * up == shares * sold) by (nonlinear_arith);
    assert(shares * (ONE - up - down) == shares * (ONE - down - up)) by (nonlinear_arith);
}

/// The pre-order of a 5-minute market: on the side that is asked for, or the dearer one
/// where the favored side is, so many cents below the ask of that side; placed exactly when
/// pre-orders are on, there is none yet, and such a price above zero is known.
pub proof fn law_pre_order_follows_the_settings(
    settings: StrategyConfig,
    has_order: bool,
    up: Quote,
    down: Quote,
    up_ask: int,
    down_ask: int,
)
    requires
        up.ask == Some(PriceView::Amount(up_ask)),
        down.ask == Some(PriceView::Amount(down_ask)),
    ensures
        ({
            let order = pre_order_of(settings, has_order, up, down);
            let off = settings.pre_order_improve_ticks * 10_000_000_000_000_000;
            let side = settings.pre_order_side@;
            let on_up = side == "up"@ || (side == "favor"@ && up_ask >= down_ask);
            let on_down = side == "down"@ || (side == "favor"@ && up_ask < down_ask);
            let may = settings.pre_order_enabled && !has_order;
            &&& order is Some <==> may && ((on_up && up_ask > off) || (on_down && down_ask > off))
            &&& order is Some && on_up ==> (order->0).0 == Side::Up && (order->0).1 + off == up_ask
            &&& order is Some && on_down ==> (order->0).0 == Side::Down && (order->0).1 + off
                == down_ask
        }),
{
    reveal_strlit("up");
    reveal_strlit("down");
    reveal_strlit("favor");
    assert("up"@.len() == 2 && "down"@.len() == 4 && "favor"@.len() == 5);
}

/// Without the ask of the side that is meant there is no pre-order; for the favored side
/// both asks have to be known.
pub proof fn law_no_pre_order_without_an_ask(
    settings: StrategyConfig,
    has_order: bool,
    up: Quote,
    down: Quote,
)
    ensures
        ({
            let order = pre_order_of(settings, has_order, up, down);
            let up_known = up.ask matches Some(PriceView::Amount(_));
            let down_known = down.ask matches Some(PriceView::Amount(_));
            let side = settings.pre_order_side@;
            &&& side == "up"@ && !up_known ==> order is None
            &&& side == "down"@ && !down_known ==> order is None
            &&& side == "favor"@ && !(up_known && down_known) ==> order is None
            &&& side != "up"@ && side != "down"@ && side != "favor"@ ==> order is None
        }),
{
    reveal_strlit("up");
    reveal_strlit("down");
    reveal_strlit("favor");
    assert("up"@.len() == 2 && "down"@.len() == 4 && "favor"@.len() == 5);
}

/// Orders for the next hour are placed exactly when the hour is near, there are none, and
/// the running market gives a good signal; then on both sides at the limit.
pub proof fn law_next_hour_is_ordered_at_the_limit(
    cfg: PreLimitConfig,
    mins_until_next_hour: int,
    up: int,
    down: int,
    time_remaining_secs: int,
)
    ensures
        ({
            let prices = next_hour_prices(
                cfg,
                false,
                mins_until_next_hour,
                up,
                down,
                time_remaining_secs,
            );
            let signal = place_signal(cfg.signal, up, down, time_remaining_secs);
            &&& prices is Some <==> mins_until_next_hour <= cfg.place_order_before_mins && signal
                == MarketSignal::Good
            &&& prices matches Some((u, d)) ==> u == cfg.price_limit@ && d == cfg.price_limit@
        }),
        next_hour_prices(
            cfg,
            true,
            mins_until_next_hour,
            up,
            down,
            time_remaining_secs,
        ) is None,
{
}

/// In the running market the cheaper side is ordered at its price and the dearer one two
/// cents below; exchanging the sides exchanges the orders.
pub proof fn law_running_market_is_ordered_as_it_stands(
    cfg: PreLimitConfig,
    up: int,
    down: int,
    time_remaining_secs: int,
)
    requires
        -LIMIT + 20_000_000_000_000_000 <= up <= LIMIT,
        -LIMIT + 20_000_000_000_000_000 <= down <= LIMIT,
    ensures
        ({
            let prices = mid_market_prices(cfg, false, up, down, time_remaining_secs);
            let exchanged = mid_market_prices(cfg, false, down, up, time_remaining_secs);
            let signal = place_signal(cfg.signal, up, down, time_remaining_secs);
            &&& prices is Some <==> cfg.mid_market_enabled && signal == MarketSignal::Good
            &&& prices matches Some((u, d)) ==> u + d + 20_000_000_000_000_000 == up + down
            &&& prices matches Some((u, d)) ==> up < down ==> u == up
            &&& prices matches Some((u, d)) ==> down < up ==> d == down
            &&& prices matches Some((u, d)) ==> up == down ==> u == up
            &&& prices matches Some((u, d)) ==> up != down ==> exchanged == Some((d, u))
        }),
        mid_market_prices(cfg, true, up, down, time_remaining_secs) is None,
{
}

/// Two filled sides are merged, whatever their prices; a single one is sold in danger or
/// when its time is up, and held otherwise; without one nothing is sold. Exchanging the
/// sides exchanges what is sold.
pub proof fn law_position_is_merged_sold_or_held(
    cfg: PreLimitConfig,
    up: int,
    down: int,
    mins_elapsed: int,
)
    ensures
        ({
            let late = mins_elapsed >= cfg.sell_unmatched_after_mins;
            let up_falls = cfg.signal.enabled && up <= cfg.signal.danger_price@;
            let alone = position_decided(cfg, true, false, up, down, mins_elapsed);
            let mirrored = position_decided(cfg, false, true, down, up, mins_elapsed);
            &&& position_decided(cfg, true, true, up, down, mins_elapsed) == PositionAction::Merge
            &&& position_decided(cfg, false, false, up, down, mins_elapsed) == PositionAction::Hold
            &&& alone == PositionAction::SellUp <==> up_falls || late
            &&& alone == PositionAction::Hold <==> !up_falls && !late
            &&& alone == PositionAction::SellUp <==> mirrored == PositionAction::SellDown
            &&& alone == PositionAction::Hold <==> mirrored == PositionAction::Hold
        }),
{
}

} // verus!
