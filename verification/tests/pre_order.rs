use polymarket_arbitrage_bot::config::{Config, SignalConfig, StrategyConfig};
use polymarket_arbitrage_bot::decimal::Decimal;
use polymarket_arbitrage_bot::pre_order::{
    exposure, merged_profit, mid_market_orders, next_hour_orders, position_action, pre_order,
    sold_profit, still_followed, OpenOrders, PositionAction, PreLimitConfig, Side,
};
use polymarket_arbitrage_bot::ws::{parse_ask, BestPrices};

const DOLLAR: i128 = 1_000_000_000_000_000_000;

fn d(text: &str) -> Decimal {
    Decimal::parse(text).unwrap()
}

fn cfg() -> PreLimitConfig {
    PreLimitConfig {
        price_limit: d("0.45"),
        shares: d("100"),
        place_order_before_mins: 5,
        sell_unmatched_after_mins: 57,
        mid_market_enabled: true,
        signal: SignalConfig {
            enabled: true,
            stable_min: d("0.35"),
            stable_max: d("0.65"),
            clear_threshold: d("0.99"),
            clear_remaining_mins: 15,
            danger_price: d("0.15"),
        },
    }
}

#[test]
fn a_good_signal_places_orders_for_the_next_hour() {
    let o = next_hour_orders(&cfg(), false, 3, d("0.48"), d("0.52"), 600).unwrap();
    assert_eq!((o.up, o.down), (d("0.45"), d("0.45")));
    assert!(next_hour_orders(&cfg(), true, 3, d("0.48"), d("0.52"), 600).is_none());
    assert!(next_hour_orders(&cfg(), false, 6, d("0.48"), d("0.52"), 600).is_none());
}

#[test]
fn a_bad_signal_skips_the_next_hour() {
    assert!(next_hour_orders(&cfg(), false, 3, d("0.99"), d("0.02"), 1_200).is_none());
}

#[test]
fn the_running_market_is_priced_as_it_stands() {
    let o = mid_market_orders(&cfg(), false, d("0.63"), d("0.38"), 2_700).unwrap();
    assert_eq!((o.up, o.down), (d("0.61"), d("0.38")));
    let o = mid_market_orders(&cfg(), false, d("0.38"), d("0.63"), 2_700).unwrap();
    assert_eq!((o.up, o.down), (d("0.38"), d("0.61")));
    assert!(mid_market_orders(&cfg(), true, d("0.63"), d("0.38"), 2_700).is_none());
    assert!(mid_market_orders(&cfg(), false, d("0.8"), d("0.2"), 2_700).is_none());
    let off = PreLimitConfig { mid_market_enabled: false, ..cfg() };
    assert!(mid_market_orders(&off, false, d("0.63"), d("0.38"), 2_700).is_none());
}

#[test]
fn a_side_in_danger_is_sold_at_once() {
    let action = position_action(&cfg(), true, false, d("0.12"), d("0.88"), 20);
    assert_eq!(action, PositionAction::SellUp);
    assert_eq!(sold_profit(d("100"), d("0.45"), d("0.12")), -33 * DOLLAR);
    assert_eq!(sold_profit(d("100"), d("0.45"), d("0.01")), -44 * DOLLAR);
    let action = position_action(&cfg(), false, true, d("0.88"), d("0.12"), 20);
    assert_eq!(action, PositionAction::SellDown);
}

#[test]
fn a_single_side_is_sold_when_its_time_is_up() {
    let action = |mins: u64| position_action(&cfg(), true, false, d("0.42"), d("0.58"), mins);
    assert_eq!(action(56), PositionAction::Hold);
    assert_eq!(action(57), PositionAction::SellUp);
    assert_eq!(sold_profit(d("100"), d("0.45"), d("0.42")), -3 * DOLLAR);
    let action = position_action(&cfg(), false, false, d("0.1"), d("0.1"), 60);
    assert_eq!(action, PositionAction::Hold);
}

#[test]
fn both_sides_are_merged() {
    let action = position_action(&cfg(), true, true, d("0.1"), d("0.9"), 60);
    assert_eq!(action, PositionAction::Merge);
    assert_eq!(merged_profit(d("100"), d("0.45"), d("0.45")), 10 * DOLLAR);
}

#[test]
fn exposure_counts_sides_and_assets() {
    let e = exposure(&cfg());
    assert_eq!(e.cost_per_side, 45 * DOLLAR);
    assert_eq!(e.payout_per_trade, 90 * DOLLAR);
    assert_eq!(e.all_assets, 180 * DOLLAR);
}

#[test]
fn orders_are_forgotten_when_their_market_ends() {
    let orders = OpenOrders { market_end: 3_600, up_filled: true, down_filled: false };
    assert_eq!(still_followed(Some(orders), 3_599), Some(orders));
    assert_eq!(still_followed(Some(orders), 3_600), None);
    assert_eq!(still_followed(None, 0), None);
}

fn settings(side: &str, ticks: u32) -> StrategyConfig {
    StrategyConfig {
        pre_order_enabled: true,
        pre_order_side: side.to_string(),
        pre_order_improve_ticks: ticks,
        ..Config::default().strategy
    }
}

fn at(ask: &str) -> BestPrices {
    BestPrices { bid: None, ask: parse_ask(ask) }
}

#[test]
fn pre_orders_go_to_the_configured_side() {
    let placed = |side: &str, ticks: u32, up: &str, down: &str| {
        pre_order(&settings(side, ticks), false, &at(up), &at(down)).map(|o| (o.side, o.price))
    };
    assert_eq!(placed("up", 0, "0.4", "0.62"), Some((Side::Up, d("0.4"))));
    assert_eq!(placed("down", 0, "0.4", "0.62"), Some((Side::Down, d("0.62"))));
    assert_eq!(placed("favor", 2, "0.4", "0.62"), Some((Side::Down, d("0.6"))));
    assert_eq!(placed("favor", 0, "0.5", "0.5"), Some((Side::Up, d("0.5"))));
    assert_eq!(placed("favor", 0, "0.5", "none"), None);
    assert_eq!(placed("up", 0, "none", "0.5"), None);
    assert_eq!(placed("up", 0, "NaN", "0.5"), None);
    assert_eq!(placed("up", 1, "0.5", "none"), Some((Side::Up, d("0.49"))));
    assert_eq!(placed("up", 50, "0.5", "0.5"), None);
    assert_eq!(placed("sideways", 0, "0.5", "0.5"), None);
}

#[test]
fn a_market_gets_one_pre_order() {
    let o = pre_order(&settings("up", 0), false, &at("0.4"), &at("0.6")).unwrap();
    assert_eq!(o.size, "10");
    assert!(pre_order(&settings("up", 0), true, &at("0.4"), &at("0.6")).is_none());
    let off = StrategyConfig { pre_order_enabled: false, ..settings("up", 0) };
    assert!(pre_order(&off, false, &at("0.4"), &at("0.6")).is_none());
}
