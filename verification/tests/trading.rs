use polymarket_arbitrage_bot::chainlink::FeedReport;
use polymarket_arbitrage_bot::config::{ArbConfig, Config, PriceToBeatConfig, Tolerance};
use polymarket_arbitrage_bot::decimal::{Decimal, LIMIT};
use polymarket_arbitrage_bot::models::{MarketDetails, MarketToken, TradeRecord};
use polymarket_arbitrage_bot::overlap::{Candidate, Overlap, WaitReason, Window};
use polymarket_arbitrage_bot::round::{Round, RoundStep};
use polymarket_arbitrage_bot::settlement::{
    add_pnl, poll_step, redeems, resolution, settle, PollStep, Resolution,
};
use polymarket_arbitrage_bot::strategy::{take_back, verify_fills, ArbStrategy, FillAction};
use polymarket_arbitrage_bot::ws::{process_message, MarketMessage, PriceChange, PriceTable};

const SEC: u64 = 1_000_000_000;
const DOLLAR: i128 = 1_000_000_000_000_000_000;

fn d(text: &str) -> Decimal {
    Decimal::parse(text).unwrap()
}

fn overlap() -> Overlap {
    Overlap {
        symbol: "btc".to_string(),
        cid_15: "c15".to_string(),
        cid_5: "c5".to_string(),
        t15_up: "u15".to_string(),
        t15_down: "d15".to_string(),
        t5_up: "u5".to_string(),
        t5_down: "d5".to_string(),
        period_15: 900,
        period_5: 1_500,
        price_15: d("100"),
        price_5: d("100"),
    }
}

fn round(simulation: bool) -> Round {
    Round::new(overlap(), d("0.99"), "5", 10, simulation)
}

fn asks(list: &[(&str, &str)]) -> PriceTable {
    let mut table = PriceTable::new();
    let changes = list
        .iter()
        .map(|(id, ask)| PriceChange {
            asset_id: id.to_string(),
            best_bid: None,
            best_ask: Some(ask.to_string()),
        })
        .collect();
    process_message(&mut table, &MarketMessage::PriceChanges(changes));
    table
}

fn won(token_15: &str, token_5: &str) -> Resolution {
    Resolution {
        token_15: token_15.to_string(),
        outcome_15: "x".to_string(),
        token_5: token_5.to_string(),
        outcome_5: "y".to_string(),
    }
}

fn one_trade() -> Vec<TradeRecord> {
    let mut r = round(true);
    r.tick(1_600, 0, &asks(&[("u15", "0.5"), ("d5", "0.4")]));
    r.into_trades()
}

#[test]
fn both_legs_are_ordered_below_the_threshold() {
    let mut r = round(false);
    match r.tick(1_600, 0, &asks(&[("u15", "0.5"), ("d5", "0.48")])) {
        RoundStep::Place(first, second) => {
            assert_eq!(first.token_id, "u15");
            assert_eq!(first.price, "0.5000");
            assert_eq!(first.side, "BUY");
            assert_eq!(first.size, "5");
            assert_eq!(first.order_type, "GTC");
            assert_eq!(second.token_id, "d5");
            assert_eq!(second.price, "0.4800");
        }
        other => panic!("{:?}", other),
    }
    assert!(r.report(true, true, 7));
    let trades = r.into_trades();
    assert_eq!(trades.len(), 1);
    let t = &trades[0];
    assert_eq!((t.leg1_outcome.as_str(), t.leg2_outcome.as_str()), ("Up", "Down"));
    assert_eq!((t.leg1_cid.as_str(), t.leg2_cid.as_str()), ("c15", "c5"));
    assert_eq!((t.cid_15.as_str(), t.cid_5.as_str()), ("c15", "c5"));
    assert_eq!((t.period_15, t.period_5), (900, 1_500));
    assert_eq!((t.leg1_price, t.leg2_price, t.size), (d("0.5"), d("0.48"), Some(d("5"))));
    assert_eq!(t.symbol, "btc");
}

#[test]
fn the_reverse_pair_comes_second() {
    let mut r = round(false);
    let table = asks(&[("u15", "0.6"), ("d5", "0.5"), ("d15", "0.4"), ("u5", "0.5")]);
    match r.tick(1_600, 0, &table) {
        RoundStep::Place(first, second) => {
            assert_eq!((first.token_id.as_str(), second.token_id.as_str()), ("d15", "u5"));
        }
        other => panic!("{:?}", other),
    }
    assert!(r.report(true, true, 0));
    let trades = r.into_trades();
    assert_eq!(trades[0].leg1_outcome, "Down");
    assert_eq!(trades[0].leg2_outcome, "Up");
    let mut r = round(false);
    let table = asks(&[("u15", "0.3"), ("d5", "0.5"), ("d15", "0.1"), ("u5", "0.1")]);
    match r.tick(1_600, 0, &table) {
        RoundStep::Place(first, _) => assert_eq!(first.token_id, "u15"),
        other => panic!("{:?}", other),
    }
}

#[test]
fn a_sum_at_the_threshold_is_not_below_it() {
    let mut r = round(false);
    assert!(matches!(
        r.tick(1_600, 0, &asks(&[("u15", "0.57"), ("d5", "0.42")])),
        RoundStep::Wait
    ));
    assert!(matches!(
        r.tick(1_600, 0, &asks(&[("u15", "NaN"), ("d5", "0.1"), ("d15", "nan"), ("u5", "nan")])),
        RoundStep::Wait
    ));
    for (a, b) in [("inf", "-1e19"), ("NaN", "-1e19"), ("1e30", "-4e19"), ("-inf", "0.1")] {
        assert!(matches!(r.tick(1_600, 0, &asks(&[("u15", a), ("d5", b)])), RoundStep::Wait));
    }
    assert!(matches!(
        r.tick(1_600, 0, &asks(&[("u15", "0.4000000005"), ("d5", "0.5899999999")])),
        RoundStep::Wait
    ));
    assert!(matches!(
        r.tick(1_600, 0, &asks(&[("u15", "0.4000000001"), ("d5", "0.5899999998")])),
        RoundStep::Place(_, _)
    ));
    let mut exact = Round::new(overlap(), d("0.8"), "5", 10, false);
    assert!(matches!(
        exact.tick(1_600, 0, &asks(&[("u15", "0.1"), ("d5", "0.7")])),
        RoundStep::Wait
    ));
    assert!(matches!(
        r.tick(1_600, 0, &asks(&[("u15", "0.57"), ("d5", "0.4199")])),
        RoundStep::Place(_, _)
    ));
}

#[test]
fn unknown_asks_are_waited_for() {
    let mut r = round(false);
    assert!(matches!(r.tick(1_600, 0, &PriceTable::new()), RoundStep::Wait));
    assert!(matches!(r.tick(1_600, 0, &asks(&[("u15", "0.1"), ("u5", "0.1")])), RoundStep::Wait));
}

#[test]
fn rounds_end_with_the_market() {
    let table = asks(&[("u15", "0.1"), ("d5", "0.1")]);
    let mut r = round(true);
    assert!(matches!(r.tick(1_800, 0, &table), RoundStep::Finished));
    assert!(matches!(r.tick_now(0, &table), RoundStep::Finished));
    assert!(r.into_trades().is_empty());
    let mut r = round(true);
    assert!(matches!(r.tick(1_799, 0, &table), RoundStep::Simulated));
}

#[test]
fn trades_are_kept_apart() {
    let table = asks(&[("u15", "0.1"), ("d5", "0.1")]);
    let mut r = round(true);
    assert!(matches!(r.tick(1_600, SEC, &table), RoundStep::Simulated));
    assert!(matches!(r.tick(1_601, 11 * SEC - 1, &table), RoundStep::Wait));
    assert!(matches!(r.tick(1_610, 11 * SEC, &table), RoundStep::Simulated));
    assert!(matches!(r.tick(1_610, 0, &table), RoundStep::Wait));
    assert_eq!(r.into_trades().len(), 2);
}

#[test]
fn failed_orders_make_no_trade_and_no_pause() {
    let table = asks(&[("u15", "0.1"), ("d5", "0.1")]);
    let mut r = round(false);
    for (first, second) in [(true, false), (false, true), (false, false)] {
        assert!(matches!(r.tick(1_600, 0, &table), RoundStep::Place(_, _)));
        assert!(!r.report(first, second, 0));
    }
    assert!(!r.report(true, true, 0));
    assert!(r.into_trades().is_empty());
}

#[test]
fn simulation_places_nothing() {
    let mut r = round(true);
    for at in 0..100u64 {
        let step = r.tick(1_600, at * SEC, &asks(&[("u15", "0.1"), ("d5", "0.1")]));
        assert!(!matches!(step, RoundStep::Place(_, _)));
    }
    assert_eq!(r.into_trades().len(), 10);
}

#[test]
fn unreadable_shares_count_as_none() {
    for (shares, size) in [("many", Some(d("0"))), ("", Some(d("0"))), ("NaN", None), ("inf", None)] {
        let mut r = Round::new(overlap(), d("0.99"), shares, 0, true);
        r.tick(1_600, 0, &asks(&[("u15", "0.1"), ("d5", "0.1")]));
        assert_eq!(r.into_trades()[0].size, size);
    }
}

#[test]
fn without_a_size_no_profit_is_told() {
    let mut r = Round::new(overlap(), d("0.99"), "NaN", 0, true);
    r.tick(1_600, 0, &asks(&[("u15", "0.1"), ("d5", "0.1")]));
    let mut trades = r.into_trades();
    trades.extend(one_trade());
    let mut st = strategy();
    let s = st.settle_trades(&trades, &won("u15", "u5"));
    assert_eq!(s.results[0].message(), "Won 15m leg");
    assert_eq!((s.results[0].cost, s.results[0].payout, s.results[0].pnl), (None, None, None));
    assert!(s.results[1].pnl.is_some());
    assert_eq!((s.results[1].running_pnl, s.period_pnl, st.cumulative_pnl), (None, None, None));
    assert_eq!(add_pnl(Some(2), Some(-5)), Some(-3));
}

fn details(closed: bool, winner: Option<&str>) -> Option<MarketDetails> {
    let token = |id: &str, outcome: &str| MarketToken {
        token_id: id.to_string(),
        outcome: outcome.to_string(),
        winner: Some(id) == winner,
    };
    Some(MarketDetails { closed, tokens: vec![token("u", "Up"), token("d", "Down")] })
}

#[test]
fn markets_are_resolved_together() {
    let r = resolution(&details(true, Some("u")), &details(true, Some("d"))).unwrap();
    assert_eq!((r.token_15.as_str(), r.outcome_15.as_str()), ("u", "Up"));
    assert_eq!((r.token_5.as_str(), r.outcome_5.as_str()), ("d", "Down"));
    assert!(resolution(&details(false, Some("u")), &details(true, Some("d"))).is_none());
    assert!(resolution(&details(true, Some("u")), &details(true, None)).is_none());
    assert!(resolution(&None, &details(true, Some("u"))).is_none());
}

#[test]
fn polling_stops_in_time() {
    assert_eq!(poll_step(&vec![], 0, 10), PollStep::Nothing);
    assert_eq!(poll_step(&one_trade(), 9, 10), PollStep::Ask);
    assert_eq!(poll_step(&one_trade(), 10, 10), PollStep::TimedOut);
}

#[test]
fn one_won_leg_locks_in_the_profit() {
    let trades = one_trade();
    for (token_15, token_5, message) in
        [("u15", "u5", "Won 15m leg"), ("d15", "d5", "Won 5m leg")]
    {
        let s = settle(&trades, &won(token_15, token_5), true);
        assert_eq!(s.results[0].message(), message);
        assert_eq!(s.results[0].cost, Some(9 * DOLLAR / 2));
        assert_eq!(s.results[0].payout, Some(5 * DOLLAR));
        assert_eq!(s.results[0].pnl, Some(DOLLAR / 2));
        assert_eq!(s.period_pnl, Some(DOLLAR / 2));
        assert_eq!(s.redemptions.len(), 1);
    }
}

#[test]
fn split_markets_pay_twice_or_not() {
    let trades = one_trade();
    let s = settle(&trades, &won("u15", "d5"), true);
    assert_eq!(s.results[0].message(), "Won both legs");
    assert_eq!(s.period_pnl, Some(11 * DOLLAR / 2));
    assert_eq!(s.redemptions.len(), 2);
    assert_eq!(s.redemptions[0].condition_id, "c15");
    assert_eq!(s.redemptions[0].outcome, "Up");
    assert_eq!(s.redemptions[1].condition_id, "c5");
    assert_eq!(s.redemptions[1].outcome, "Down");
    let s = settle(&trades, &won("d15", "u5"), true);
    assert_eq!(s.results[0].message(), "Lost both legs");
    assert_eq!(s.period_pnl, Some(-9 * DOLLAR / 2));
    assert!(s.redemptions.is_empty());
}

#[test]
fn profits_add_up() {
    let mut trades = one_trade();
    trades.extend(one_trade());
    let s = settle(&trades, &won("u15", "u5"), false);
    assert_eq!(s.results.len(), 2);
    assert_eq!(s.results[0].running_pnl, Some(DOLLAR / 2));
    assert_eq!(s.results[1].running_pnl, Some(DOLLAR));
    assert_eq!(s.period_pnl, Some(DOLLAR));
    assert!(s.redemptions.is_empty());
}

#[test]
fn profits_beyond_counting_are_held() {
    let mut r = Round::new(overlap(), d("0.99"), "4e19", 0, true);
    r.tick(1_600, 0, &asks(&[("u15", "-5"), ("d5", "-6")]));
    let trades = r.into_trades();
    let s = settle(&trades, &won("u15", "u5"), false);
    assert_eq!((s.results[0].cost, s.results[0].payout), (Some(-LIMIT), Some(d("4e19").units())));
    assert_eq!(s.results[0].pnl, Some(LIMIT));
    let s = settle(&trades, &won("d15", "u5"), false);
    assert_eq!((s.results[0].payout, s.period_pnl), (Some(0), Some(LIMIT)));
}

#[test]
fn redeeming_needs_a_wish_a_wallet_and_real_trades() {
    assert!(redeems(true, true, false));
    assert!(!redeems(false, true, false));
    assert!(!redeems(true, false, false));
    assert!(!redeems(true, true, true));
}

fn strategy() -> ArbStrategy {
    let arb = ArbConfig {
        arb_shares: "5".to_string(),
        trade_interval_secs: 10,
        price_to_beat: PriceToBeatConfig { delay_secs: 30, poll_interval_secs: 10 },
        tolerances: vec![Tolerance { symbol: "btc".to_string(), usd: d("1") }],
        resolution_poll_interval_secs: 30,
        resolution_max_wait_secs: 600,
        auto_redeem: true,
    };
    ArbStrategy::new(Config::default(), arb)
}

fn candidate() -> Candidate {
    Candidate {
        window: Window { period_15: 900, period_5: 1_500 },
        cid_15: "c15".to_string(),
        cid_5: "c5".to_string(),
    }
}

#[test]
fn the_feed_opens_both_periods() {
    let mut s = strategy();
    let reason = |s: &ArbStrategy| s.check_prices("btc", candidate(), 1_600).unwrap_err().reason;
    assert_eq!(reason(&s), WaitReason::PriceUnknown);
    s.observe_price("btc", 900, d("100"));
    assert_eq!(reason(&s), WaitReason::PriceUnknown);
    s.observe_price("btc", 1_500, d("102"));
    assert_eq!(reason(&s), WaitReason::PricesApart);
    s.observe_price("btc", 1_501, d("101"));
    assert_eq!(
        s.check_prices("btc", candidate(), 1_529).unwrap_err().reason,
        WaitReason::PriceTooEarly
    );
    let m = s.check_prices_now("btc", candidate()).unwrap();
    assert_eq!(m.price_15, d("100"));
    let m = s.check_prices("btc", candidate(), 1_530).unwrap();
    assert_eq!((m.price_15, m.price_5), (d("100"), d("101")));
    assert!(s.check_prices("eth", candidate(), 1_600).is_err());
}

fn report(topic: &str, symbol: &str, timestamp_ms: i64, value: &str) -> FeedReport {
    FeedReport {
        topic: topic.to_string(),
        symbol: symbol.to_string(),
        timestamp_ms,
        value: value.to_string(),
    }
}

#[test]
fn only_opening_reports_on_traded_symbols_are_taken() {
    let topic = "crypto_prices_chainlink";
    let mut s = strategy();
    s.take_report(&report("crypto_prices", "btc/usd", 900_000, "1"));
    s.take_report(&report(topic, "btc/eur", 900_000, "2"));
    s.take_report(&report(topic, "doge/usd", 900_000, "3"));
    s.take_report(&report(topic, "btc/usd", 899_999, "4"));
    s.take_report(&report(topic, "btc/usd", 902_000, "5"));
    s.take_report(&report(topic, "btc/usd", 900_000, "none"));
    s.take_report(&report(topic, "btc/usd", -1, "6"));
    for period in [0, 600, 900] {
        assert!(s.price_cache_15.get("btc", period).is_none());
        assert!(s.price_cache_5.get("btc", period).is_none());
    }
    assert!(s.price_cache_15.get("doge", 900).is_none());
    s.take_report(&report(topic, "btc/usd", 900_000, "97500.25"));
    s.take_report(&report(topic, "btc/usd", 901_999, "97500.5"));
    s.take_report(&report(topic, "eth/usd", 1_500_000, "3000"));
    assert_eq!(s.price_cache_15.get("btc", 900), Some(d("97500.5")));
    assert_eq!(s.price_cache_5.get("btc", 900), Some(d("97500.5")));
    assert_eq!(s.price_cache_5.get("eth", 1_500), Some(d("3000")));
    assert!(s.price_cache_15.get("eth", 900).is_none());
}

#[test]
fn the_strategy_settles_rounds() {
    let mut s = strategy();
    let mut r = s.start_round(overlap());
    let step = r.tick(1_600, 0, &asks(&[("u15", "0.5"), ("d5", "0.4")]));
    assert!(matches!(step, RoundStep::Place(_, _)));
    assert!(r.report(true, true, 0));
    let trades = r.into_trades();
    let settled = s.settle_trades(&trades, &won("u15", "u5"));
    assert!(settled.redemptions.is_empty());
    assert_eq!(s.cumulative_pnl, Some(DOLLAR / 2));
    s.config.polymarket.proxy_wallet_address = Some("0x1".to_string());
    let settled = s.settle_trades(&trades, &won("d15", "u5"));
    assert!(settled.redemptions.is_empty());
    assert_eq!(s.cumulative_pnl, Some(-4 * DOLLAR));
    let settled = s.settle_trades(&trades, &won("u15", "u5"));
    assert_eq!(settled.redemptions.len(), 1);
}

#[test]
fn single_legs_are_not_held() {
    assert_eq!(verify_fills(true, true), FillAction::Keep);
    assert_eq!(verify_fills(true, false), FillAction::SellFirstCancelSecond);
    assert_eq!(verify_fills(false, true), FillAction::SellSecondCancelFirst);
    assert_eq!(verify_fills(false, false), FillAction::CancelBoth);
}

#[test]
fn trades_without_both_fills_are_taken_back() {
    let trades = |n: usize| {
        let mut r = round(true);
        for i in 0..n {
            let ask = format!("0.{}", i + 1);
            r.tick(1_600, i as u64 * 10 * SEC, &asks(&[("u15", ask.as_str()), ("d5", "0.1")]));
        }
        r.into_trades()
    };
    let left = |n: usize, actions: Vec<FillAction>| {
        let mut t = trades(n);
        take_back(&mut t, &actions);
        t.iter().map(|t| t.leg1_price).collect::<Vec<_>>()
    };
    assert_eq!(left(2, vec![]), vec![d("0.1"), d("0.2")]);
    assert_eq!(left(2, vec![FillAction::Keep, FillAction::Keep]), vec![d("0.1"), d("0.2")]);
    assert_eq!(left(3, vec![FillAction::CancelBoth]), vec![d("0.2"), d("0.3")]);
    assert_eq!(
        left(3, vec![FillAction::SellFirstCancelSecond, FillAction::Keep, FillAction::SellSecondCancelFirst]),
        vec![d("0.2")]
    );
    assert!(left(0, vec![FillAction::CancelBoth]).is_empty());
}
