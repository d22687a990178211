use polymarket_arbitrage_bot::config::SignalConfig;
use polymarket_arbitrage_bot::decimal::Decimal;
use polymarket_arbitrage_bot::signals::{evaluate_place_signal, is_danger_signal, MarketSignal};

fn d(text: &str) -> Decimal {
    Decimal::parse(text).unwrap()
}

fn cfg() -> SignalConfig {
    SignalConfig {
        enabled: true,
        stable_min: d("0.35"),
        stable_max: d("0.65"),
        clear_threshold: d("0.99"),
        clear_remaining_mins: 15,
        danger_price: d("0.15"),
    }
}

fn signal(cfg: &SignalConfig, up: &str, down: &str, secs: i64) -> MarketSignal {
    evaluate_place_signal(cfg, d(up), d(down), secs)
}

#[test]
fn a_balanced_market_is_good() {
    assert_eq!(signal(&cfg(), "0.48", "0.52", 10 * 60), MarketSignal::Good);
    assert_eq!(signal(&cfg(), "0.63", "0.38", 45 * 60), MarketSignal::Good);
    assert_eq!(signal(&cfg(), "0.35", "0.65", 0), MarketSignal::Good);
}

#[test]
fn a_decided_market_is_bad() {
    assert_eq!(signal(&cfg(), "0.99", "0.02", 20 * 60), MarketSignal::Bad);
    assert_eq!(signal(&cfg(), "0.02", "0.99", 20 * 60), MarketSignal::Bad);
}

#[test]
fn an_unstable_market_is_bad() {
    assert_eq!(signal(&cfg(), "0.7", "0.3", 5 * 60), MarketSignal::Bad);
    assert_eq!(signal(&cfg(), "0.5", "0.34", 5 * 60), MarketSignal::Bad);
}

#[test]
fn being_decided_counts_only_early() {
    let wide = SignalConfig { stable_min: d("0"), stable_max: d("1"), ..cfg() };
    assert_eq!(signal(&wide, "0.99", "0.01", 15 * 60), MarketSignal::Good);
    assert_eq!(signal(&wide, "0.99", "0.01", 15 * 60 + 1), MarketSignal::Bad);
    assert_eq!(signal(&wide, "0.99", "0.02", 15 * 60 + 59), MarketSignal::Bad);
    assert_eq!(signal(&wide, "0.01", "0.99", 15 * 60 + 1), MarketSignal::Bad);
    assert_eq!(signal(&wide, "0.99", "0.01", -1), MarketSignal::Good);
}

#[test]
fn signals_can_be_switched_off() {
    let off = SignalConfig { enabled: false, ..cfg() };
    assert_eq!(signal(&off, "0.99", "0.01", 3_000), MarketSignal::Good);
    assert!(!is_danger_signal(&off, d("0.01")));
}

#[test]
fn danger_is_a_low_price() {
    assert!(is_danger_signal(&cfg(), d("0.12")));
    assert!(is_danger_signal(&cfg(), d("0.15")));
    assert!(!is_danger_signal(&cfg(), d("0.42")));
}

#[test]
fn signal_is_symmetric() {
    for (up, down) in [("0.4", "0.6"), ("0.99", "0.01"), ("0.7", "0.3")] {
        assert_eq!(signal(&cfg(), up, down, 1_200), signal(&cfg(), down, up, 1_200));
    }
}
