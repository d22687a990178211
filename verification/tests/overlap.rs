use polymarket_arbitrage_bot::chainlink::PriceCache;
use polymarket_arbitrage_bot::config::PriceToBeatConfig;
use polymarket_arbitrage_bot::decimal::Decimal;
use polymarket_arbitrage_bot::discovery::DiscoveryError;
use polymarket_arbitrage_bot::overlap::{
    compare_prices, enter_window_at, enter_window_now, found_markets, may_look_for_price, too_early, with_tokens, Candidate, Matched,
    Retry, WaitReason, Window,
};

fn d(text: &str) -> Decimal {
    Decimal::parse(text).unwrap()
}

fn window() -> Window {
    Window { period_15: 900, period_5: 1_500 }
}

fn candidate() -> Candidate {
    Candidate { window: window(), cid_15: "c15".to_string(), cid_5: "c5".to_string() }
}

fn matched() -> Matched {
    Matched { candidate: candidate(), price_15: d("100"), price_5: d("100.5") }
}

fn pair(a: &str, b: &str) -> Result<(String, String), DiscoveryError> {
    Ok((a.to_string(), b.to_string()))
}

#[test]
fn opening_reports_set_the_price_to_beat() {
    let mut cache = PriceCache::new(900);
    assert!(cache.get("btc", 900).is_none());
    assert!(!cache.observe("btc", 899, d("1")));
    assert!(cache.observe("btc", 900, d("2")));
    assert!(cache.observe("btc", 901, d("3")));
    assert!(!cache.observe("btc", 902, d("4")));
    assert!(cache.observe("eth", 1_800, d("5")));
    assert_eq!(cache.get("btc", 900), Some(d("3")));
    assert_eq!(cache.get("eth", 1_800), Some(d("5")));
    assert!(cache.get("eth", 900).is_none());
    assert!(cache.get("btc", 0).is_none());
    assert!(!cache.observe("btc", -5, d("9")));
}

#[test]
fn windows_open_in_the_last_five_minutes() {
    assert_eq!(enter_window_at(1_500), Ok(window()));
    assert_eq!(enter_window_at(1_799), Ok(window()));
    let outside = Retry { reason: WaitReason::OutsideWindow, sleep_secs: 5 };
    assert_eq!(enter_window_at(1_499), Err(outside));
    assert_eq!(enter_window_at(1_800), Err(outside));
    assert_eq!(enter_window_at(-1), Err(outside));
}

#[test]
fn the_clock_decides_on_the_window() {
    match enter_window_now() {
        Ok(w) => {
            assert_eq!(w.period_15 % 900, 0);
            assert_eq!(w.period_5, w.period_15 + 600);
        }
        Err(retry) => assert_eq!(retry.reason, WaitReason::OutsideWindow),
    }
}

#[test]
fn both_markets_are_needed() {
    let some = |s: &str| Some(s.to_string());
    let found = found_markets(window(), some("c15"), some("c5")).unwrap();
    assert_eq!((found.cid_15.as_str(), found.cid_5.as_str()), ("c15", "c5"));
    assert_eq!(found.window, window());
    let retry = found_markets(window(), None, None).unwrap_err();
    assert_eq!(retry, Retry { reason: WaitReason::Market15NotFound, sleep_secs: 5 });
    let retry = found_markets(window(), some("c15"), None).unwrap_err();
    assert_eq!(retry, Retry { reason: WaitReason::Market5NotFound, sleep_secs: 5 });
}

const TIMING: PriceToBeatConfig = PriceToBeatConfig { delay_secs: 30, poll_interval_secs: 10 };

#[test]
fn prices_to_beat_are_looked_for_in_time() {
    assert!(!may_look_for_price(1_500, 1_529, 30));
    assert!(may_look_for_price(1_500, 1_530, 30));
    assert!(!may_look_for_price(i64::MAX, i64::MAX, 1));
    for now in 1_500..1_530i64 {
        let wait = Retry { reason: WaitReason::PriceTooEarly, sleep_secs: (1_530 - now) as u64 };
        assert_eq!(too_early(window(), now, 30), Some(wait));
        let r = compare_prices(candidate(), now, Some(d("1")), Some(d("1")), d("0"), TIMING);
        assert_eq!(r.unwrap_err(), wait);
    }
    assert_eq!(too_early(window(), 1_530, 30), None);
    assert_eq!(too_early(window(), i64::MIN, u64::MAX).unwrap().sleep_secs, u64::MAX);
    let slow = PriceToBeatConfig { poll_interval_secs: 25, ..TIMING };
    let r = compare_prices(candidate(), 1_530, None, None, d("0"), slow);
    assert_eq!(r.unwrap_err(), Retry { reason: WaitReason::PriceUnknown, sleep_secs: 25 });
}

#[test]
fn prices_to_beat_must_match() {
    let m = compare_prices(candidate(), 1_600, Some(d("100")), Some(d("100.5")), d("0.5"), TIMING).unwrap();
    assert_eq!((m.price_15, m.price_5), (d("100"), d("100.5")));
    let apart = Retry { reason: WaitReason::PricesApart, sleep_secs: 5 };
    let r = compare_prices(candidate(), 1_600, Some(d("100")), Some(d("100.500001")), d("0.5"), TIMING);
    assert_eq!(r.unwrap_err(), apart);
    let r = compare_prices(candidate(), 1_600, Some(d("101")), Some(d("100")), d("0.5"), TIMING);
    assert_eq!(r.unwrap_err(), apart);
    let unknown = Retry { reason: WaitReason::PriceUnknown, sleep_secs: 10 };
    let r = compare_prices(candidate(), 1_600, None, Some(d("100")), d("0.5"), TIMING);
    assert_eq!(r.unwrap_err(), unknown);
    let r = compare_prices(candidate(), 1_600, Some(d("100")), None, d("0.5"), TIMING);
    assert_eq!(r.unwrap_err(), unknown);
}

#[test]
fn tokens_complete_an_overlap() {
    let o = with_tokens(matched(), "btc", pair("u15", "d15"), pair("u5", "d5")).unwrap();
    assert_eq!(o.symbol, "btc");
    assert_eq!((o.period_15, o.period_5), (900, 1_500));
    assert_eq!((o.price_15, o.price_5), (d("100"), d("100.5")));
    assert_eq!((o.cid_15.as_str(), o.cid_5.as_str()), ("c15", "c5"));
    assert_eq!(o.asset_ids(), vec!["u15", "d15", "u5", "d5"]);
    let r = with_tokens(matched(), "btc", Err(DiscoveryError::UpTokenNotFound), pair("a", "b"));
    assert_eq!(r.unwrap_err(), DiscoveryError::UpTokenNotFound);
    let r = with_tokens(matched(), "btc", pair("a", "b"), Err(DiscoveryError::DownTokenNotFound));
    assert_eq!(r.unwrap_err(), DiscoveryError::DownTokenNotFound);
}
