use polymarket_arbitrage_bot::discovery::{
    build_15m_slug, build_15m_slug_for, build_5m_slug, build_5m_slug_for, current_15m_period_start,
    current_5m_period_start, is_last_5min_of_15m, parse_price_to_beat_from_question,
    period_15m_start, period_5m_start, period_start, DiscoveryError, MarketDiscovery,
    MARKET_15M_DURATION_SECS, MARKET_5M_DURATION_SECS,
};
use polymarket_arbitrage_bot::models::{Market, MarketToken};

fn token(id: &str, outcome: &str) -> MarketToken {
    MarketToken { token_id: id.to_string(), outcome: outcome.to_string(), winner: false }
}

fn market(question: &str, active: bool, closed: bool) -> Market {
    Market {
        condition_id: "0xabc".to_string(),
        question: question.to_string(),
        active,
        closed,
    }
}

fn price(question: &str) -> Option<i128> {
    parse_price_to_beat_from_question(question).map(|d| d.units() / 1_000_000_000)
}

#[test]
fn slugs_name_symbol_length_and_period() {
    assert_eq!(build_15m_slug(1_700_000_100), "btc-updown-15m-1700000100");
    assert_eq!(build_5m_slug(1_700_000_100), "btc-updown-5m-1700000100");
    assert_eq!(build_15m_slug(0), "btc-updown-15m-0");
    assert_eq!(build_5m_slug(-300), "btc-updown-5m--300");
    assert_eq!(build_5m_slug(i64::MIN), format!("btc-updown-5m-{}", i64::MIN));
    assert_eq!(build_15m_slug_for("eth", 900), "eth-updown-15m-900");
    assert_eq!(build_5m_slug_for("xrp", 300), "xrp-updown-5m-300");
}

#[test]
fn slugs_tell_periods_apart() {
    assert_ne!(build_15m_slug(900), build_15m_slug(1800));
    assert_ne!(build_5m_slug(300), build_5m_slug(-300));
}

#[test]
fn periods_start_on_boundaries() {
    assert_eq!(MARKET_15M_DURATION_SECS, 900);
    assert_eq!(MARKET_5M_DURATION_SECS, 300);
    assert_eq!(period_15m_start(1_700_000_123), 1_700_000_100);
    assert_eq!(period_15m_start(1_700_000_099), 1_699_999_200);
    assert_eq!(period_5m_start(1_700_000_123), 1_700_000_100);
    assert_eq!(period_15m_start(899), 0);
    assert_eq!(period_15m_start(900), 900);
    assert_eq!(period_15m_start(-1), 0);
    assert_eq!(period_15m_start(-901), -900);
    assert_eq!(period_start(i64::MIN, 7), (i64::MIN / 7) * 7);
    assert_eq!(period_start(i64::MAX, 1), i64::MAX);
}

#[test]
fn periods_hold_their_moment() {
    for now in [0i64, 1, 299, 300, 1_700_000_123] {
        let start = period_5m_start(now);
        assert!(start <= now && now < start + 300);
        assert_eq!(period_5m_start(start), start);
    }
}

#[test]
fn clock_periods_are_aligned() {
    let start = current_15m_period_start();
    assert_eq!(start % 900, 0);
    assert!(start > 1_600_000_000);
    let start = current_5m_period_start();
    assert_eq!(start % 300, 0);
    assert!(start > 1_600_000_000);
}

#[test]
fn last_five_minutes_are_told() {
    assert!(!is_last_5min_of_15m(1_499, 900));
    assert!(is_last_5min_of_15m(1_500, 900));
    assert!(is_last_5min_of_15m(1_799, 900));
    assert!(!is_last_5min_of_15m(1_800, 900));
    assert!(!is_last_5min_of_15m(0, 900));
    assert!(!is_last_5min_of_15m(i64::MAX, i64::MIN));
}

#[test]
fn overlap_is_the_last_5m_market() {
    for now in [600i64, 899, 1_500, 1_700_000_000 / 900 * 900 + 700] {
        let period_15 = period_15m_start(now);
        assert!(is_last_5min_of_15m(now, period_15));
        assert_eq!(period_5m_start(now), period_15 + 600);
    }
}

#[test]
fn questions_name_prices() {
    assert_eq!(price("Will Bitcoin be above $97,500 at 3PM?"), Some(97_500_000_000_000));
    assert_eq!(price("Will BTC be ABOVE 1,234.56 USD"), Some(1_234_560_000_000));
    assert_eq!(price("Bitcoin over $0.75?"), Some(750_000_000));
    assert_eq!(price("Is 5 above all?"), None);
    assert_eq!(price("Costs $5 or is above $7"), Some(7_000_000_000));
    assert_eq!(price("above $1.2.3"), None);
    assert_eq!(price("above $,"), None);
    assert_eq!(price("above $.5"), Some(500_000_000));
    assert_eq!(price("Bitcoin Up or Down"), None);
    assert_eq!(price(""), None);
    assert_eq!(price("aboveboard $9"), Some(9_000_000_000));
    assert_eq!(price("\u{20ac} above $3"), Some(3_000_000_000));
    assert_eq!(price("above ground 12 $5"), Some(12_000_000_000));
    assert_eq!(price("above $2000000000"), Some(2_000_000_000_000_000_000));
    assert_eq!(price("above $2,000,000,000 at noon, $1"), Some(2_000_000_000_000_000_000));
    assert_eq!(parse_price_to_beat_from_question("above $0.0000000005").unwrap().units(), 500_000_000);
    assert_eq!(price("above $1,2.3,4x"), Some(12_340_000_000));
}

#[test]
fn tokens_are_told_by_outcome() {
    let d = MarketDiscovery::new(7u8);
    assert_eq!(d.api, 7);
    let tokens = vec![token("a", "Up"), token("b", "Down")];
    assert_eq!(d.get_market_tokens(&tokens), Ok(("a".to_string(), "b".to_string())));
    let tokens = vec![token("a", "0"), token("b", "1")];
    assert_eq!(d.get_market_tokens(&tokens), Ok(("b".to_string(), "a".to_string())));
    let tokens = vec![token("a", "it goes DOWN"), token("b", "uP"), token("c", "up")];
    assert_eq!(d.get_market_tokens(&tokens), Ok(("c".to_string(), "a".to_string())));
    let tokens = vec![token("a", "upside down"), token("b", "Down")];
    assert_eq!(d.get_market_tokens(&tokens), Ok(("a".to_string(), "b".to_string())));
}

#[test]
fn missing_tokens_are_errors() {
    let d = MarketDiscovery::new(());
    assert_eq!(d.get_market_tokens(&vec![]), Err(DiscoveryError::UpTokenNotFound));
    assert_eq!(
        d.get_market_tokens(&vec![token("b", "Down")]),
        Err(DiscoveryError::UpTokenNotFound)
    );
    assert_eq!(
        d.get_market_tokens(&vec![token("a", "Up"), token("x", "11")]),
        Err(DiscoveryError::DownTokenNotFound)
    );
}

#[test]
fn only_trading_markets_count() {
    let d = MarketDiscovery::new(());
    let (id, price) = d.get_15m_market(Some(market("above $2", true, false))).unwrap();
    assert_eq!(id, "0xabc");
    assert_eq!(price.map(|p| p.units()), Some(2_000_000_000_000_000_000));
    let (_, price) = d.get_5m_market(Some(market("Up or Down", true, false))).unwrap();
    assert!(price.is_none());
    assert!(d.get_15m_market(None).is_none());
    assert!(d.get_5m_market(Some(market("", false, false))).is_none());
    assert!(d.get_15m_market(Some(market("", true, true))).is_none());
}
