use polymarket_arbitrage_bot::config::{
    default_pre_order_side, default_pre_order_size, default_price_to_beat_delay_secs,
    default_price_to_beat_poll_interval_secs, default_rtds_ws_url, default_sum_threshold,
    default_symbols, default_verify_fill_secs, default_ws_url, ArbConfig, Args, Config,
    ConditionWithoutRedeem, PriceToBeatConfig, RunMode, Tolerance,
};
use polymarket_arbitrage_bot::decimal::Decimal;

#[test]
fn defaults_are_as_documented() {
    let c = Config::default();
    assert_eq!(c.polymarket.gamma_api_url, "https://gamma-api.polymarket.com");
    assert_eq!(c.polymarket.clob_api_url, "https://clob.polymarket.com");
    assert_eq!(c.polymarket.ws_url, "wss://ws-subscriptions-clob.polymarket.com");
    assert_eq!(c.polymarket.rtds_ws_url, "wss://ws-live-data.polymarket.com");
    assert!(c.polymarket.private_key.is_none());
    assert!(c.polymarket.signature_type.is_none());
    assert_eq!(c.strategy.symbols, vec!["btc", "eth", "sol", "xrp"]);
    assert_eq!(c.strategy.sum_threshold.to_fixed4(), "0.9900");
    assert_eq!(c.strategy.verify_fill_secs, 10);
    assert!(!c.strategy.simulation_mode);
    assert!(!c.strategy.pre_order_enabled);
    assert_eq!(c.strategy.pre_order_size, "10");
    assert_eq!(c.strategy.pre_order_side, "favor");
    assert_eq!(c.strategy.pre_order_improve_ticks, 0);
}

#[test]
fn default_functions_agree_with_the_default() {
    let c = Config::default();
    assert_eq!(default_symbols(), c.strategy.symbols);
    assert_eq!(default_sum_threshold(), c.strategy.sum_threshold);
    assert_eq!(default_verify_fill_secs(), c.strategy.verify_fill_secs);
    assert_eq!(default_pre_order_size(), c.strategy.pre_order_size);
    assert_eq!(default_pre_order_side(), c.strategy.pre_order_side);
    assert_eq!(default_ws_url(), c.polymarket.ws_url);
    assert_eq!(default_rtds_ws_url(), c.polymarket.rtds_ws_url);
}

fn args(redeem: bool, condition_id: Option<&str>) -> Args {
    Args {
        config: "config.json".to_string(),
        redeem,
        condition_id: condition_id.map(|s| s.to_string()),
    }
}

#[test]
fn run_mode_follows_the_command_line() {
    assert!(matches!(args(false, None).run_mode(), Ok(RunMode::Trade)));
    assert!(matches!(args(true, None).run_mode(), Ok(RunMode::RedeemAll)));
    match args(true, Some("0x1")).run_mode() {
        Ok(RunMode::RedeemCondition(id)) => assert_eq!(id, "0x1"),
        other => panic!("{:?}", other),
    }
    assert!(matches!(args(false, Some("0x1")).run_mode(), Err(ConditionWithoutRedeem)));
}

#[test]
fn tolerances_are_looked_up_by_symbol() {
    let tolerance = |symbol: &str, usd: &str| Tolerance {
        symbol: symbol.to_string(),
        usd: Decimal::parse(usd).unwrap(),
    };
    let arb = ArbConfig {
        arb_shares: "5".to_string(),
        trade_interval_secs: 10,
        price_to_beat: PriceToBeatConfig {
            delay_secs: default_price_to_beat_delay_secs(),
            poll_interval_secs: default_price_to_beat_poll_interval_secs(),
        },
        tolerances: vec![tolerance("btc", "2.5"), tolerance("xrp", "0.001"), tolerance("btc", "9")],
        resolution_poll_interval_secs: 30,
        resolution_max_wait_secs: 600,
        auto_redeem: false,
    };
    assert_eq!(arb.price_to_beat_tolerance_for("btc").units(), 2_500_000_000_000_000_000);
    assert_eq!(arb.price_to_beat_tolerance_for("xrp").units(), 1_000_000_000_000_000);
    assert_eq!(arb.price_to_beat_tolerance_for("eth").units(), 0);
    assert_eq!((arb.price_to_beat.delay_secs, arb.price_to_beat.poll_interval_secs), (30, 10));
}
