//! Settings and their defaults.

use vstd::prelude::*;
use vstd::string::*;

use crate::decimal::Decimal;
use crate::text::same_text;
#[allow(unused_imports)]
use crate::text::opt_text;

verus! {

/// What the command line asks for.
#[derive(Debug, Clone)]
pub struct Args {
    /// Path of the settings file.
    pub config: String,
    /// Redeem winning positions in place of trading.
    pub redeem: bool,
    /// Redeem this condition only.
    pub condition_id: Option<String>,
}

/// What a run does.
#[derive(Debug, Clone)]
pub enum RunMode {
    Trade,
    RedeemAll,
    RedeemCondition(String),
}

/// A condition was named without asking to redeem.
#[derive(Debug, Clone, Copy, PartialEq, Eq, Structural)]
pub struct ConditionWithoutRedeem;

impl Args {
    /// What to run. A condition can only be named together with the wish to redeem.
    pub fn run_mode(&self) -> (mode: Result<RunMode, ConditionWithoutRedeem>)
        ensures
            match mode {
                Ok(RunMode::Trade) => !self.redeem && self.condition_id is None,
                Ok(RunMode::RedeemAll) => self.redeem && self.condition_id is None,
                Ok(RunMode::RedeemCondition(id)) => self.redeem && opt_text(self.condition_id)
                    == Some(id@),
                Err(_) => !self.redeem && self.condition_id is Some,
            },
    {
        match &self.condition_id {
            None => if self.redeem {
                Ok(RunMode::RedeemAll)
            } else {
                Ok(RunMode::Trade)
            },
            Some(id) => if self.redeem {
                Ok(RunMode::RedeemCondition(id.clone()))
            } else {
                Err(ConditionWithoutRedeem)
            },
        }
    }
}

/// All settings.
#[derive(Debug, Clone)]
pub struct Config {
    pub polymarket: PolymarketConfig,
    pub strategy: StrategyConfig,
}

/// Trading: symbols, arbitrage threshold, and size, side and price of pre-orders.
#[derive(Debug, Clone)]
pub struct StrategyConfig {
    /// Market symbols, such as btc, eth, sol, xrp.
    pub symbols: Vec<String>,
    /// An arbitrage is taken when the asks of its two legs add up to less than this.
    pub sum_threshold: Decimal,
    /// Seconds to wait after placing orders before checking whether both filled.
    pub verify_fill_secs: u64,
    /// Place no orders.
    pub simulation_mode: bool,
    /// Place one limit buy per 5-minute market and period.
    pub pre_order_enabled: bool,
    /// Pre-order size in shares.
    pub pre_order_size: String,
    /// Pre-order side: up, down, or favor (the side the market favors).
    pub pre_order_side: String,
    /// Ticks of one cent to improve on the best ask.
    pub pre_order_improve_ticks: u32,
}

/// Access to the exchange.
#[derive(Debug, Clone)]
pub struct PolymarketConfig {
    pub gamma_api_url: String,
    pub clob_api_url: String,
    pub api_key: Option<String>,
    pub api_secret: Option<String>,
    pub api_passphrase: Option<String>,
    pub private_key: Option<String>,
    pub proxy_wallet_address: Option<String>,
    pub signature_type: Option<u8>,
    /// Node for redemption.
    pub rpc_url: Option<String>,
    /// Base address of the market channel.
    pub ws_url: String,
    /// Address of the price feed.
    pub rtds_ws_url: String,
}

/// When the state of a market is taken as good, bad or dangerous.
#[derive(Debug, Clone, Copy)]
pub struct SignalConfig {
    pub enabled: bool,
    /// Both sides at least this: stable.
    pub stable_min: Decimal,
    /// Both sides at most this: stable.
    pub stable_max: Decimal,
    /// A side at least this, too early: the market is decided.
    pub clear_threshold: Decimal,
    /// Too early means more than this many minutes before the end.
    pub clear_remaining_mins: u32,
    /// A held side at most this: sell.
    pub danger_price: Decimal,
}

/// How far apart the two prices-to-beat of a symbol may lie.
#[derive(Debug, Clone)]
pub struct Tolerance {
    pub symbol: String,
    pub usd: Decimal,
}

/// When the price-to-beat of a market is looked for.
#[derive(Debug, Clone, Copy, PartialEq, Eq, Structural)]
pub struct PriceToBeatConfig {
    /// Seconds after the start of a market before its price is looked for.
    pub delay_secs: u64,
    /// Seconds between two looks.
    pub poll_interval_secs: u64,
}

/// The arbitrage between the two market lengths.
#[derive(Debug, Clone)]
pub struct ArbConfig {
    /// Shares per leg.
    pub arb_shares: String,
    /// Seconds between two trades of a symbol.
    pub trade_interval_secs: u64,
    pub price_to_beat: PriceToBeatConfig,
    /// Allowed distances; a symbol that is not listed allows none.
    pub tolerances: Vec<Tolerance>,
    pub resolution_poll_interval_secs: u64,
    pub resolution_max_wait_secs: u64,
    /// Redeem winning legs once the markets are resolved.
    pub auto_redeem: bool,
}

/// The distance, in units, that is allowed for a symbol: that of its first entry,
/// or none.
pub open spec fn tolerance_of(tolerances: Seq<Tolerance>, symbol: Seq<char>) -> int
    decreases tolerances.len(),
{
    if tolerances.len() == 0 {
        0
    } else if tolerances[0].symbol@ == symbol {
        tolerances[0].usd@
    } else {
        tolerance_of(tolerances.drop_first(), symbol)
    }
}

impl ArbConfig {
    /// How far apart the prices-to-beat of `symbol` may lie. The prices must match
    /// where nothing was allowed.
    pub fn price_to_beat_tolerance_for(&self, symbol: &str) -> (usd: Decimal)
        ensures
            usd@ == tolerance_of(self.tolerances@, symbol@),
    {
        let mut i: usize = 0;
        assert(self.tolerances@.skip(0) =~= self.tolerances@);
        while i < self.tolerances.len()
            invariant
                i <= self.tolerances.len(),
                tolerance_of(self.tolerances@, symbol@) == tolerance_of(
                    self.tolerances@.skip(i as int),
                    symbol@,
                ),
            decreases self.tolerances.len() - i,
        {
            if same_text(self.tolerances[i].symbol.as_str(), symbol) {
                return self.tolerances[i].usd;
            }
            assert(self.tolerances@.skip(i as int).drop_first() =~= self.tolerances@.skip(i + 1));
            i += 1;
        }
        Decimal::from_units(0)
    }
}

pub fn default_symbols() -> (symbols: Vec<String>)
    ensures
        symbols@.map_values(|s: String| s@) == seq!["btc"@, "eth"@, "sol"@, "xrp"@],
{
    let symbols = vec!["btc".to_owned(), "eth".to_owned(), "sol".to_owned(), "xrp".to_owned()];
    assert(symbols@.map_values(|s: String| s@) =~= seq!["btc"@, "eth"@, "sol"@, "xrp"@]);
    symbols
}

/// Ninety-nine cents.
pub fn default_sum_threshold() -> (threshold: Decimal)
    ensures
        threshold@ == 990_000_000_000_000_000,
{
    Decimal::from_units(990_000_000_000_000_000)
}

pub fn default_verify_fill_secs() -> (secs: u64)
    ensures
        secs == 10,
{
    10
}

pub fn default_price_to_beat_delay_secs() -> (secs: u64)
    ensures
        secs == 30,
{
    30
}

pub fn default_price_to_beat_poll_interval_secs() -> (secs: u64)
    ensures
        secs == 10,
{
    10
}

pub fn default_pre_order_size() -> (size: String)
    ensures
        size@ == "10"@,
{
    "10".to_owned()
}

pub fn default_pre_order_side() -> (side: String)
    ensures
        side@ == "favor"@,
{
    "favor".to_owned()
}

pub fn default_ws_url() -> (url: String)
    ensures
        url@ == "wss://ws-subscriptions-clob.polymarket.com"@,
{
    "wss://ws-subscriptions-clob.polymarket.com".to_owned()
}

pub fn default_rtds_ws_url() -> (url: String)
    ensures
        url@ == "wss://ws-live-data.polymarket.com"@,
{
    "wss://ws-live-data.polymarket.com".to_owned()
}

impl Default for Config {
    fn default() -> (config: Self)
        ensures
            config.polymarket.gamma_api_url@ == "https://gamma-api.polymarket.com"@,
            config.polymarket.clob_api_url@ == "https://clob.polymarket.com"@,
            config.polymarket.api_key is None,
            config.polymarket.api_secret is None,
            config.polymarket.api_passphrase is None,
            config.polymarket.private_key is None,
            config.polymarket.proxy_wallet_address is None,
            config.polymarket.signature_type is None,
            config.polymarket.rpc_url is None,
            config.polymarket.ws_url@ == "wss://ws-subscriptions-clob.polymarket.com"@,
            config.polymarket.rtds_ws_url@ == "wss://ws-live-data.polymarket.com"@,
            config.strategy.symbols@.map_values(|s: String| s@) == seq![
                "btc"@,
                "eth"@,
                "sol"@,
                "xrp"@,
            ],
            config.strategy.sum_threshold@ == 990_000_000_000_000_000,
            config.strategy.verify_fill_secs == 10,
            !config.strategy.simulation_mode,
            !config.strategy.pre_order_enabled,
            config.strategy.pre_order_size@ == "10"@,
            config.strategy.pre_order_side@ == "favor"@,
            config.strategy.pre_order_improve_ticks == 0,
    {
        Config {
            polymarket: PolymarketConfig {
                gamma_api_url: "https://gamma-api.polymarket.com".to_owned(),
                clob_api_url: "https://clob.polymarket.com".to_owned(),
                api_key: None,
                api_secret: None,
                api_passphrase: None,
                private_key: None,
                proxy_wallet_address: None,
                signature_type: None,
                rpc_url: None,
                ws_url: default_ws_url(),
                rtds_ws_url: default_rtds_ws_url(),
            },
            strategy: StrategyConfig {
                symbols: default_symbols(),
                sum_threshold: default_sum_threshold(),
                verify_fill_secs: default_verify_fill_secs(),
                simulation_mode: false,
                pre_order_enabled: false,
                pre_order_size: default_pre_order_size(),
                pre_order_side: default_pre_order_side(),
                pre_order_improve_ticks: 0,
            },
        }
    }
}

/// What is allowed for a symbol is what its first entry says; where it has none, nothing.
pub proof fn law_first_tolerance_counts(tolerances: Seq<Tolerance>, symbol: Seq<char>, i: int)
    requires
        0 <= i <= tolerances.len(),
        forall|j: int| 0 <= j < i ==> (#[trigger] tolerances[j]).symbol@ != symbol,
        i < tolerances.len() ==> tolerances[i].symbol@ == symbol,
    ensures
        i < tolerances.len() ==> tolerance_of(tolerances, symbol) == tolerances[i].usd@,
        i == tolerances.len() ==> tolerance_of(tolerances, symbol) == 0,
    decreases tolerances.len(),
{
    if i > 0 {
        let rest = tolerances.drop_first();
        assert(tolerances[0].symbol@ != symbol);
        assert forall|j: int| 0 <= j < i - 1 implies (#[trigger] rest[j]).symbol@ != symbol by {
            assert(rest[j] == tolerances[j + 1]);
        }
        law_first_tolerance_counts(rest, symbol, i - 1);
    }
}

} // verus!
