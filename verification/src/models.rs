//! What the exchange says and is told, as plain values.

use vstd::prelude::*;

use crate::decimal::Decimal;

verus! {

/// One outcome of a market and the token that pays for it.
#[derive(Debug, Clone)]
pub struct MarketToken {
    pub token_id: String,
    pub outcome: String,
    pub winner: bool,
}

/// The state of a market, looked up by its condition.
#[derive(Debug, Clone)]
pub struct MarketDetails {
    pub closed: bool,
    pub tokens: Vec<MarketToken>,
}

/// A market, looked up by its slug.
#[derive(Debug, Clone)]
pub struct Market {
    pub condition_id: String,
    pub question: String,
    pub active: bool,
    pub closed: bool,
}

/// A limit order as it is sent.
#[derive(Debug, Clone)]
pub struct OrderRequest {
    pub token_id: String,
    pub side: String,
    pub size: String,
    pub price: String,
    pub order_type: String,
}

/// A pair of legs that was placed: one outcome of the longer market and the
/// opposite outcome of the shorter one.
#[derive(Debug, Clone)]
pub struct TradeRecord {
    pub symbol: String,
    pub period_15: i64,
    pub period_5: i64,
    pub cid_15: String,
    pub cid_5: String,
    pub leg1_token: String,
    pub leg1_price: Decimal,
    pub leg1_cid: String,
    pub leg1_outcome: String,
    pub leg2_token: String,
    pub leg2_price: Decimal,
    pub leg2_cid: String,
    pub leg2_outcome: String,
    /// Shares a leg; nothing where the setting is no number that can be counted.
    pub size: Option<Decimal>,
}

} // verus!
