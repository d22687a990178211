//! After an overlap: which legs won, what the trades earned and what to redeem.
//!
//! A winning share pays one dollar. Costs, payouts and profits are amounts times sizes;
//! results are told in the units of amounts.

use vstd::prelude::*;

#[allow(unused_imports)]
use crate::decimal::{held, LIMIT};
use crate::decimal::{held_product, held_sum, ONE};
use crate::models::{MarketDetails, MarketToken, TradeRecord};
#[allow(unused_imports)]
use crate::round::{size_of, trade_of, LegPrices, OverlapView, Pair, RoundView, TradeView};

verus! {

/// Seconds before the first look at whether the markets are resolved.
pub const RESOLUTION_INITIAL_DELAY_SECS: u64 = 60;

/// The outcomes that won.
#[derive(Debug)]
pub struct Resolution {
    pub token_15: String,
    pub outcome_15: String,
    pub token_5: String,
    pub outcome_5: String,
}

/// The first token that is marked as the winner, from `from` on.
pub open spec fn winner_from(tokens: Seq<MarketToken>, from: int) -> Option<MarketToken>
    decreases tokens.len() - from,
{
    if !(0 <= from < tokens.len()) {
        None
    } else if tokens[from].winner {
        Some(tokens[from])
    } else {
        winner_from(tokens, from + 1)
    }
}

/// The winner of a market that is closed.
pub open spec fn winner_of(reply: Option<MarketDetails>) -> Option<MarketToken> {
    match reply {
        Some(details) => if details.closed {
            winner_from(details.tokens@, 0)
        } else {
            None
        },
        None => None,
    }
}

fn winner(reply: &Option<MarketDetails>) -> (w: Option<&MarketToken>)
    ensures
        match w {
            Some(token) => winner_of(*reply) == Some(*token),
            None => winner_of(*reply) is None,
        },
{
    match reply {
        Some(details) => {
            if !details.closed {
                return None;
            }
            let mut i: usize = 0;
            while i < details.tokens.len()
                invariant
                    *reply == Some(*details),
                    details.closed,
                    i <= details.tokens.len(),
                    winner_from(details.tokens@, 0) == winner_from(details.tokens@, i as int),
                decreases details.tokens.len() - i,
            {
                if details.tokens[i].winner {
                    return Some(&details.tokens[i]);
                }
                i += 1;
            }
            None
        },
        None => None,
    }
}

/// The resolution of two markets, once both are closed and have a winner.
pub fn resolution(
    market_15: &Option<MarketDetails>,
    market_5: &Option<MarketDetails>,
) -> (r: Option<Resolution>)
    ensures
        r is Some <==> winner_of(*market_15) is Some && winner_of(*market_5) is Some,
        r matches Some(r) ==> {
            &&& r.token_15@ == winner_of(*market_15)->0.token_id@
            &&& r.outcome_15@ == winner_of(*market_15)->0.outcome@
            &&& r.token_5@ == winner_of(*market_5)->0.token_id@
            &&& r.outcome_5@ == winner_of(*market_5)->0.outcome@
        },
{
    match winner(market_15) {
        Some(w15) => match winner(market_5) {
            Some(w5) => Some(
                Resolution {
                    token_15: w15.token_id.clone(),
                    outcome_15: w15.outcome.clone(),
                    token_5: w5.token_id.clone(),
                    outcome_5: w5.outcome.clone(),
                },
            ),
            None => None,
        },
        None => None,
    }
}

/// What to do while the markets are not known to be resolved.
#[derive(Debug, Clone, Copy, PartialEq, Eq, Structural)]
pub enum PollStep {
    /// There is nothing to resolve.
    Nothing,
    /// Ask for both markets.
    Ask,
    /// Give up.
    TimedOut,
}

/// The step of polling for trades, so long after the first time.
pub open spec fn poll_decided(trades: int, elapsed_secs: int, max_wait_secs: int) -> PollStep {
    if trades == 0 {
        PollStep::Nothing
    } else if elapsed_secs < max_wait_secs {
        PollStep::Ask
    } else {
        PollStep::TimedOut
    }
}

/// Whether to ask for the markets once more, `elapsed_secs` after the first time.
pub fn poll_step(trades: &Vec<TradeRecord>, elapsed_secs: u64, max_wait_secs: u64) -> (step:
    PollStep)
    ensures
        step == if trades.len() == 0 {
            PollStep::Nothing
        } else if elapsed_secs < max_wait_secs {
            PollStep::Ask
        } else {
            PollStep::TimedOut
        },
        step == poll_decided(trades.len() as int, elapsed_secs as int, max_wait_secs as int),
{
    if trades.len() == 0 {
        PollStep::Nothing
    } else if elapsed_secs < max_wait_secs {
        PollStep::Ask
    } else {
        PollStep::TimedOut
    }
}

/// Whether a winning token is one of a trade's legs.
pub open spec fn holds(trade: TradeView, token: Seq<char>) -> bool {
    token == trade.leg1_token || token == trade.leg2_token
}

/// What both legs of a trade with a size cost.
pub open spec fn cost_of(trade: TradeView) -> int {
    (trade.leg1_price + trade.leg2_price) * trade.size->0
}

/// One dollar a share for each market that the trade won.
pub open spec fn payout_of(trade: TradeView, won_15m: bool, won_5m: bool) -> int {
    trade.size->0 * ONE * ((if won_15m {
        1int
    } else {
        0
    }) + (if won_5m {
        1int
    } else {
        0
    }))
}

/// The profit of a trade when `token_15` and `token_5` won.
pub open spec fn pnl_of(trade: TradeView, token_15: Seq<char>, token_5: Seq<char>) -> int {
    payout_of(trade, holds(trade, token_15), holds(trade, token_5)) - cost_of(trade)
}

/// An amount times a size, in units: what lies below a unit is cut off downwards.
pub open spec fn in_units(product: int) -> int {
    held(product / (ONE as int))
}

/// What is told of a product with the size of a trade: nothing where it has none.
pub open spec fn told(trade: TradeView, product: int) -> Option<int> {
    if trade.size is Some {
        Some(in_units(product))
    } else {
        None
    }
}

/// A sum of profits, held within the limit; nothing where either is not known.
pub open spec fn added(a: Option<int>, b: Option<int>) -> Option<int> {
    match (a, b) {
        (Some(a), Some(b)) => Some(held(a + b)),
        _ => None,
    }
}

/// The number inside an option.
pub open spec fn opt_int(v: Option<i128>) -> Option<int> {
    match v {
        Some(v) => Some(v as int),
        None => None,
    }
}

/// Adds a profit to a total.
pub fn add_pnl(total: Option<i128>, pnl: Option<i128>) -> (sum: Option<i128>)
    ensures
        opt_int(sum) == added(opt_int(total), opt_int(pnl)),
{
    match total {
        Some(total) => match pnl {
            Some(pnl) => Some(held_sum(total, pnl)),
            None => None,
        },
        None => None,
    }
}

/// The profit of all trades, in units, added in order. It is not known once that of a
/// trade is not.
pub open spec fn total_pnl(
    trades: Seq<TradeView>,
    token_15: Seq<char>,
    token_5: Seq<char>,
) -> Option<int>
    decreases trades.len(),
{
    if trades.len() == 0 {
        Some(0)
    } else {
        added(
            total_pnl(trades.drop_last(), token_15, token_5),
            told(trades.last(), pnl_of(trades.last(), token_15, token_5)),
        )
    }
}

/// What became of a trade. Amounts are told where the trade has a size.
#[derive(Debug, Clone, Copy, PartialEq, Eq, Structural)]
pub struct TradeResult {
    pub won_15m: bool,
    pub won_5m: bool,
    pub cost: Option<i128>,
    pub payout: Option<i128>,
    pub pnl: Option<i128>,
    /// Profit of this trade and those before it.
    pub running_pnl: Option<i128>,
}

impl TradeResult {
    /// The result in words.
    pub fn message(&self) -> (message: &'static str)
        ensures
            message@ == match (self.won_15m, self.won_5m) {
                (true, true) => "Won both legs"@,
                (true, false) => "Won 15m leg"@,
                (false, true) => "Won 5m leg"@,
                (false, false) => "Lost both legs"@,
            },
    {
        if self.won_15m {
            if self.won_5m {
                "Won both legs"
            } else {
                "Won 15m leg"
            }
        } else {
            if self.won_5m {
                "Won 5m leg"
            } else {
                "Lost both legs"
            }
        }
    }
}

/// Tokens to redeem.
#[derive(Debug)]
pub struct Redemption {
    pub condition_id: String,
    pub outcome: String,
}

/// Tokens to redeem, as values.
#[verifier::ext_equal]
pub struct RedemptionView {
    pub condition_id: Seq<char>,
    pub outcome: Seq<char>,
}

impl View for Redemption {
    type V = RedemptionView;

    open spec fn view(&self) -> RedemptionView {
        RedemptionView { condition_id: self.condition_id@, outcome: self.outcome@ }
    }
}

/// The outcome of the leg that a winning token is.
pub open spec fn outcome_held(trade: TradeView, token: Seq<char>) -> Seq<char> {
    if token == trade.leg1_token {
        trade.leg1_outcome
    } else {
        trade.leg2_outcome
    }
}

/// What a trade has to redeem: its winning legs, that of the 15-minute market first.
pub open spec fn redemptions_of(
    trade: TradeView,
    token_15: Seq<char>,
    token_5: Seq<char>,
) -> Seq<RedemptionView> {
    let first = if holds(trade, token_15) {
        seq![
            RedemptionView {
                condition_id: trade.cid_15,
                outcome: outcome_held(trade, token_15),
            },
        ]
    } else {
        seq![]
    };
    let second = if holds(trade, token_5) {
        seq![
            RedemptionView { condition_id: trade.cid_5, outcome: outcome_held(trade, token_5) },
        ]
    } else {
        seq![]
    };
    first + second
}

/// What all trades have to redeem, trade by trade.
pub open spec fn all_redemptions(
    trades: Seq<TradeView>,
    token_15: Seq<char>,
    token_5: Seq<char>,
) -> Seq<RedemptionView>
    decreases trades.len(),
{
    if trades.len() == 0 {
        seq![]
    } else {
        all_redemptions(trades.drop_last(), token_15, token_5) + redemptions_of(
            trades.last(),
            token_15,
            token_5,
        )
    }
}

/// How trades were settled.
#[derive(Debug)]
pub struct Settlement {
    pub results: Vec<TradeResult>,
    pub redemptions: Vec<Redemption>,
    pub period_pnl: Option<i128>,
}

/// Whether `result` is what became of a trade, `before` being the profit of the trades
/// ahead of it.
pub open spec fn is_result(
    result: TradeResult,
    trade: TradeView,
    before: Option<int>,
    token_15: Seq<char>,
    token_5: Seq<char>,
) -> bool {
    &&& result.won_15m == holds(trade, token_15)
    &&& result.won_5m == holds(trade, token_5)
    &&& opt_int(result.cost) == told(trade, cost_of(trade))
    &&& opt_int(result.payout) == told(trade, payout_of(trade, result.won_15m, result.won_5m))
    &&& opt_int(result.pnl) == told(trade, pnl_of(trade, token_15, token_5))
    &&& opt_int(result.running_pnl) == added(before, opt_int(result.pnl))
}

/// The values of a list of trades.
pub open spec fn views(trades: Seq<TradeRecord>) -> Seq<TradeView> {
    trades.map_values(|t: TradeRecord| t@)
}

fn result_of(trade: &TradeRecord, won: &Resolution, before: Option<i128>) -> (
    result: TradeResult)
    ensures
        is_result(result, trade@, opt_int(before), won.token_15@, won.token_5@),
{
    let won_15m = won.token_15 == trade.leg1_token || won.token_15 == trade.leg2_token;
    let won_5m = won.token_5 == trade.leg1_token || won.token_5 == trade.leg2_token;
    let (first, second) = (trade.leg1_price.units(), trade.leg2_price.units());
    let size = match trade.size {
        Some(size) => size.units(),
        None => {
            return TradeResult {
                won_15m,
                won_5m,
                cost: None,
                payout: None,
                pnl: None,
                running_pnl: None,
            };
        },
    };
    let wins: i128 = (if won_15m {
        1i128
    } else {
        0
    }) + (if won_5m {
        1i128
    } else {
        0
    });
    let pays: i128 = ONE * wins;
    let cost = held_product(first + second, size);
    let payout = held_product(size, pays);
    let pnl = held_product(pays - first - second, size);
    proof {
        assert(size * ONE * wins == size * pays) by (nonlinear_arith)
            requires
                pays == ONE * wins,
        ;
        assert((pays - first - second) * size == size * pays - (first + second) * size)
            by (nonlinear_arith);
    }
    TradeResult {
        won_15m,
        won_5m,
        cost: Some(cost),
        payout: Some(payout),
        pnl: Some(pnl),
        running_pnl: add_pnl(before, Some(pnl)),
    }
}

fn redemption(trade: &TradeRecord, condition_id: &String, token: &String) -> (r: Redemption)
    ensures
        r@ == (RedemptionView {
            condition_id: condition_id@,
            outcome: outcome_held(trade@, token@),
        }),
{
    let outcome = if *token == trade.leg1_token {
        trade.leg1_outcome.clone()
    } else {
        trade.leg2_outcome.clone()
    };
    Redemption { condition_id: condition_id.clone(), outcome }
}

/// Settles trades: the result of each, the profit of all, and, where winnings are to be
/// redeemed, what to redeem.
pub fn settle(trades: &Vec<TradeRecord>, won: &Resolution, redeem: bool) -> (s: Settlement)
    ensures
        s.results.len() == trades.len(),
        forall|i: int|
            0 <= i < trades.len() ==> is_result(
                #[trigger] s.results@[i],
                trades@[i]@,
                total_pnl(views(trades@.take(i)), won.token_15@, won.token_5@),
                won.token_15@,
                won.token_5@,
            ),
        opt_int(s.period_pnl) == total_pnl(views(trades@), won.token_15@, won.token_5@),
        s.redemptions@.map_values(|r: Redemption| r@) == if redeem {
            all_redemptions(views(trades@), won.token_15@, won.token_5@)
        } else {
            seq![]
        },
{
    let mut results: Vec<TradeResult> = Vec::new();
    let mut redemptions: Vec<Redemption> = Vec::new();
    let mut period_pnl: Option<i128> = Some(0);
    let mut i: usize = 0;
    assert(views(trades@.take(0)) =~= seq![]);
    assert(redemptions@.map_values(|r: Redemption| r@) =~= seq![]);
    while i < trades.len()
        invariant
            i <= trades.len(),
            results.len() == i,
            forall|k: int|
                0 <= k < i ==> is_result(
                    #[trigger] results@[k],
                    trades@[k]@,
                    total_pnl(views(trades@.take(k)), won.token_15@, won.token_5@),
                    won.token_15@,
                    won.token_5@,
                ),
            opt_int(period_pnl) == total_pnl(views(trades@.take(i as int)), won.token_15@, won.token_5@),
            redemptions@.map_values(|r: Redemption| r@) == if redeem {
                all_redemptions(views(trades@.take(i as int)), won.token_15@, won.token_5@)
            } else {
                seq![]
            },
        decreases trades.len() - i,
    {
        let trade = &trades[i];
        let ghost seen = views(trades@.take(i + 1));
        assert(seen.drop_last() =~= views(trades@.take(i as int)));
        assert(seen.last() == trade@);
        let result = result_of(trade, won, period_pnl);
        period_pnl = result.running_pnl;
        if redeem {
            let ghost before = redemptions@;
            if result.won_15m {
                redemptions.push(redemption(trade, &trade.cid_15, &won.token_15));
            }
            if result.won_5m {
                redemptions.push(redemption(trade, &trade.cid_5, &won.token_5));
            }
            assert(redemptions@.map_values(|r: Redemption| r@) =~= before.map_values(
                |r: Redemption| r@,
            ) + redemptions_of(trade@, won.token_15@, won.token_5@));
        }
        results.push(result);
        i += 1;
    }
    assert(trades@.take(i as int) =~= trades@);
    Settlement { results, redemptions, period_pnl }
}

/// Whether winnings are redeemed.
pub open spec fn is_redeemed(auto_redeem: bool, has_wallet: bool, simulation: bool) -> bool {
    auto_redeem && has_wallet && !simulation
}

/// Winnings are redeemed when that is asked for, there is a wallet to redeem to, and the
/// trades are real.
pub fn redeems(auto_redeem: bool, has_wallet: bool, simulation: bool) -> (redeem: bool)
    ensures
        redeem == (auto_redeem && has_wallet && !simulation),
        redeem == is_redeemed(auto_redeem, has_wallet, simulation),
{
    auto_redeem && has_wallet && !simulation
}

/// The profit is locked in: a trade whose legs cost less than a dollar together gains as
/// soon as either of its markets is won, by at least what it stayed below the dollar.
pub proof fn law_profit_is_locked_in(
    overlap: OverlapView,
    legs: LegPrices,
    size: int,
    token_15: Seq<char>,
    token_5: Seq<char>,
)
    requires
        size > 0,
        legs.first + legs.second < ONE,
        ({
            let trade = trade_of(overlap, legs, Some(size));
            holds(trade, token_15) || holds(trade, token_5)
        }),
    ensures
        ({
            let pnl = pnl_of(trade_of(overlap, legs, Some(size)), token_15, token_5);
            &&& pnl >= size * (ONE - legs.first - legs.second)
            &&& pnl > 0
        }),
{
    let trade = trade_of(overlap, legs, Some(size));
    let wins = (if holds(trade, token_15) {
        1int
    } else {
        0
    }) + (if holds(trade, token_5) {
        1int
    } else {
        0
    });
    let spread = ONE - legs.first - legs.second;
    assert(size * ONE * wins - (legs.first + legs.second) * size >= size * spread)
        by (nonlinear_arith)
        requires
            size > 0,
            wins >= 1,
            ONE == 1_000_000_000_000_000_000,
            spread == ONE - legs.first - legs.second,
    ;
    assert(size * spread > 0) by (nonlinear_arith)
        requires
            size > 0,
            spread > 0,
    ;
}

/// Every trade of a round with a threshold of at most a dollar gains as soon as either
/// market is won.
pub proof fn law_round_locks_in_profit(
    round: RoundView,
    i: int,
    token_15: Seq<char>,
    token_5: Seq<char>,
)
    requires
        round.is_sound(),
        round.threshold <= ONE,
        size_of(round.shares) is Some,
        size_of(round.shares)->0 > 0,
        0 <= i < round.trades.len(),
        holds(round.trades[i], token_15) || holds(round.trades[i], token_5),
    ensures
        pnl_of(round.trades[i], token_15, token_5) > 0,
{
    let trade = round.trades[i];
    assert(round.is_own_trade(trade));
    let legs = choose|legs: LegPrices| #[trigger]
        trade_of(round.overlap, legs, size_of(round.shares)) == trade && legs.first + legs.second
            < round.threshold;
    law_profit_is_locked_in(round.overlap, legs, size_of(round.shares)->0, token_15, token_5);
}

/// Whether the four tokens of an overlap are told apart.
pub open spec fn has_four_tokens(overlap: OverlapView) -> bool {
    &&& overlap.t15_up != overlap.t15_down
    &&& overlap.t15_up != overlap.t5_up
    &&& overlap.t15_up != overlap.t5_down
    &&& overlap.t15_down != overlap.t5_up
    &&& overlap.t15_down != overlap.t5_down
    &&& overlap.t5_up != overlap.t5_down
}

/// When both markets end on the same side, a trade wins exactly one of them and gains
/// what its legs stayed below the dollar.
pub proof fn law_same_side_pays_once(overlap: OverlapView, legs: LegPrices, size: int, up: bool)
    requires
        has_four_tokens(overlap),
    ensures
        ({
            let trade = trade_of(overlap, legs, Some(size));
            let token_15 = if up {
                overlap.t15_up
            } else {
                overlap.t15_down
            };
            let token_5 = if up {
                overlap.t5_up
            } else {
                overlap.t5_down
            };
            &&& holds(trade, token_15) != holds(trade, token_5)
            &&& pnl_of(trade, token_15, token_5) == size * (ONE - legs.first - legs.second)
        }),
{
    assert(size * ONE * 1int - (legs.first + legs.second) * size == size * (ONE - legs.first
        - legs.second)) by (nonlinear_arith);
}

/// When the markets end on different sides, a trade wins both legs or loses both; a loss
/// is what the legs cost.
pub proof fn law_split_sides_pay_twice_or_not(
    overlap: OverlapView,
    legs: LegPrices,
    size: int,
    up_15: bool,
)
    requires
        has_four_tokens(overlap),
    ensures
        ({
            let trade = trade_of(overlap, legs, Some(size));
            let token_15 = if up_15 {
                overlap.t15_up
            } else {
                overlap.t15_down
            };
            let token_5 = if up_15 {
                overlap.t5_down
            } else {
                overlap.t5_up
            };
            let won = up_15 == (legs.pair == Pair::UpDown);
            &&& holds(trade, token_15) == won
            &&& holds(trade, token_5) == won
            &&& !won ==> pnl_of(trade, token_15, token_5) == -cost_of(trade)
            &&& won ==> pnl_of(trade, token_15, token_5) == size * (2 * ONE - legs.first
                - legs.second)
        }),
{
    assert(size * ONE * 2int - (legs.first + legs.second) * size == size * (2 * ONE - legs.first
        - legs.second)) by (nonlinear_arith);
    assert(size * ONE * 0int == 0) by (nonlinear_arith);
}

/// Trades that each gain do not lose together.
pub proof fn law_gains_add_up(trades: Seq<TradeView>, token_15: Seq<char>, token_5: Seq<char>)
    requires
        forall|i: int|
            0 <= i < trades.len() ==> trades[i].size is Some && pnl_of(
                #[trigger] trades[i],
                token_15,
                token_5,
            ) >= 0,
    ensures
        total_pnl(trades, token_15, token_5) is Some,
        total_pnl(trades, token_15, token_5)->0 >= 0,
    decreases trades.len(),
{
    if trades.len() > 0 {
        law_gains_add_up(trades.drop_last(), token_15, token_5);
    }
}

/// Only winning legs are redeemed: there is one redemption for each market that a trade
/// won.
pub proof fn law_winners_are_redeemed(
    trade: TradeView,
    token_15: Seq<char>,
    token_5: Seq<char>,
)
    ensures
        redemptions_of(trade, token_15, token_5).len() == (if holds(trade, token_15) {
            1int
        } else {
            0
        }) + (if holds(trade, token_5) {
            1int
        } else {
            0
        }),
        payout_of(trade, holds(trade, token_15), holds(trade, token_5)) == trade.size->0 * ONE
            * redemptions_of(trade, token_15, token_5).len(),
{
}

/// Each redemption names the condition of a market that was won and the outcome of the leg
/// that won it: leg one for the 15-minute market, leg two for the 5-minute market.
pub proof fn law_redemption_names_the_winning_leg(
    overlap: OverlapView,
    legs: LegPrices,
    size: Option<int>,
    token_15: Seq<char>,
    token_5: Seq<char>,
)
    requires
        has_four_tokens(overlap),
        token_15 == overlap.t15_up || token_15 == overlap.t15_down,
        token_5 == overlap.t5_up || token_5 == overlap.t5_down,
    ensures
        ({
            let trade = trade_of(overlap, legs, size);
            let r = redemptions_of(trade, token_15, token_5);
            let won_15 = token_15 == trade.leg1_token;
            let won_5 = token_5 == trade.leg2_token;
            let outcome_15 = if token_15 == overlap.t15_up {
                "Up"@
            } else {
                "Down"@
            };
            let outcome_5 = if token_5 == overlap.t5_up {
                "Up"@
            } else {
                "Down"@
            };
            &&& r.len() == (if won_15 {
                1int
            } else {
                0
            }) + (if won_5 {
                1int
            } else {
                0
            })
            &&& won_15 ==> {
                &&& r[0].condition_id == overlap.cid_15
                &&& r[0].outcome == outcome_15
                &&& r[0].outcome == trade.leg1_outcome
            }
            &&& won_5 ==> {
                &&& r.last().condition_id == overlap.cid_5
                &&& r.last().outcome == outcome_5
                &&& r.last().outcome == trade.leg2_outcome
            }
            &&& won_15 <==> outcome_15 == trade.leg1_outcome
            &&& won_5 <==> outcome_5 == trade.leg2_outcome
        }),
{
    reveal_strlit("Up");
    reveal_strlit("Down");
    assert("Up"@.len() != "Down"@.len());
}

/// A redemption of any trade names the outcome of a leg whose token is the winner, and the
/// condition of the market that the winner belongs to.
pub proof fn law_redeemed_outcome_is_held(
    trade: TradeView,
    token_15: Seq<char>,
    token_5: Seq<char>,
    i: int,
)
    requires
        0 <= i < redemptions_of(trade, token_15, token_5).len(),
    ensures
        ({
            let r = redemptions_of(trade, token_15, token_5)[i];
            ||| {
                &&& i == 0
                &&& r.condition_id == trade.cid_15
                &&& (trade.leg1_token == token_15 && r.outcome == trade.leg1_outcome) || (
                trade.leg1_token != token_15 && trade.leg2_token == token_15 && r.outcome
                    == trade.leg2_outcome)
            }
            ||| {
                &&& i == redemptions_of(trade, token_15, token_5).len() - 1
                &&& r.condition_id == trade.cid_5
                &&& (trade.leg1_token == token_5 && r.outcome == trade.leg1_outcome) || (
                trade.leg1_token != token_5 && trade.leg2_token == token_5 && r.outcome
                    == trade.leg2_outcome)
            }
        }),
        redemptions_of(trade, token_15, token_5).len() == 2 ==> {
            &&& redemptions_of(trade, token_15, token_5)[0].condition_id == trade.cid_15
            &&& redemptions_of(trade, token_15, token_5)[1].condition_id == trade.cid_5
        },
{
}

/// What trades have to redeem adds up, in their order: those of the first trades come
/// before those of the others, and each trade adds its own.
pub proof fn law_redemptions_add_up(
    first: Seq<TradeView>,
    second: Seq<TradeView>,
    token_15: Seq<char>,
    token_5: Seq<char>,
)
    ensures
        all_redemptions(first + second, token_15, token_5) == all_redemptions(
            first,
            token_15,
            token_5,
        ) + all_redemptions(second, token_15, token_5),
        second.len() == 1 ==> all_redemptions(second, token_15, token_5) == redemptions_of(
            second[0],
            token_15,
            token_5,
        ),
        second.len() == 0 ==> all_redemptions(second, token_15, token_5).len() == 0,
    decreases second.len(),
{
    if second.len() == 0 {
        assert(first + second =~= first);
        assert(all_redemptions(first, token_15, token_5) + all_redemptions(
            second,
            token_15,
            token_5,
        ) =~= all_redemptions(first, token_15, token_5));
    } else {
        law_redemptions_add_up(first, second.drop_last(), token_15, token_5);
        assert((first + second).drop_last() =~= first + second.drop_last());
        assert((first + second).last() == second.last());
        let mine = redemptions_of(second.last(), token_15, token_5);
        let before = all_redemptions(first, token_15, token_5);
        let between = all_redemptions(second.drop_last(), token_15, token_5);
        assert((before + between) + mine =~= before + (between + mine));
        if second.len() == 1 {
            assert(between.len() == 0);
            assert(between + mine =~= mine);
        }
    }
}

/// The winner of a market is its first token that is marked so, and there is one only once
/// the market is closed.
pub proof fn law_winner_is_the_first_marked_token(details: MarketDetails)
    ensures
        winner_of(None) is None,
        !details.closed ==> winner_of(Some(details)) is None,
        winner_of(Some(details)) matches Some(w) ==> exists|i: int|
            {
                &&& 0 <= i < details.tokens.len()
                &&& #[trigger] details.tokens@[i] == w
                &&& details.tokens@[i].winner
                &&& forall|j: int| 0 <= j < i ==> !(#[trigger] details.tokens@[j]).winner
            },
        details.closed && winner_of(Some(details)) is None ==> forall|i: int|
            0 <= i < details.tokens.len() ==> !(#[trigger] details.tokens@[i]).winner,
{
    lemma_winner_from(details.tokens@, 0);
}

proof fn lemma_winner_from(tokens: Seq<MarketToken>, from: int)
    requires
        0 <= from <= tokens.len(),
    ensures
        winner_from(tokens, from) matches Some(w) ==> exists|i: int|
            {
                &&& from <= i < tokens.len()
                &&& #[trigger] tokens[i] == w
                &&& tokens[i].winner
                &&& forall|j: int| from <= j < i ==> !(#[trigger] tokens[j]).winner
            },
        winner_from(tokens, from) is None ==> forall|i: int|
            from <= i < tokens.len() ==> !(#[trigger] tokens[i]).winner,
    decreases tokens.len() - from,
{
    if from < tokens.len() {
        if tokens[from].winner {
            assert(tokens[from] == winner_from(tokens, from)->0);
        } else {
            lemma_winner_from(tokens, from + 1);
        }
    }
}

/// A product is told in whole units: the largest number of them that does not exceed it,
/// within the limit.
pub proof fn law_results_are_told_in_whole_units(product: int)
    ensures
        in_units(product) >= LIMIT ==> product >= LIMIT * 1_000_000_000_000_000_000,
        in_units(product) <= -LIMIT ==> product < (1 - LIMIT) * 1_000_000_000_000_000_000,
        -LIMIT < in_units(product) < LIMIT ==> {
            &&& in_units(product) * 1_000_000_000_000_000_000 <= product
            &&& product < (in_units(product) + 1) * 1_000_000_000_000_000_000
        },
        -LIMIT <= in_units(product) <= LIMIT,
{
}

/// What a settlement tells of a trade with a size: a market is won by holding its winning
/// token; both legs were paid for, and each won market pays a dollar a share; the profit is
/// the difference.
pub proof fn law_result_of_a_trade(
    result: TradeResult,
    trade: TradeView,
    before: Option<int>,
    token_15: Seq<char>,
    token_5: Seq<char>,
)
    requires
        is_result(result, trade, before, token_15, token_5),
    ensures
        result.won_15m <==> trade.leg1_token == token_15 || trade.leg2_token == token_15,
        result.won_5m <==> trade.leg1_token == token_5 || trade.leg2_token == token_5,
        trade.size matches Some(size) ==> {
            let paid = trade.leg1_price * size + trade.leg2_price * size;
            let dollars = (if result.won_15m {
                1int
            } else {
                0
            }) + (if result.won_5m {
                1int
            } else {
                0
            });
            let gets = dollars * size * 1_000_000_000_000_000_000;
            &&& result.cost is Some && result.cost->0 == in_units(paid)
            &&& result.payout is Some && result.payout->0 == in_units(gets)
            &&& result.pnl is Some && result.pnl->0 == in_units(gets - paid)
            &&& before is Some ==> result.running_pnl is Some
            &&& before is Some && -LIMIT <= before->0 + result.pnl->0 <= LIMIT
                ==> result.running_pnl->0 == before->0 + result.pnl->0
        },
        trade.size is None ==> result.cost is None && result.payout is None && result.pnl is None,
        trade.size is None || before is None ==> result.running_pnl is None,
{
    if let Some(size) = trade.size {
        let (a, b) = (trade.leg1_price, trade.leg2_price);
        assert((a + b) * size == a * size + b * size) by (nonlinear_arith);
        let wins = (if result.won_15m {
            1int
        } else {
            0
        }) + (if result.won_5m {
            1int
        } else {
            0
        });
        assert(size * ONE * wins == wins * size * 1_000_000_000_000_000_000) by (nonlinear_arith)
            requires
                ONE == 1_000_000_000_000_000_000,
        ;
    }
}

/// Profits add up trade by trade: one more trade adds its own profit to the total of those
/// before it, and a total is not known once a profit is not.
pub proof fn law_profits_add_up(
    trades: Seq<TradeView>,
    trade: TradeView,
    token_15: Seq<char>,
    token_5: Seq<char>,
)
    ensures
        ({
            let before = total_pnl(trades, token_15, token_5);
            let after = total_pnl(trades.push(trade), token_15, token_5);
            let pnl = in_units(pnl_of(trade, token_15, token_5));
            &&& trades.len() == 0 ==> before == Some(0int)
            &&& after is Some <==> before is Some && trade.size is Some
            &&& after is Some && -LIMIT <= before->0 + pnl <= LIMIT ==> after->0 == before->0 + pnl
            &&& after is Some && before->0 + pnl > LIMIT ==> after->0 == LIMIT
            &&& after is Some && before->0 + pnl < -LIMIT ==> after->0 == -LIMIT
        }),
{
    assert(trades.push(trade).drop_last() =~= trades);
}

/// The values of a list of trades are those of its trades, in order; the values of a
/// redemption are those of its fields.
pub proof fn law_listed_values_are_those_of_the_list(
    trades: Seq<TradeRecord>,
    redemption: Redemption,
    i: int,
)
    requires
        0 <= i < trades.len(),
    ensures
        views(trades).len() == trades.len(),
        views(trades)[i] == trades[i]@,
        redemption@.condition_id == redemption.condition_id@,
        redemption@.outcome == redemption.outcome@,
{
}

/// Markets are asked for as long as there are trades to settle and time to wait; giving up
/// is for good.
pub proof fn law_polling_ends_in_time(
    trades: int,
    elapsed_secs: int,
    later_secs: int,
    max_wait_secs: int,
)
    requires
        trades >= 0,
        elapsed_secs <= later_secs,
    ensures
        poll_decided(0, elapsed_secs, max_wait_secs) == PollStep::Nothing,
        trades > 0 ==> (poll_decided(trades, elapsed_secs, max_wait_secs) == PollStep::Ask
            <==> elapsed_secs < max_wait_secs),
        trades > 0 ==> (poll_decided(trades, elapsed_secs, max_wait_secs) == PollStep::TimedOut
            <==> elapsed_secs >= max_wait_secs),
        poll_decided(trades, elapsed_secs, max_wait_secs) == PollStep::TimedOut ==> poll_decided(
            trades,
            later_secs,
            max_wait_secs,
        ) == PollStep::TimedOut,
{
}

/// Nothing is redeemed without the wish to, without a wallet, or in a simulation; and
/// nothing else stands in the way.
pub proof fn law_redeeming_needs_a_wish_a_wallet_and_real_trades(
    auto_redeem: bool,
    has_wallet: bool,
    simulation: bool,
)
    ensures
        !is_redeemed(false, has_wallet, simulation),
        !is_redeemed(auto_redeem, false, simulation),
        !is_redeemed(auto_redeem, has_wallet, true),
        is_redeemed(true, true, false),
{
}

} // verus!
