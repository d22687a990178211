//! Arbitrage between the 15-minute and the 5-minute market of a symbol, traded only
//! while both run to the same end.

use vstd::prelude::*;
use vstd::string::*;

#[allow(unused_imports)]
use crate::chainlink::observed;
use crate::chainlink::{FeedReport, PriceCache};
use crate::config::{ArbConfig, Config};
#[allow(unused_imports)]
use crate::config::tolerance_of;
use crate::decimal::Decimal;
#[allow(unused_imports)]
use crate::discovery::on_calendar;
use crate::discovery::{utc_timestamp, MARKET_15M_DURATION_SECS, MARKET_5M_DURATION_SECS};
use crate::models::TradeRecord;
use crate::overlap::{compare_prices, too_early, Candidate, Matched, Overlap, Retry, WaitReason};
#[allow(unused_imports)]
use crate::overlap::{close_enough, pause, pause_until_ready, ready_at};
use crate::round::Round;
#[allow(unused_imports)]
use crate::round::RoundView;
use crate::settlement::{add_pnl, redeems, settle, Redemption, Resolution, Settlement};
#[allow(unused_imports)]
use crate::settlement::{added, all_redemptions, is_result, opt_int, total_pnl, views};

verus! {

/// What the loops of all symbols share: settings, prices-to-beat and the profit so far.
#[derive(Debug)]
pub struct ArbStrategy {
    pub config: Config,
    pub arb: ArbConfig,
    pub price_cache_15: PriceCache,
    pub price_cache_5: PriceCache,
    /// The profit so far, in units; nothing once it is not known.
    pub cumulative_pnl: Option<i128>,
}

/// The symbols that are traded, as values.
pub open spec fn symbols_of(config: Config) -> Seq<Seq<char>> {
    config.strategy.symbols@.map_values(|s: String| s@)
}

impl ArbStrategy {
    /// The caches are for the two lengths of markets.
    pub open spec fn well_formed(&self) -> bool {
        &&& self.price_cache_15.period_length() == MARKET_15M_DURATION_SECS
        &&& self.price_cache_5.period_length() == MARKET_5M_DURATION_SECS
    }

    /// A strategy that knows no prices and has earned nothing.
    pub fn new(config: Config, arb: ArbConfig) -> (s: Self)
        ensures
            s.well_formed(),
            s.config == config,
            s.arb == arb,
            s.cumulative_pnl == Some(0i128),
            s.price_cache_15@ == Map::<(Seq<char>, int), int>::empty(),
            s.price_cache_5@ == Map::<(Seq<char>, int), int>::empty(),
    {
        ArbStrategy {
            config,
            arb,
            price_cache_15: PriceCache::new(MARKET_15M_DURATION_SECS),
            price_cache_5: PriceCache::new(MARKET_5M_DURATION_SECS),
            cumulative_pnl: Some(0),
        }
    }

    /// Takes the price of a symbol at a second into both caches.
    pub fn observe_price(&mut self, symbol: &str, feed_ts: i64, price: Decimal)
        requires
            old(self).well_formed(),
        ensures
            final(self).well_formed(),
            final(self).config == old(self).config,
            final(self).arb == old(self).arb,
            final(self).cumulative_pnl == old(self).cumulative_pnl,
            final(self).price_cache_15@ == observed(
                old(self).price_cache_15@,
                MARKET_15M_DURATION_SECS as int,
                symbol@,
                feed_ts as int,
                price@,
            ),
            final(self).price_cache_5@ == observed(
                old(self).price_cache_5@,
                MARKET_5M_DURATION_SECS as int,
                symbol@,
                feed_ts as int,
                price@,
            ),
    {
        self.price_cache_15.observe(symbol, feed_ts, price);
        self.price_cache_5.observe(symbol, feed_ts, price);
    }

    /// Takes a report of the price feed into both caches, if it is on a symbol that is
    /// traded and its price can be read.
    pub fn take_report(&mut self, report: &FeedReport)
        requires
            old(self).well_formed(),
        ensures
            final(self).well_formed(),
            final(self).config == old(self).config,
            final(self).arb == old(self).arb,
            final(self).cumulative_pnl == old(self).cumulative_pnl,
            final(self).price_cache_15@ == report@.taken(
                old(self).price_cache_15@,
                MARKET_15M_DURATION_SECS as int,
                symbols_of(old(self).config),
            ),
            final(self).price_cache_5@ == report@.taken(
                old(self).price_cache_5@,
                MARKET_5M_DURATION_SECS as int,
                symbols_of(old(self).config),
            ),
    {
        if let Some(i) = report.listed(&self.config.strategy.symbols) {
            if let Some(price) = Decimal::parse(report.value.as_str()) {
                let symbol = self.config.strategy.symbols[i].clone();
                self.observe_price(symbol.as_str(), report.feed_ts(), price);
            }
        }
    }

    /// Whether `r` is what a candidate's prices-to-beat give at a moment.
    pub open spec fn is_check(
        &self,
        symbol: Seq<char>,
        candidate: Candidate,
        now: i64,
        r: Result<Matched, Retry>,
    ) -> bool {
        let timing = self.arb.price_to_beat;
        let price_15 = self.price_cache_15.price_of(symbol, candidate.window.period_15 as int);
        let price_5 = self.price_cache_5.price_of(symbol, candidate.window.period_5 as int);
        if now < ready_at(candidate.window, timing.delay_secs) {
            r == Err::<Matched, Retry>(
                pause_until_ready(candidate.window, now, timing.delay_secs),
            )
        } else if price_15 is None || price_5 is None {
            r == Err::<Matched, Retry>(
                Retry {
                    reason: WaitReason::PriceUnknown,
                    sleep_secs: timing.poll_interval_secs,
                },
            )
        } else if close_enough(
            price_15->0,
            price_5->0,
            tolerance_of(self.arb.tolerances@, symbol),
        ) {
            r matches Ok(m) && m.candidate == candidate && m.price_15@ == price_15->0
                && m.price_5@ == price_5->0
        } else {
            r == Err::<Matched, Retry>(pause(WaitReason::PricesApart))
        }
    }

    /// Whether it is time to look for a candidate's prices-to-beat, and they are known and
    /// within the symbol's tolerance.
    pub fn check_prices(&self, symbol: &str, candidate: Candidate, now: i64) -> (r: Result<
        Matched,
        Retry,
    >)
        ensures
            self.is_check(symbol@, candidate, now, r),
    {
        let timing = self.arb.price_to_beat;
        if let Some(early) = too_early(candidate.window, now, timing.delay_secs) {
            return Err(early);
        }
        let price_15 = self.price_cache_15.get(symbol, candidate.window.period_15);
        let price_5 = self.price_cache_5.get(symbol, candidate.window.period_5);
        let tolerance = self.arb.price_to_beat_tolerance_for(symbol);
        compare_prices(candidate, now, price_15, price_5, tolerance, timing)
    }

    /// The same at the moment that the clock shows.
    pub fn check_prices_now(&self, symbol: &str, candidate: Candidate) -> (r: Result<
        Matched,
        Retry,
    >)
        ensures
            exists|now: i64|
                on_calendar(now as int) && #[trigger] self.is_check(symbol@, candidate, now, r),
    {
        let now = utc_timestamp();
        self.check_prices(symbol, candidate, now)
    }

    /// Starts to trade an overlap.
    pub fn start_round(&self, overlap: Overlap) -> (round: Round)
        ensures
            round@ == (RoundView {
                overlap: overlap@,
                threshold: self.config.strategy.sum_threshold@,
                shares: self.arb.arb_shares@,
                interval_secs: self.arb.trade_interval_secs as int,
                simulation: self.config.strategy.simulation_mode,
                last_trade_at: None,
                pending: None,
                trades: seq![],
            }),
    {
        Round::new(
            overlap,
            self.config.strategy.sum_threshold,
            self.arb.arb_shares.as_str(),
            self.arb.trade_interval_secs,
            self.config.strategy.simulation_mode,
        )
    }

    /// Settles the trades of an overlap and adds their profit to the profit so far.
    /// Winnings are redeemed only where that is configured, with a wallet, and for real
    /// trades.
    pub fn settle_trades(&mut self, trades: &Vec<TradeRecord>, won: &Resolution) -> (s: Settlement)
        requires
            old(self).well_formed(),
        ensures
            final(self).well_formed(),
            final(self).config == old(self).config,
            final(self).arb == old(self).arb,
            final(self).price_cache_15 == old(self).price_cache_15,
            final(self).price_cache_5 == old(self).price_cache_5,
            opt_int(final(self).cumulative_pnl) == added(
                opt_int(old(self).cumulative_pnl),
                total_pnl(views(trades@), won.token_15@, won.token_5@),
            ),
            opt_int(s.period_pnl) == total_pnl(views(trades@), won.token_15@, won.token_5@),
            s.results.len() == trades.len(),
            forall|i: int|
                0 <= i < trades.len() ==> is_result(
                    #[trigger] s.results@[i],
                    trades@[i]@,
                    total_pnl(views(trades@.take(i)), won.token_15@, won.token_5@),
                    won.token_15@,
                    won.token_5@,
                ),
            s.redemptions@.map_values(|r: Redemption| r@) == if old(self).arb.auto_redeem && old(
                self,
            ).config.polymarket.proxy_wallet_address is Some && !old(
                self,
            ).config.strategy.simulation_mode {
                all_redemptions(views(trades@), won.token_15@, won.token_5@)
            } else {
                seq![]
            },
    {
        let redeem = redeems(
            self.arb.auto_redeem,
            self.config.polymarket.proxy_wallet_address.is_some(),
            self.config.strategy.simulation_mode,
        );
        let s = settle(trades, won, redeem);
        self.cumulative_pnl = add_pnl(self.cumulative_pnl, s.period_pnl);
        s
    }
}

/// Seconds between two overlaps of a symbol.
pub const SYMBOL_PAUSE_SECS: u64 = 5;

/// What to do once it is known which of a trade's two orders filled.
#[derive(Debug, Clone, Copy, PartialEq, Eq, Structural)]
pub enum FillAction {
    /// Keep both legs.
    Keep,
    /// Sell the first leg and cancel the second order.
    SellFirstCancelSecond,
    /// Sell the second leg and cancel the first order.
    SellSecondCancelFirst,
    /// Cancel both orders.
    CancelBoth,
}

/// The decision on two orders of which some filled.
pub open spec fn fill_action(first_filled: bool, second_filled: bool) -> FillAction {
    if first_filled && second_filled {
        FillAction::Keep
    } else if first_filled {
        FillAction::SellFirstCancelSecond
    } else if second_filled {
        FillAction::SellSecondCancelFirst
    } else {
        FillAction::CancelBoth
    }
}

/// Decides on the two orders of a trade after the time to fill has passed, so that no
/// single leg is held.
pub fn verify_fills(first_filled: bool, second_filled: bool) -> (action: FillAction)
    ensures
        action == match (first_filled, second_filled) {
            (true, true) => FillAction::Keep,
            (true, false) => FillAction::SellFirstCancelSecond,
            (false, true) => FillAction::SellSecondCancelFirst,
            (false, false) => FillAction::CancelBoth,
        },
        action == fill_action(first_filled, second_filled),
{
    if first_filled {
        if second_filled {
            FillAction::Keep
        } else {
            FillAction::SellFirstCancelSecond
        }
    } else {
        if second_filled {
            FillAction::SellSecondCancelFirst
        } else {
            FillAction::CancelBoth
        }
    }
}

/// Whether a trade is still held: nothing, or to keep it, was decided on its orders.
pub open spec fn is_held(actions: Seq<FillAction>, i: int) -> bool {
    i >= actions.len() || actions[i] == FillAction::Keep
}

/// The trades, from `from` on, that are still held.
pub open spec fn held_from<T>(trades: Seq<T>, actions: Seq<FillAction>, from: int) -> Seq<T>
    decreases trades.len() - from,
{
    if !(0 <= from < trades.len()) {
        seq![]
    } else if is_held(actions, from) {
        seq![trades[from]] + held_from(trades, actions, from + 1)
    } else {
        held_from(trades, actions, from + 1)
    }
}

/// Takes back the trades whose legs were sold or cancelled, so that only whole pairs are
/// settled. The decisions stand in the order of the trades; a trade behind the last one is
/// held.
pub fn take_back(trades: &mut Vec<TradeRecord>, actions: &Vec<FillAction>)
    ensures
        final(trades)@ == held_from(old(trades)@, actions@, 0),
{
    let ghost all = trades@;
    let mut i: usize = trades.len();
    assert(all.take(i as int) + held_from(all, actions@, i as int) =~= all);
    while i > 0
        invariant
            i <= all.len(),
            trades@ == all.take(i as int) + held_from(all, actions@, i as int),
        decreases i,
    {
        i -= 1;
        let keep = i >= actions.len() || matches!(actions[i], FillAction::Keep);
        if !keep {
            trades.remove(i);
        }
        assert(trades@ =~= all.take(i as int) + held_from(all, actions@, i as int));
    }
    assert(trades@ =~= held_from(all, actions@, 0));
}

/// Exactly the trades that are held are left to settle, and all of them where every pair
/// filled.
pub proof fn law_only_held_trades_are_left<T>(trades: Seq<T>, actions: Seq<FillAction>)
    ensures
        forall|t: T| #[trigger]
            held_from(trades, actions, 0).contains(t) <==> exists|i: int|
                0 <= i < trades.len() && #[trigger] is_held(actions, i) && trades[i] == t,
        (forall|i: int| 0 <= i < actions.len() ==> actions[i] == FillAction::Keep) ==> held_from(
            trades,
            actions,
            0,
        ) == trades,
{
    lemma_held_from(trades, actions, 0);
    assert(trades.skip(0) =~= trades);
}

proof fn lemma_held_from<T>(trades: Seq<T>, actions: Seq<FillAction>, from: int)
    requires
        0 <= from <= trades.len(),
    ensures
        forall|t: T| #[trigger]
            held_from(trades, actions, from).contains(t) <==> exists|i: int|
                from <= i < trades.len() && #[trigger] is_held(actions, i) && trades[i] == t,
        (forall|i: int| 0 <= i < actions.len() ==> actions[i] == FillAction::Keep) ==> held_from(
            trades,
            actions,
            from,
        ) == trades.skip(from),
    decreases trades.len() - from,
{
    if from < trades.len() {
        lemma_held_from(trades, actions, from + 1);
        let rest = held_from(trades, actions, from + 1);
        let all = held_from(trades, actions, from);
        assert(trades.skip(from) =~= seq![trades[from]] + trades.skip(from + 1));
        assert forall|t: T| #[trigger] all.contains(t) <==> exists|i: int|
            from <= i < trades.len() && #[trigger] is_held(actions, i) && trades[i] == t by {
            if all.contains(t) {
                let k = choose|k: int| 0 <= k < all.len() && all[k] == t;
                if is_held(actions, from) && k == 0 {
                    assert(trades[from] == t);
                } else {
                    assert(rest[if is_held(actions, from) {
                        k - 1
                    } else {
                        k
                    }] == t);
                    assert(rest.contains(t));
                }
            }
            if exists|i: int|
                from <= i < trades.len() && #[trigger] is_held(actions, i) && trades[i] == t {
                let i = choose|i: int|
                    from <= i < trades.len() && #[trigger] is_held(actions, i) && trades[i] == t;
                if i == from {
                    assert(all[0] == t);
                } else {
                    assert(rest.contains(t));
                    let k = choose|k: int| 0 <= k < rest.len() && rest[k] == t;
                    assert(all[if is_held(actions, from) {
                        k + 1
                    } else {
                        k
                    }] == t);
                }
            }
        }
    }
}

/// Trades are taken back one for one, the others keeping their order: one more trade behind
/// the others stays exactly when nothing, or to keep it, was decided on its orders.
pub proof fn law_one_more_trade_stays_or_goes<T>(
    trades: Seq<T>,
    trade: T,
    actions: Seq<FillAction>,
)
    ensures
        held_from(Seq::<T>::empty(), actions, 0).len() == 0,
        trades.len() >= actions.len() || actions[trades.len() as int] == FillAction::Keep
            ==> held_from(trades.push(trade), actions, 0) == held_from(trades, actions, 0).push(
            trade,
        ),
        trades.len() < actions.len() && actions[trades.len() as int] != FillAction::Keep
            ==> held_from(trades.push(trade), actions, 0) == held_from(trades, actions, 0),
{
    lemma_one_more_trade(trades, trade, actions, 0);
}

proof fn lemma_one_more_trade<T>(trades: Seq<T>, trade: T, actions: Seq<FillAction>, from: int)
    requires
        0 <= from <= trades.len(),
    ensures
        held_from(trades.push(trade), actions, from) == if is_held(actions, trades.len() as int) {
            held_from(trades, actions, from).push(trade)
        } else {
            held_from(trades, actions, from)
        },
    decreases trades.len() - from,
{
    let more = trades.push(trade);
    if from < trades.len() {
        lemma_one_more_trade(trades, trade, actions, from + 1);
        assert(more[from] == trades[from]);
        let rest = held_from(trades, actions, from + 1);
        assert((seq![trades[from]] + rest).push(trade) =~= seq![trades[from]] + rest.push(trade));
    } else {
        assert(held_from(more, actions, from + 1) =~= seq![]);
        assert(held_from(trades, actions, from) =~= seq![]);
        assert(seq![trade] + Seq::<T>::empty() =~= Seq::<T>::empty().push(trade));
    }
}

impl ArbStrategy {
    /// Known prices-to-beat of a symbol's two periods make a match exactly when neither
    /// exceeds the other by more than the symbol's tolerance; before the delay is over, or
    /// while one is not known, there is none. The match holds the prices of the symbol's own
    /// periods.
    pub proof fn law_match_rests_on_both_prices(
        &self,
        symbol: Seq<char>,
        candidate: Candidate,
        now: i64,
        r: Result<Matched, Retry>,
    )
        requires
            self.is_check(symbol, candidate, now, r),
        ensures
            ({
                let w = candidate.window;
                let delay = self.arb.price_to_beat.delay_secs;
                let a = self.price_cache_15@[(symbol, w.period_15 as int)];
                let b = self.price_cache_5@[(symbol, w.period_5 as int)];
                let allowed = tolerance_of(self.arb.tolerances@, symbol);
                let known = self.price_cache_15@.contains_key((symbol, w.period_15 as int))
                    && self.price_cache_5@.contains_key((symbol, w.period_5 as int));
                let may = now >= w.period_15 + delay && now >= w.period_5 + delay;
                &&& r is Ok <==> may && known && a - b <= allowed && b - a <= allowed
                &&& r matches Ok(m) ==> m.candidate == candidate && m.price_15@ == a && m.price_5@
                    == b
                &&& !may ==> r->Err_0.reason == WaitReason::PriceTooEarly
                &&& may && !known ==> r->Err_0.reason == WaitReason::PriceUnknown
                    && r->Err_0.sleep_secs == self.arb.price_to_beat.poll_interval_secs
                &&& may && known && r is Err ==> r->Err_0.reason == WaitReason::PricesApart
                    && r->Err_0.sleep_secs == 5
            }),
    {
    }
}

/// The symbols that are traded are the configured ones, in order.
pub proof fn law_configured_symbols_are_traded(config: Config, i: int)
    requires
        0 <= i < config.strategy.symbols.len(),
    ensures
        symbols_of(config).len() == config.strategy.symbols.len(),
        symbols_of(config)[i] == config.strategy.symbols@[i]@,
{
}

/// No single leg is held: a leg is sold exactly when it alone filled, an order is cancelled
/// exactly when it did not fill, and a pair is kept exactly when both did. With the two legs
/// exchanged, so is the decision.
pub proof fn law_no_single_leg_is_held(first_filled: bool, second_filled: bool)
    ensures
        ({
            let action = fill_action(first_filled, second_filled);
            let sells_first = action == FillAction::SellFirstCancelSecond;
            let sells_second = action == FillAction::SellSecondCancelFirst;
            let cancels_first = sells_second || action == FillAction::CancelBoth;
            let cancels_second = sells_first || action == FillAction::CancelBoth;
            &&& sells_first <==> first_filled && !second_filled
            &&& sells_second <==> second_filled && !first_filled
            &&& cancels_first <==> !first_filled
            &&& cancels_second <==> !second_filled
            &&& action == FillAction::Keep <==> first_filled && second_filled
            &&& sells_first <==> fill_action(second_filled, first_filled)
                == FillAction::SellSecondCancelFirst
        }),
{
}

} // verus!
