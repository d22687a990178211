//! Trading one overlap: both legs are bought whenever their asks add up to less than
//! the threshold, at most once per cooldown, until the overlap ends.

use vstd::prelude::*;
use vstd::string::*;

use crate::decimal::{parse_chars, spells_no_number, Decimal, LIMIT};
#[allow(unused_imports)]
use crate::decimal::{decimal_value, fixed4_text, is_not_a_number, opt_units};
#[allow(unused_imports)]
use crate::discovery::on_calendar;
use crate::discovery::{utc_timestamp, MARKET_15M_DURATION_SECS};
use crate::models::{OrderRequest, TradeRecord};
use crate::overlap::Overlap;
use crate::text::to_chars;
use crate::ws::{Price, PriceTable};
#[allow(unused_imports)]
use crate::ws::{PriceView, Quote};

verus! {

/// Milliseconds between two looks at the prices.
pub const LIVE_PRICE_POLL_MS: u64 = 10;

/// Nanoseconds in a second.
pub const NANOS_PER_SEC: u64 = 1_000_000_000;

/// An overlap, as values.
#[verifier::ext_equal]
pub struct OverlapView {
    pub symbol: Seq<char>,
    pub cid_15: Seq<char>,
    pub cid_5: Seq<char>,
    pub t15_up: Seq<char>,
    pub t15_down: Seq<char>,
    pub t5_up: Seq<char>,
    pub t5_down: Seq<char>,
    pub period_15: int,
    pub period_5: int,
    pub price_15: int,
    pub price_5: int,
}

impl View for Overlap {
    type V = OverlapView;

    open spec fn view(&self) -> OverlapView {
        OverlapView {
            symbol: self.symbol@,
            cid_15: self.cid_15@,
            cid_5: self.cid_5@,
            t15_up: self.t15_up@,
            t15_down: self.t15_down@,
            t5_up: self.t5_up@,
            t5_down: self.t5_down@,
            period_15: self.period_15 as int,
            period_5: self.period_5 as int,
            price_15: self.price_15@,
            price_5: self.price_5@,
        }
    }
}

/// A trade, as values.
#[verifier::ext_equal]
pub struct TradeView {
    pub symbol: Seq<char>,
    pub period_15: int,
    pub period_5: int,
    pub cid_15: Seq<char>,
    pub cid_5: Seq<char>,
    pub leg1_token: Seq<char>,
    pub leg1_price: int,
    pub leg1_cid: Seq<char>,
    pub leg1_outcome: Seq<char>,
    pub leg2_token: Seq<char>,
    pub leg2_price: int,
    pub leg2_cid: Seq<char>,
    pub leg2_outcome: Seq<char>,
    pub size: Option<int>,
}

impl View for TradeRecord {
    type V = TradeView;

    open spec fn view(&self) -> TradeView {
        TradeView {
            symbol: self.symbol@,
            period_15: self.period_15 as int,
            period_5: self.period_5 as int,
            cid_15: self.cid_15@,
            cid_5: self.cid_5@,
            leg1_token: self.leg1_token@,
            leg1_price: self.leg1_price@,
            leg1_cid: self.leg1_cid@,
            leg1_outcome: self.leg1_outcome@,
            leg2_token: self.leg2_token@,
            leg2_price: self.leg2_price@,
            leg2_cid: self.leg2_cid@,
            leg2_outcome: self.leg2_outcome@,
            size: opt_units(self.size),
        }
    }
}

/// An order, as values.
#[verifier::ext_equal]
pub struct OrderView {
    pub token_id: Seq<char>,
    pub side: Seq<char>,
    pub size: Seq<char>,
    pub price: Seq<char>,
    pub order_type: Seq<char>,
}

impl View for OrderRequest {
    type V = OrderView;

    open spec fn view(&self) -> OrderView {
        OrderView {
            token_id: self.token_id@,
            side: self.side@,
            size: self.size@,
            price: self.price@,
            order_type: self.order_type@,
        }
    }
}

/// Which outcomes are bought: that of the 15-minute market first.
#[derive(Debug, Clone, Copy, PartialEq, Eq, Structural)]
pub enum Pair {
    UpDown,
    DownUp,
}

/// The ask of a token, where it is known and an amount.
pub open spec fn ask_of(table: Map<Seq<char>, Quote>, id: Seq<char>) -> Option<int> {
    if table.contains_key(id) {
        match table[id].ask {
            Some(PriceView::Amount(v)) => Some(v),
            _ => None,
        }
    } else {
        None
    }
}

/// Whether two asks are known and add up to less than a threshold.
pub open spec fn is_below(first: Option<int>, second: Option<int>, threshold: int) -> bool {
    first is Some && second is Some && first->0 + second->0 < threshold
}

/// Two legs and what they cost a share, in units.
pub struct LegPrices {
    pub pair: Pair,
    pub first: int,
    pub second: int,
}

/// The legs to buy: up on the longer market with down on the shorter one where that is
/// below the threshold, or else the reverse where that is.
pub open spec fn legs_to_buy(
    overlap: OverlapView,
    table: Map<Seq<char>, Quote>,
    threshold: int,
) -> Option<LegPrices> {
    let up_15 = ask_of(table, overlap.t15_up);
    let down_15 = ask_of(table, overlap.t15_down);
    let up_5 = ask_of(table, overlap.t5_up);
    let down_5 = ask_of(table, overlap.t5_down);
    if is_below(up_15, down_5, threshold) {
        Some(LegPrices { pair: Pair::UpDown, first: up_15->0, second: down_5->0 })
    } else if is_below(down_15, up_5, threshold) {
        Some(LegPrices { pair: Pair::DownUp, first: down_15->0, second: up_5->0 })
    } else {
        None
    }
}

/// The token of the leg on the 15-minute market.
pub open spec fn first_token(overlap: OverlapView, pair: Pair) -> Seq<char> {
    match pair {
        Pair::UpDown => overlap.t15_up,
        Pair::DownUp => overlap.t15_down,
    }
}

/// The token of the leg on the 5-minute market.
pub open spec fn second_token(overlap: OverlapView, pair: Pair) -> Seq<char> {
    match pair {
        Pair::UpDown => overlap.t5_down,
        Pair::DownUp => overlap.t5_up,
    }
}

/// The limit order that buys shares of a token.
pub open spec fn buy_order(token_id: Seq<char>, shares: Seq<char>, price: int) -> OrderView {
    OrderView {
        token_id,
        side: "BUY"@,
        size: shares,
        price: fixed4_text(price),
        order_type: "GTC"@,
    }
}

/// The size, in units, that the configured number of shares stands for: zero where it
/// cannot be read, and nothing where it is no number, or one too large to count.
pub open spec fn size_of(shares: Seq<char>) -> Option<int> {
    if is_not_a_number(shares) {
        None
    } else {
        match decimal_value(shares) {
            Some(v) => if -LIMIT < v < LIMIT {
                Some(v)
            } else {
                None
            },
            None => Some(0),
        }
    }
}

/// The record of a trade.
pub open spec fn trade_of(overlap: OverlapView, legs: LegPrices, size: Option<int>) -> TradeView {
    TradeView {
        symbol: overlap.symbol,
        period_15: overlap.period_15,
        period_5: overlap.period_5,
        cid_15: overlap.cid_15,
        cid_5: overlap.cid_5,
        leg1_token: first_token(overlap, legs.pair),
        leg1_price: legs.first,
        leg1_cid: overlap.cid_15,
        leg1_outcome: match legs.pair {
            Pair::UpDown => "Up"@,
            Pair::DownUp => "Down"@,
        },
        leg2_token: second_token(overlap, legs.pair),
        leg2_price: legs.second,
        leg2_cid: overlap.cid_5,
        leg2_outcome: match legs.pair {
            Pair::UpDown => "Down"@,
            Pair::DownUp => "Up"@,
        },
        size,
    }
}

/// A round, as values.
#[verifier::ext_equal]
pub struct RoundView {
    pub overlap: OverlapView,
    pub threshold: int,
    pub shares: Seq<char>,
    pub interval_secs: int,
    pub simulation: bool,
    /// When the last trade was made, in nanoseconds.
    pub last_trade_at: Option<int>,
    /// Orders that are out and not reported on.
    pub pending: Option<LegPrices>,
    pub trades: Seq<TradeView>,
}

/// What to do next, as values.
pub enum StepView {
    Finished,
    Wait,
    Simulated,
    Place(OrderView, OrderView),
}

impl RoundView {
    /// The overlap ends with its 15-minute market.
    pub open spec fn is_over(self, now: int) -> bool {
        now >= self.overlap.period_15 + MARKET_15M_DURATION_SECS
    }

    /// Fewer whole seconds than the interval have passed since the last trade.
    pub open spec fn is_cooling(self, at: int) -> bool {
        match self.last_trade_at {
            Some(last) => if at >= last {
                (at - last) / (NANOS_PER_SEC as int) < self.interval_secs
            } else {
                0 < self.interval_secs
            },
            None => false,
        }
    }

    /// The round after a trade.
    pub open spec fn traded(self, legs: LegPrices, at: int) -> RoundView {
        RoundView {
            last_trade_at: Some(at),
            pending: None,
            trades: self.trades.push(trade_of(self.overlap, legs, size_of(self.shares))),
            ..self
        }
    }

    /// What a look at the clock and the prices leads to.
    pub open spec fn ticked(self, now: int, at: int, table: Map<Seq<char>, Quote>) -> (
        RoundView,
        StepView,
    ) {
        let idle = RoundView { pending: None, ..self };
        if self.is_over(now) {
            (idle, StepView::Finished)
        } else if self.is_cooling(at) {
            (idle, StepView::Wait)
        } else {
            match legs_to_buy(self.overlap, table, self.threshold) {
                None => (idle, StepView::Wait),
                Some(legs) => if self.simulation {
                    (self.traded(legs, at), StepView::Simulated)
                } else {
                    (
                        RoundView { pending: Some(legs), ..self },
                        StepView::Place(
                            buy_order(
                                first_token(self.overlap, legs.pair),
                                self.shares,
                                legs.first,
                            ),
                            buy_order(
                                second_token(self.overlap, legs.pair),
                                self.shares,
                                legs.second,
                            ),
                        ),
                    )
                },
            }
        }
    }

    /// What the fate of the two orders leads to: a trade if both were taken.
    pub open spec fn reported(self, first_ok: bool, second_ok: bool, at: int) -> RoundView {
        match self.pending {
            Some(legs) if first_ok && second_ok => self.traded(legs, at),
            _ => RoundView { pending: None, ..self },
        }
    }
}

#[derive(Debug, Clone, Copy)]
struct Legs {
    pair: Pair,
    first: Decimal,
    second: Decimal,
}

impl View for Legs {
    type V = LegPrices;

    closed spec fn view(&self) -> LegPrices {
        LegPrices { pair: self.pair, first: self.first@, second: self.second@ }
    }
}

/// One overlap while it is traded.
#[derive(Debug)]
pub struct Round {
    overlap: Overlap,
    threshold: Decimal,
    shares: String,
    interval_secs: u64,
    simulation: bool,
    last_trade_at: Option<u64>,
    pending: Option<Legs>,
    trades: Vec<TradeRecord>,
}

impl View for Round {
    type V = RoundView;

    closed spec fn view(&self) -> RoundView {
        RoundView {
            overlap: self.overlap@,
            threshold: self.threshold@,
            shares: self.shares@,
            interval_secs: self.interval_secs as int,
            simulation: self.simulation,
            last_trade_at: match self.last_trade_at {
                Some(at) => Some(at as int),
                None => None,
            },
            pending: match self.pending {
                Some(legs) => Some(legs@),
                None => None,
            },
            trades: self.trades@.map_values(|t: TradeRecord| t@),
        }
    }
}

/// What to do next.
#[derive(Debug)]
pub enum RoundStep {
    /// The overlap has ended.
    Finished,
    /// Look again after a short pause.
    Wait,
    /// A trade was recorded without orders; look again after a short pause.
    Simulated,
    /// Place both orders and report on them.
    Place(OrderRequest, OrderRequest),
}

impl View for RoundStep {
    type V = StepView;

    open spec fn view(&self) -> StepView {
        match self {
            RoundStep::Finished => StepView::Finished,
            RoundStep::Wait => StepView::Wait,
            RoundStep::Simulated => StepView::Simulated,
            RoundStep::Place(first, second) => StepView::Place(first@, second@),
        }
    }
}

fn ask(prices: &PriceTable, id: &str) -> (ask: Option<Decimal>)
    ensures
        opt_units(ask) == ask_of(prices@, id@),
{
    match prices.get(id) {
        Some(p) => match p.ask {
            Some(Price::Amount(ask)) => Some(ask),
            _ => None,
        },
        None => None,
    }
}

fn below(
    pair: Pair,
    first: Option<Decimal>,
    second: Option<Decimal>,
    threshold: Decimal,
) -> (legs: Option<Legs>)
    ensures
        match legs {
            Some(legs) => is_below(opt_units(first), opt_units(second), threshold@) && legs@
                == (LegPrices { pair, first: first->0@, second: second->0@ }),
            None => !is_below(opt_units(first), opt_units(second), threshold@),
        },
{
    match first {
        Some(a) => match second {
            Some(b) => if a.units() + b.units() < threshold.units() {
                Some(Legs { pair, first: a, second: b })
            } else {
                None
            },
            None => None,
        },
        None => None,
    }
}

fn read_size(shares: &str) -> (size: Option<Decimal>)
    ensures
        opt_units(size) == size_of(shares@),
{
    let chars = to_chars(shares);
    if spells_no_number(&chars) {
        return None;
    }
    match parse_chars(&chars) {
        Some(size) => if -LIMIT < size.units() && size.units() < LIMIT {
            Some(size)
        } else {
            None
        },
        None => Some(Decimal::from_units(0)),
    }
}

fn order(token_id: &str, shares: &str, price: Decimal) -> (order: OrderRequest)
    ensures
        order@ == buy_order(token_id@, shares@, price@),
{
    OrderRequest {
        token_id: token_id.to_owned(),
        side: "BUY".to_owned(),
        size: shares.to_owned(),
        price: price.to_fixed4(),
        order_type: "GTC".to_owned(),
    }
}

impl Round {
    /// A round in which nothing has been traded yet.
    pub fn new(
        overlap: Overlap,
        threshold: Decimal,
        shares: &str,
        interval_secs: u64,
        simulation: bool,
    ) -> (round: Self)
        ensures
            round@ == (RoundView {
                overlap: overlap@,
                threshold: threshold@,
                shares: shares@,
                interval_secs: interval_secs as int,
                simulation,
                last_trade_at: None,
                pending: None,
                trades: seq![],
            }),
    {
        let round = Round {
            overlap,
            threshold,
            shares: shares.to_owned(),
            interval_secs,
            simulation,
            last_trade_at: None,
            pending: None,
            trades: Vec::new(),
        };
        assert(round@.trades =~= seq![]);
        round
    }

    fn legs(&self, prices: &PriceTable) -> (legs: Option<Legs>)
        ensures
            match legs {
                Some(legs) => legs_to_buy(self@.overlap, prices@, self@.threshold) == Some(legs@),
                None => legs_to_buy(self@.overlap, prices@, self@.threshold) is None,
            },
    {
        let up_15 = ask(prices, self.overlap.t15_up.as_str());
        let down_15 = ask(prices, self.overlap.t15_down.as_str());
        let up_5 = ask(prices, self.overlap.t5_up.as_str());
        let down_5 = ask(prices, self.overlap.t5_down.as_str());
        match below(Pair::UpDown, up_15, down_5, self.threshold) {
            Some(legs) => Some(legs),
            None => below(Pair::DownUp, down_15, up_5, self.threshold),
        }
    }

    fn cooling(&self, at: u64) -> (cooling: bool)
        ensures
            cooling == self@.is_cooling(at as int),
    {
        match self.last_trade_at {
            Some(last) => {
                let elapsed: u64 = if at >= last {
                    (at - last) / NANOS_PER_SEC
                } else {
                    0
                };
                elapsed < self.interval_secs
            },
            None => false,
        }
    }

    fn record(&mut self, legs: Legs, at: u64)
        ensures
            final(self)@ == old(self)@.traded(legs@, at as int),
    {
        let ghost before = self@;
        let size = read_size(self.shares.as_str());
        let (leg1_token, leg1_outcome, leg2_token, leg2_outcome) = match legs.pair {
            Pair::UpDown => (
                self.overlap.t15_up.clone(),
                "Up".to_owned(),
                self.overlap.t5_down.clone(),
                "Down".to_owned(),
            ),
            Pair::DownUp => (
                self.overlap.t15_down.clone(),
                "Down".to_owned(),
                self.overlap.t5_up.clone(),
                "Up".to_owned(),
            ),
        };
        let trade = TradeRecord {
            symbol: self.overlap.symbol.clone(),
            period_15: self.overlap.period_15,
            period_5: self.overlap.period_5,
            cid_15: self.overlap.cid_15.clone(),
            cid_5: self.overlap.cid_5.clone(),
            leg1_token,
            leg1_price: legs.first,
            leg1_cid: self.overlap.cid_15.clone(),
            leg1_outcome,
            leg2_token,
            leg2_price: legs.second,
            leg2_cid: self.overlap.cid_5.clone(),
            leg2_outcome,
            size,
        };
        assert(trade@ == trade_of(before.overlap, legs@, size_of(before.shares)));
        self.trades.push(trade);
        self.last_trade_at = Some(at);
        self.pending = None;
        assert(self@.trades =~= before.trades.push(trade@));
        assert(self@ =~= before.traded(legs@, at as int));
    }

    /// Looks at the clock and the prices: `now` in seconds since the epoch, `at` in
    /// nanoseconds of a clock that does not go back.
    pub fn tick(&mut self, now: i64, at: u64, prices: &PriceTable) -> (step: RoundStep)
        ensures
            (final(self)@, step@) == old(self)@.ticked(now as int, at as int, prices@),
    {
        self.pending = None;
        if now as i128 >= self.overlap.period_15 as i128 + MARKET_15M_DURATION_SECS as i128 {
            return RoundStep::Finished;
        }
        if self.cooling(at) {
            return RoundStep::Wait;
        }
        match self.legs(prices) {
            None => RoundStep::Wait,
            Some(legs) => if self.simulation {
                self.record(legs, at);
                RoundStep::Simulated
            } else {
                let (first, second) = match legs.pair {
                    Pair::UpDown => (self.overlap.t15_up.as_str(), self.overlap.t5_down.as_str()),
                    Pair::DownUp => (self.overlap.t15_down.as_str(), self.overlap.t5_up.as_str()),
                };
                let order1 = order(first, self.shares.as_str(), legs.first);
                let order2 = order(second, self.shares.as_str(), legs.second);
                self.pending = Some(legs);
                RoundStep::Place(order1, order2)
            },
        }
    }

    /// Looks at the prices at the moment that the clock shows.
    pub fn tick_now(&mut self, at: u64, prices: &PriceTable) -> (step: RoundStep)
        ensures
            exists|now: int| #[trigger]
                on_calendar(now) && (final(self)@, step@) == old(self)@.ticked(
                    now,
                    at as int,
                    prices@,
                ),
    {
        let now = utc_timestamp();
        assert(on_calendar(now as int));
        self.tick(now, at, prices)
    }

    /// Reports whether the two orders of the last step were taken, at `at`. Returns
    /// whether that made a trade.
    pub fn report(&mut self, first_ok: bool, second_ok: bool, at: u64) -> (traded: bool)
        ensures
            final(self)@ == old(self)@.reported(first_ok, second_ok, at as int),
            traded == (old(self)@.pending is Some && first_ok && second_ok),
    {
        match self.pending {
            Some(legs) => if first_ok && second_ok {
                self.record(legs, at);
                true
            } else {
                self.pending = None;
                false
            },
            None => false,
        }
    }

    /// The trades of the round, in order.
    pub fn into_trades(self) -> (trades: Vec<TradeRecord>)
        ensures
            trades@.map_values(|t: TradeRecord| t@) == self@.trades,
    {
        self.trades
    }
}

impl RoundView {
    /// Whether a trade is one of this round's: opposite outcomes of its two markets, for
    /// less than the threshold a share.
    pub open spec fn is_own_trade(self, trade: TradeView) -> bool {
        exists|legs: LegPrices| #[trigger]
            trade_of(self.overlap, legs, size_of(self.shares)) == trade && legs.first + legs.second
                < self.threshold
    }

    /// Every trade of the round, and the pair of orders that is out, cost less than the
    /// threshold.
    pub open spec fn is_sound(self) -> bool {
        &&& forall|i: int| 0 <= i < self.trades.len() ==> self.is_own_trade(#[trigger] self.trades[i])
        &&& self.pending matches Some(legs) ==> legs.first + legs.second < self.threshold
    }
}

proof fn lemma_traded_is_sound(round: RoundView, legs: LegPrices, at: int)
    requires
        round.is_sound(),
        legs.first + legs.second < round.threshold,
    ensures
        round.traded(legs, at).is_sound(),
{
    let after = round.traded(legs, at);
    assert forall|i: int| 0 <= i < after.trades.len() implies after.is_own_trade(
        #[trigger] after.trades[i],
    ) by {
        if i < round.trades.len() {
            assert(after.trades[i] == round.trades[i]);
            assert(round.is_own_trade(round.trades[i]));
            let l = choose|l: LegPrices| #[trigger]
                trade_of(round.overlap, l, size_of(round.shares)) == round.trades[i] && l.first
                    + l.second < round.threshold;
            assert(trade_of(after.overlap, l, size_of(after.shares)) == after.trades[i]);
        } else {
            assert(trade_of(after.overlap, legs, size_of(after.shares)) == after.trades[i]);
        }
    }
}

proof fn lemma_same_trades_are_sound(round: RoundView, after: RoundView)
    requires
        round.is_sound(),
        after.trades == round.trades,
        after.overlap == round.overlap,
        after.shares == round.shares,
        after.threshold == round.threshold,
        after.pending matches Some(legs) ==> legs.first + legs.second < after.threshold,
    ensures
        after.is_sound(),
{
    assert forall|i: int| 0 <= i < after.trades.len() implies after.is_own_trade(
        #[trigger] after.trades[i],
    ) by {
        assert(round.is_own_trade(round.trades[i]));
        let l = choose|l: LegPrices| #[trigger]
            trade_of(round.overlap, l, size_of(round.shares)) == round.trades[i] && l.first
                + l.second < round.threshold;
        assert(trade_of(after.overlap, l, size_of(after.shares)) == after.trades[i]);
    }
}

/// In every state of a round its trades are pairs of opposite outcomes, each bought for
/// less than the threshold: it starts so, and neither a look at the prices nor a report
/// changes it.
pub proof fn law_trades_stay_below_threshold(
    round: RoundView,
    now: int,
    at: int,
    table: Map<Seq<char>, Quote>,
    first_ok: bool,
    second_ok: bool,
)
    ensures
        round.trades.len() == 0 && round.pending is None ==> round.is_sound(),
        round.is_sound() ==> round.ticked(now, at, table).0.is_sound(),
        round.is_sound() ==> round.reported(first_ok, second_ok, at).is_sound(),
{
    if round.is_sound() {
        let legs = legs_to_buy(round.overlap, table, round.threshold);
        if legs is Some {
            lemma_traded_is_sound(round, legs->0, at);
            lemma_same_trades_are_sound(round, RoundView { pending: legs, ..round });
        }
        lemma_same_trades_are_sound(round, RoundView { pending: None, ..round });
        if round.pending is Some {
            lemma_traded_is_sound(round, round.pending->0, at);
        }
    }
}

/// A simulated round places no orders, whatever the prices.
pub proof fn law_simulation_places_nothing(
    round: RoundView,
    now: int,
    at: int,
    table: Map<Seq<char>, Quote>,
)
    requires
        round.simulation,
    ensures
        !(round.ticked(now, at, table).1 is Place),
        round.pending is None ==> round.ticked(now, at, table).0.pending is None,
{
}

/// Within the interval after a trade there is no other: the round waits, or ends,
/// whatever the prices.
pub proof fn law_cooldown_keeps_trades_apart(
    round: RoundView,
    legs: LegPrices,
    traded_at: int,
    now: int,
    at: int,
    table: Map<Seq<char>, Quote>,
)
    requires
        traded_at <= at,
        (at - traded_at) / (NANOS_PER_SEC as int) < round.interval_secs,
    ensures
        ({
            let after = round.traded(legs, traded_at);
            &&& after.ticked(now, at, table).0 == after
            &&& after.ticked(now, at, table).1 is Wait || after.ticked(now, at, table).1 is Finished
        }),
{
}

/// Once its 15-minute market has ended, a round neither trades nor places orders.
pub proof fn law_nothing_after_the_end(
    round: RoundView,
    now: int,
    at: int,
    table: Map<Seq<char>, Quote>,
)
    requires
        now >= round.overlap.period_15 + MARKET_15M_DURATION_SECS,
    ensures
        round.ticked(now, at, table).1 is Finished,
        round.ticked(now, at, table).0.trades == round.trades,
{
}

/// Trades are never dropped or changed, and each step or report adds at most one.
pub proof fn law_trades_only_grow(
    round: RoundView,
    now: int,
    at: int,
    table: Map<Seq<char>, Quote>,
    first_ok: bool,
    second_ok: bool,
)
    ensures
        ({
            let ticked = round.ticked(now, at, table).0.trades;
            let reported = round.reported(first_ok, second_ok, at).trades;
            &&& round.trades.is_prefix_of(ticked)
            &&& ticked.len() <= round.trades.len() + 1
            &&& round.trades.is_prefix_of(reported)
            &&& reported.len() <= round.trades.len() + 1
        }),
{
}

/// Whether a table knows an amount as the ask of a token.
pub open spec fn asks(table: Map<Seq<char>, Quote>, id: Seq<char>, amount: int) -> bool {
    table.contains_key(id) && table[id].ask == Some(PriceView::Amount(amount))
}

/// Each leg is bought at the ask of its own token: up on the 15-minute market goes with
/// down on the 5-minute market, and the reverse.
pub proof fn law_each_leg_is_bought_at_its_own_ask(
    overlap: OverlapView,
    table: Map<Seq<char>, Quote>,
    threshold: int,
)
    ensures
        legs_to_buy(overlap, table, threshold) matches Some(legs) ==> {
            &&& legs.first + legs.second < threshold
            &&& legs.pair == Pair::UpDown ==> {
                &&& asks(table, overlap.t15_up, legs.first)
                &&& asks(table, overlap.t5_down, legs.second)
            }
            &&& legs.pair == Pair::DownUp ==> {
                &&& asks(table, overlap.t15_down, legs.first)
                &&& asks(table, overlap.t5_up, legs.second)
            }
        },
{
}

/// Legs are bought exactly when some pair of opposite outcomes is below the threshold, and
/// the pair with the upper side of the 15-minute market goes first.
pub proof fn law_every_chance_is_taken(
    overlap: OverlapView,
    table: Map<Seq<char>, Quote>,
    threshold: int,
    first: int,
    second: int,
)
    requires
        first + second < threshold,
    ensures
        asks(table, overlap.t15_up, first) && asks(table, overlap.t5_down, second) ==> legs_to_buy(
            overlap,
            table,
            threshold,
        ) == Some(LegPrices { pair: Pair::UpDown, first, second }),
        asks(table, overlap.t15_down, first) && asks(table, overlap.t5_up, second) ==> {
            ||| legs_to_buy(overlap, table, threshold) == Some(
                LegPrices { pair: Pair::DownUp, first, second },
            )
            ||| legs_to_buy(overlap, table, threshold) is Some && legs_to_buy(
                overlap,
                table,
                threshold,
            )->0.pair == Pair::UpDown
        },
{
}

/// What is bought rests on the four asks alone: two tables that agree on them lead to the
/// same legs. A higher threshold never gives up a chance.
pub proof fn law_only_the_asks_count(
    overlap: OverlapView,
    table: Map<Seq<char>, Quote>,
    other: Map<Seq<char>, Quote>,
    threshold: int,
    higher: int,
)
    requires
        forall|id: Seq<char>, v: int|
            id == overlap.t15_up || id == overlap.t15_down || id == overlap.t5_up || id
                == overlap.t5_down ==> #[trigger] asks(table, id, v) == asks(other, id, v),
        threshold <= higher,
    ensures
        legs_to_buy(overlap, table, threshold) == legs_to_buy(overlap, other, threshold),
        legs_to_buy(overlap, table, threshold) is Some ==> legs_to_buy(
            overlap,
            table,
            higher,
        ) is Some,
{
    lemma_same_ask(table, other, overlap.t15_up);
    lemma_same_ask(table, other, overlap.t15_down);
    lemma_same_ask(table, other, overlap.t5_up);
    lemma_same_ask(table, other, overlap.t5_down);
}

proof fn lemma_same_ask(
    table: Map<Seq<char>, Quote>,
    other: Map<Seq<char>, Quote>,
    id: Seq<char>,
)
    requires
        forall|v: int| #[trigger] asks(table, id, v) == asks(other, id, v),
    ensures
        ask_of(table, id) == ask_of(other, id),
{
    if ask_of(table, id) is Some {
        assert(asks(table, id, ask_of(table, id)->0));
    }
    if ask_of(other, id) is Some {
        let v = ask_of(other, id)->0;
        assert(asks(table, id, v) == asks(other, id, v));
    }
}

/// Whether an order buys shares of a token, for good until cancelled, at an amount written
/// with four places.
pub open spec fn buys(order: OrderView, token: Seq<char>, shares: Seq<char>, amount: int) -> bool {
    &&& order.token_id == token
    &&& order.side == "BUY"@
    &&& order.size == shares
    &&& order.price == fixed4_text(amount)
    &&& order.order_type == "GTC"@
}

/// Both orders of a step buy opposite outcomes of the two markets, each at the ask of its
/// own token, for less than the threshold together; and these are the legs that a report
/// is about.
pub proof fn law_orders_are_placed_at_their_asks(
    round: RoundView,
    now: int,
    at: int,
    table: Map<Seq<char>, Quote>,
)
    ensures
        ({
            let (after, step) = round.ticked(now, at, table);
            let o = round.overlap;
            step matches StepView::Place(first, second) ==> {
                &&& !round.simulation
                &&& after.pending is Some
                &&& after.trades == round.trades
                &&& after.last_trade_at == round.last_trade_at
                &&& ({
                    let legs = after.pending->0;
                    &&& legs.first + legs.second < round.threshold
                    &&& legs.pair == Pair::UpDown ==> {
                        &&& asks(table, o.t15_up, legs.first)
                        &&& asks(table, o.t5_down, legs.second)
                        &&& buys(first, o.t15_up, round.shares, legs.first)
                        &&& buys(second, o.t5_down, round.shares, legs.second)
                    }
                    &&& legs.pair == Pair::DownUp ==> {
                        &&& asks(table, o.t15_down, legs.first)
                        &&& asks(table, o.t5_up, legs.second)
                        &&& buys(first, o.t15_down, round.shares, legs.first)
                        &&& buys(second, o.t5_up, round.shares, legs.second)
                    }
                })
            }
        }),
{
}

/// Whether a trade is the record of legs of an overlap: tokens, prices, conditions and
/// outcomes each with their own leg, that of the 15-minute market first.
pub open spec fn records(
    trade: TradeView,
    overlap: OverlapView,
    legs: LegPrices,
    size: Option<int>,
) -> bool {
    &&& trade.symbol == overlap.symbol
    &&& trade.period_15 == overlap.period_15
    &&& trade.period_5 == overlap.period_5
    &&& trade.cid_15 == overlap.cid_15
    &&& trade.cid_5 == overlap.cid_5
    &&& trade.leg1_cid == overlap.cid_15
    &&& trade.leg2_cid == overlap.cid_5
    &&& trade.leg1_price == legs.first
    &&& trade.leg2_price == legs.second
    &&& trade.size == size
    &&& legs.pair == Pair::UpDown ==> {
        &&& trade.leg1_token == overlap.t15_up
        &&& trade.leg1_outcome == "Up"@
        &&& trade.leg2_token == overlap.t5_down
        &&& trade.leg2_outcome == "Down"@
    }
    &&& legs.pair == Pair::DownUp ==> {
        &&& trade.leg1_token == overlap.t15_down
        &&& trade.leg1_outcome == "Down"@
        &&& trade.leg2_token == overlap.t5_up
        &&& trade.leg2_outcome == "Up"@
    }
}

/// A report makes a trade exactly when orders are out and both were taken: one record more,
/// of the legs that were out, and the cooldown starts then. Otherwise nothing was traded
/// and no cooldown starts. Either way no orders are out any more, and nothing else changes.
pub proof fn law_report_records_what_was_placed(
    round: RoundView,
    first_ok: bool,
    second_ok: bool,
    at: int,
)
    ensures
        ({
            let after = round.reported(first_ok, second_ok, at);
            &&& after.pending is None
            &&& after.overlap == round.overlap
            &&& after.threshold == round.threshold
            &&& after.shares == round.shares
            &&& after.interval_secs == round.interval_secs
            &&& after.simulation == round.simulation
            &&& if round.pending is Some && first_ok && second_ok {
                &&& after.trades.len() == round.trades.len() + 1
                &&& after.trades.drop_last() == round.trades
                &&& records(
                    after.trades.last(),
                    round.overlap,
                    round.pending->0,
                    size_of(round.shares),
                )
                &&& after.last_trade_at == Some(at)
            } else {
                &&& after.trades == round.trades
                &&& after.last_trade_at == round.last_trade_at
            }
        }),
{
    let after = round.reported(first_ok, second_ok, at);
    if round.pending is Some && first_ok && second_ok {
        assert(after.trades.drop_last() =~= round.trades);
    }
}

/// A simulated step records what would have been placed: legs at their own asks, below the
/// threshold.
pub proof fn law_simulation_records_its_trades(
    round: RoundView,
    now: int,
    at: int,
    table: Map<Seq<char>, Quote>,
)
    ensures
        ({
            let (after, step) = round.ticked(now, at, table);
            let o = round.overlap;
            step is Simulated ==> round.simulation && after.trades.len() == round.trades.len() + 1
                && after.trades.drop_last() == round.trades && after.last_trade_at == Some(at)
                && after.pending is None && exists|legs: LegPrices|
                {
                    &&& #[trigger] records(after.trades.last(), o, legs, size_of(round.shares))
                    &&& legs.first + legs.second < round.threshold
                    &&& legs.pair == Pair::UpDown ==> asks(table, o.t15_up, legs.first) && asks(
                        table,
                        o.t5_down,
                        legs.second,
                    )
                    &&& legs.pair == Pair::DownUp ==> asks(table, o.t15_down, legs.first) && asks(
                        table,
                        o.t5_up,
                        legs.second,
                    )
                }
        }),
{
    let (after, step) = round.ticked(now, at, table);
    if step is Simulated {
        let legs = legs_to_buy(round.overlap, table, round.threshold)->0;
        assert(after.trades.drop_last() =~= round.trades);
        assert(records(after.trades.last(), round.overlap, legs, size_of(round.shares)));
    }
}

/// When a round acts: before the end of its 15-minute market, once the whole interval since
/// the last trade has passed, and while a pair of opposite outcomes is below the threshold,
/// it trades at every look; at any other time it does not, and nothing is recorded.
pub proof fn law_round_acts_exactly_when_it_may(
    round: RoundView,
    now: int,
    at: int,
    table: Map<Seq<char>, Quote>,
)
    requires
        round.interval_secs >= 0,
        round.last_trade_at matches Some(last) ==> last <= at,
    ensures
        ({
            let (after, step) = round.ticked(now, at, table);
            let over = now >= round.overlap.period_15 + 900;
            let rested = round.last_trade_at matches Some(last) ==> at - last
                >= round.interval_secs * 1_000_000_000;
            let chance = legs_to_buy(round.overlap, table, round.threshold) is Some;
            &&& step is Finished <==> over
            &&& step is Place <==> !over && rested && chance && !round.simulation
            &&& step is Simulated <==> !over && rested && chance && round.simulation
            &&& step is Finished || step is Wait ==> after == (RoundView {
                pending: None,
                ..round
            })
            &&& after.overlap == round.overlap
            &&& after.threshold == round.threshold
            &&& after.shares == round.shares
            &&& after.interval_secs == round.interval_secs
            &&& after.simulation == round.simulation
        }),
{
    if let Some(last) = round.last_trade_at {
        let n = NANOS_PER_SEC as int;
        let d = at - last;
        let q = d / n;
        assert(d == n * q + d % n && 0 <= d % n < n) by {
            vstd::arithmetic::div_mod::lemma_fundamental_div_mod(d, n);
        }
        assert(q < round.interval_secs <==> d < round.interval_secs * 1_000_000_000)
            by (nonlinear_arith)
            requires
                d == 1_000_000_000 * q + d % n,
                0 <= d % n < 1_000_000_000,
        ;
    }
}

/// The size of a trade is the number of shares that is configured: what the text spells;
/// zero for a text that spells nothing.
pub proof fn law_size_is_the_configured_shares(shares: Seq<char>)
    ensures
        size_of(shares) matches Some(v) ==> decimal_value(shares) == Some(v) || (decimal_value(
            shares,
        ) is None && v == 0),
        !is_not_a_number(shares) && decimal_value(shares) is None ==> size_of(shares) == Some(0int),
        decimal_value(shares) matches Some(v) ==> -LIMIT < v < LIMIT && !is_not_a_number(shares)
            ==> size_of(shares) == Some(v),
        is_not_a_number(shares) ==> size_of(shares) is None,
{
}

/// The values of a trade, an order and an overlap are those of their own fields.
pub proof fn law_values_are_the_fields(trade: TradeRecord, order: OrderRequest, overlap: Overlap)
    ensures
        trade@.symbol == trade.symbol@ && trade@.period_15 == trade.period_15 && trade@.period_5
            == trade.period_5,
        trade@.cid_15 == trade.cid_15@ && trade@.cid_5 == trade.cid_5@,
        trade@.leg1_token == trade.leg1_token@ && trade@.leg2_token == trade.leg2_token@,
        trade@.leg1_price == trade.leg1_price@ && trade@.leg2_price == trade.leg2_price@,
        trade@.leg1_cid == trade.leg1_cid@ && trade@.leg2_cid == trade.leg2_cid@,
        trade@.leg1_outcome == trade.leg1_outcome@ && trade@.leg2_outcome == trade.leg2_outcome@,
        trade.size is Some <==> trade@.size is Some,
        trade.size is Some ==> trade@.size->0 == trade.size->0@,
        order@.token_id == order.token_id@ && order@.side == order.side@ && order@.size
            == order.size@,
        order@.price == order.price@ && order@.order_type == order.order_type@,
        overlap@.symbol == overlap.symbol@ && overlap@.cid_15 == overlap.cid_15@ && overlap@.cid_5
            == overlap.cid_5@,
        overlap@.t15_up == overlap.t15_up@ && overlap@.t15_down == overlap.t15_down@,
        overlap@.t5_up == overlap.t5_up@ && overlap@.t5_down == overlap.t5_down@,
        overlap@.period_15 == overlap.period_15 && overlap@.period_5 == overlap.period_5,
        overlap@.price_15 == overlap.price_15@ && overlap@.price_5 == overlap.price_5@,
{
}

/// The values of a step are those of the step itself.
pub proof fn law_step_values_are_the_step(step: RoundStep)
    ensures
        step is Finished <==> step@ is Finished,
        step is Wait <==> step@ is Wait,
        step is Simulated <==> step@ is Simulated,
        step matches RoundStep::Place(first, second) ==> step@ == StepView::Place(first@, second@),
{
}

} // verus!
