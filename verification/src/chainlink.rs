//! Prices-to-beat: the price that a feed reports as a period opens.

use vstd::prelude::*;
use vstd::string::*;

use crate::decimal::Decimal;
#[allow(unused_imports)]
use crate::decimal::{decimal_value, opt_units};
use crate::discovery::period_start;
#[allow(unused_imports)]
use crate::discovery::{lemma_period_is_aligned, period_of};
use crate::text::same_text;

verus! {

/// Seconds before the feed is connected to again.
pub const RECONNECT_SECS: u64 = 5;

/// Seconds that the feed is given to start.
pub const FEED_START_SECS: u64 = 2;

/// A report counts as a period's opening price for this many seconds.
pub const OPENING_SECS: i64 = 2;

/// Whether a report made at `feed_ts` opens the period that starts at `start`.
pub open spec fn opens(feed_ts: int, start: int) -> bool {
    start <= feed_ts < start + OPENING_SECS
}

/// Opening prices, in units, by symbol and period.
pub type Openings = Map<(Seq<char>, int), int>;

/// What a report makes of the opening prices of periods of a length: it sets the price of
/// the period that it opens, and changes nothing when it opens none.
pub open spec fn observed(
    prices: Openings,
    duration: int,
    symbol: Seq<char>,
    feed_ts: int,
    price: int,
) -> Openings {
    let period = period_of(feed_ts, duration);
    if opens(feed_ts, period) {
        prices.insert((symbol, period), price)
    } else {
        prices
    }
}

#[derive(Debug)]
struct OpeningPrice {
    symbol: String,
    period: i64,
    price: Decimal,
}

/// Opening prices by symbol and period, for periods of one length.
#[derive(Debug)]
pub struct PriceCache {
    duration: i64,
    entries: Vec<OpeningPrice>,
}

spec fn first_price(entries: Seq<OpeningPrice>, symbol: Seq<char>, period: int) -> Option<int>
    decreases entries.len(),
{
    if entries.len() == 0 {
        None
    } else if entries[0].symbol@ == symbol && entries[0].period == period {
        Some(entries[0].price@)
    } else {
        first_price(entries.drop_first(), symbol, period)
    }
}

/// Before the first entry of a symbol and period, nothing is found for it.
proof fn lemma_first_price_at(
    entries: Seq<OpeningPrice>,
    symbol: Seq<char>,
    period: int,
    at: int,
)
    requires
        0 <= at <= entries.len(),
        forall|k: int|
            0 <= k < at ==> !(#[trigger] entries[k].symbol@ == symbol && entries[k].period
                == period),
    ensures
        first_price(entries, symbol, period) == first_price(entries.skip(at), symbol, period),
    decreases at,
{
    if at > 0 {
        let rest = entries.drop_first();
        assert forall|k: int| 0 <= k < at - 1 implies !(#[trigger] rest[k].symbol@ == symbol
            && rest[k].period == period) by {
            assert(rest[k] == entries[k + 1]);
        }
        assert(!(entries[0].symbol@ == symbol && entries[0].period == period));
        lemma_first_price_at(rest, symbol, period, at - 1);
        assert(rest.skip(at - 1) =~= entries.skip(at));
    } else {
        assert(entries.skip(0) =~= entries);
    }
}

/// An entry of another symbol or period does not matter.
proof fn lemma_first_price_replaced(
    a: Seq<OpeningPrice>,
    b: Seq<OpeningPrice>,
    at: int,
    symbol: Seq<char>,
    period: int,
)
    requires
        0 <= at,
        a.len() == b.len() || (at == a.len() && b.len() == a.len() + 1),
        forall|k: int| 0 <= k < a.len() && k != at ==> a[k] == b[k],
        at < a.len() ==> !(a[at].symbol@ == symbol && a[at].period == period),
        at < b.len() ==> !(b[at].symbol@ == symbol && b[at].period == period),
    ensures
        first_price(a, symbol, period) == first_price(b, symbol, period),
    decreases b.len(),
{
    if b.len() > 0 {
        if a.len() == 0 {
            assert(b.drop_first() =~= a);
        } else if at > 0 {
            lemma_first_price_replaced(a.drop_first(), b.drop_first(), at - 1, symbol, period);
        } else {
            assert(a.drop_first() =~= b.drop_first());
        }
    }
}

impl View for PriceCache {
    type V = Openings;

    closed spec fn view(&self) -> Openings {
        Map::new(
            |key: (Seq<char>, int)| first_price(self.entries@, key.0, key.1) is Some,
            |key: (Seq<char>, int)| first_price(self.entries@, key.0, key.1)->0,
        )
    }
}

impl PriceCache {
    /// The length of the periods.
    pub closed spec fn period_length(&self) -> int {
        self.duration as int
    }

    /// The opening price, in units, of a symbol's period, where it is known.
    pub open spec fn price_of(&self, symbol: Seq<char>, period: int) -> Option<int> {
        if self@.contains_key((symbol, period)) {
            Some(self@[(symbol, period)])
        } else {
            None
        }
    }

    /// A cache for periods of `duration` seconds that knows no prices.
    pub fn new(duration: i64) -> (cache: Self)
        ensures
            cache.period_length() == duration,
            cache@ == Map::<(Seq<char>, int), int>::empty(),
    {
        let cache = PriceCache { duration, entries: Vec::new() };
        assert(cache@ =~= Map::<(Seq<char>, int), int>::empty());
        cache
    }

    fn position(&self, symbol: &str, period: i64) -> (at: usize)
        ensures
            at <= self.entries.len(),
            forall|k: int|
                0 <= k < at ==> !(#[trigger] self.entries@[k].symbol@ == symbol@
                    && self.entries@[k].period == period),
            at < self.entries.len() ==> self.entries@[at as int].symbol@ == symbol@
                && self.entries@[at as int].period == period,
    {
        let mut i: usize = 0;
        while i < self.entries.len()
            invariant
                i <= self.entries.len(),
                forall|k: int|
                    0 <= k < i ==> !(#[trigger] self.entries@[k].symbol@ == symbol@
                        && self.entries@[k].period == period),
            decreases self.entries.len() - i,
        {
            if self.entries[i].period == period && same_text(
                self.entries[i].symbol.as_str(),
                symbol,
            ) {
                return i;
            }
            i += 1;
        }
        i
    }

    /// The opening price of a symbol's period, where it is known.
    pub fn get(&self, symbol: &str, period: i64) -> (price: Option<Decimal>)
        ensures
            opt_units(price) == self.price_of(symbol@, period as int),
    {
        let at = self.position(symbol, period);
        proof {
            lemma_first_price_at(self.entries@, symbol@, period as int, at as int);
        }
        if at < self.entries.len() {
            assert(self.entries@.skip(at as int)[0] == self.entries@[at as int]);
            Some(self.entries[at].price)
        } else {
            None
        }
    }

    fn set(&mut self, symbol: &str, period: i64, price: Decimal)
        ensures
            final(self).period_length() == old(self).period_length(),
            final(self)@ == old(self)@.insert((symbol@, period as int), price@),
    {
        let ghost before = self.entries@;
        let ghost told = self@.insert((symbol@, period as int), price@);
        let at = self.position(symbol, period);
        let entry = OpeningPrice { symbol: symbol.to_owned(), period, price };
        if at < self.entries.len() {
            self.entries.set(at, entry);
        } else {
            self.entries.push(entry);
        }
        proof {
            assert forall|k: int| 0 <= k < at implies !(#[trigger] self.entries@[k].symbol@
                == symbol@ && self.entries@[k].period == period) by {
                assert(self.entries@[k] == before[k]);
            }
            lemma_first_price_at(self.entries@, symbol@, period as int, at as int);
            assert(self.entries@.skip(at as int)[0] == self.entries@[at as int]);
            assert forall|s: Seq<char>, p: int| (s != symbol@ || p != period) implies first_price(
                before,
                s,
                p,
            ) == #[trigger] first_price(self.entries@, s, p) by {
                lemma_first_price_replaced(before, self.entries@, at as int, s, p);
            }
            assert forall|key: (Seq<char>, int)|
                #![trigger self@.dom().contains(key)]
                #![trigger told.dom().contains(key)]
                self@.dom().contains(key) == told.dom().contains(key) && (self@.dom().contains(key)
                    ==> self@[key] == told[key]) by {
                let (s, p) = key;
                assert(s != symbol@ || p != period ==> first_price(before, s, p) == first_price(
                    self.entries@,
                    s,
                    p,
                ));
            }
            assert(self@ =~= told);
        }
    }

    /// Takes a report of the feed: it sets the price of the period that it opens, and
    /// changes nothing when it opens none. Returns whether it did.
    pub fn observe(&mut self, symbol: &str, feed_ts: i64, price: Decimal) -> (opened: bool)
        requires
            old(self).period_length() > 0,
        ensures
            final(self).period_length() == old(self).period_length(),
            opened == opens(
                feed_ts as int,
                period_of(feed_ts as int, old(self).period_length()),
            ),
            final(self)@ == observed(
                old(self)@,
                old(self).period_length(),
                symbol@,
                feed_ts as int,
                price@,
            ),
    {
        let start = period_start(feed_ts, self.duration);
        let elapsed: i128 = feed_ts as i128 - start as i128;
        if 0 <= elapsed && elapsed < OPENING_SECS as i128 {
            self.set(symbol, start, price);
            true
        } else {
            false
        }
    }
}

/// A report of the price feed.
#[derive(Debug)]
pub struct FeedReport {
    pub topic: String,
    /// What is priced in what, such as `btc/usd`.
    pub symbol: String,
    /// When the price was, in milliseconds since the epoch.
    pub timestamp_ms: i64,
    /// The price, as a numeral.
    pub value: String,
}

/// A report, as values.
pub struct ReportView {
    pub topic: Seq<char>,
    pub symbol: Seq<char>,
    pub timestamp_ms: int,
    pub value: Seq<char>,
}

impl View for FeedReport {
    type V = ReportView;

    open spec fn view(&self) -> ReportView {
        ReportView {
            topic: self.topic@,
            symbol: self.symbol@,
            timestamp_ms: self.timestamp_ms as int,
            value: self.value@,
        }
    }
}

/// The topic under which the feed reports prices.
pub fn feed_topic() -> (topic: &'static str)
    ensures
        topic@ == "crypto_prices_chainlink"@,
{
    "crypto_prices_chainlink"
}

impl ReportView {
    /// The second in which the price was.
    pub open spec fn feed_ts(self) -> int {
        self.timestamp_ms / 1000
    }

    /// Whether the report is on the price of a symbol in dollars.
    pub open spec fn is_for(self, symbol: Seq<char>) -> bool {
        self.topic == "crypto_prices_chainlink"@ && self.symbol == symbol + "/usd"@
    }

    /// The symbol of a list that the report is for.
    pub open spec fn listed_in(self, symbols: Seq<Seq<char>>) -> Option<Seq<char>>
        decreases symbols.len(),
    {
        if symbols.len() == 0 {
            None
        } else if self.is_for(symbols[0]) {
            Some(symbols[0])
        } else {
            self.listed_in(symbols.drop_first())
        }
    }

    /// Whether the report gives the opening price of a symbol's period.
    pub open spec fn opens_for(self, symbol: Seq<char>, period: int, duration: int) -> bool {
        &&& self.is_for(symbol)
        &&& decimal_value(self.value) is Some
        &&& period == period_of(self.feed_ts(), duration)
        &&& opens(self.feed_ts(), period)
    }

    /// What the report makes of the opening prices of listed symbols.
    pub open spec fn taken(
        self,
        prices: Openings,
        duration: int,
        symbols: Seq<Seq<char>>,
    ) -> Openings {
        match (self.listed_in(symbols), decimal_value(self.value)) {
            (Some(symbol), Some(price)) => observed(
                prices,
                duration,
                symbol,
                self.feed_ts(),
                price,
            ),
            _ => prices,
        }
    }
}

/// The opening prices after a run of reports, from none.
pub open spec fn fed(
    reports: Seq<ReportView>,
    duration: int,
    symbols: Seq<Seq<char>>,
) -> Openings
    decreases reports.len(),
{
    if reports.len() == 0 {
        Map::empty()
    } else {
        reports.last().taken(fed(reports.drop_last(), duration, symbols), duration, symbols)
    }
}

impl FeedReport {
    /// The second in which the price was.
    pub fn feed_ts(&self) -> (ts: i64)
        ensures
            ts == self@.feed_ts(),
    {
        let ms = self.timestamp_ms;
        if ms >= 0 {
            ms / 1000
        } else {
            let before: i128 = -(ms as i128);
            (-((before + 999) / 1000)) as i64
        }
    }

    /// Which symbol of a list the report is for.
    pub fn listed(&self, symbols: &Vec<String>) -> (at: Option<usize>)
        ensures
            match at {
                Some(i) => i < symbols.len() && self@.listed_in(
                    symbols@.map_values(|s: String| s@),
                ) == Some(symbols@[i as int]@),
                None => self@.listed_in(symbols@.map_values(|s: String| s@)) is None,
            },
    {
        let ghost names = symbols@.map_values(|s: String| s@);
        let on_topic = same_text(self.topic.as_str(), feed_topic());
        let mut i: usize = 0;
        assert(names.skip(0) =~= names);
        while i < symbols.len()
            invariant
                i <= symbols.len(),
                names == symbols@.map_values(|s: String| s@),
                on_topic == (self@.topic == "crypto_prices_chainlink"@),
                self@.listed_in(names) == self@.listed_in(names.skip(i as int)),
            decreases symbols.len() - i,
        {
            let mut pair = symbols[i].clone();
            pair.append("/usd");
            assert(names.skip(i as int)[0] == symbols@[i as int]@);
            assert(names.skip(i as int).drop_first() =~= names.skip(i + 1));
            if on_topic && same_text(self.symbol.as_str(), pair.as_str()) {
                return Some(i);
            }
            i += 1;
        }
        None
    }
}

/// A report is for the symbol that it names and no other.
proof fn lemma_listed(report: ReportView, symbols: Seq<Seq<char>>, symbol: Seq<char>)
    ensures
        report.listed_in(symbols) == Some(symbol) <==> symbols.contains(symbol) && report.is_for(
            symbol,
        ),
    decreases symbols.len(),
{
    if symbols.len() > 0 {
        let rest = symbols.drop_first();
        lemma_listed(report, rest, symbol);
        if report.is_for(symbols[0]) {
            if report.is_for(symbol) {
                let n = report.symbol.len() - "/usd"@.len();
                assert(report.symbol.take(n) =~= symbols[0]);
                assert(report.symbol.take(n) =~= symbol);
            }
            assert(symbols.contains(symbols[0]));
        } else if rest.contains(symbol) {
            let k = choose|k: int| 0 <= k < rest.len() && rest[k] == symbol;
            assert(symbols[k + 1] == symbol);
        } else if symbols.contains(symbol) {
            let k = choose|k: int| 0 <= k < symbols.len() && symbols[k] == symbol;
            assert(k > 0 ==> rest[k - 1] == symbol);
        }
    }
}

/// After any run of reports, a price is known for exactly those listed symbols and periods
/// that a report opened: one for the symbol, in the first two seconds of the period. It is
/// the price of the last such report, and the period starts at a multiple of its length.
pub proof fn law_cached_prices_open_their_period(
    reports: Seq<ReportView>,
    duration: int,
    symbols: Seq<Seq<char>>,
    symbol: Seq<char>,
    period: int,
)
    requires
        duration > 0,
    ensures
        ({
            let prices = fed(reports, duration, symbols);
            &&& prices.contains_key((symbol, period)) <==> symbols.contains(symbol) && exists|
                i: int,
            |
                0 <= i < reports.len() && #[trigger] reports[i].opens_for(symbol, period, duration)
            &&& prices.contains_key((symbol, period)) ==> period % duration == 0 && exists|i: int|
                {
                    &&& 0 <= i < reports.len()
                    &&& #[trigger] reports[i].opens_for(symbol, period, duration)
                    &&& period <= reports[i].feed_ts() < period + OPENING_SECS
                    &&& decimal_value(reports[i].value) == Some(prices[(symbol, period)])
                    &&& forall|j: int|
                        i < j < reports.len() ==> !#[trigger] reports[j].opens_for(
                            symbol,
                            period,
                            duration,
                        )
                }
        }),
    decreases reports.len(),
{
    if reports.len() > 0 {
        let front = reports.drop_last();
        let n = front.len() as int;
        let last = reports[n];
        law_cached_prices_open_their_period(front, duration, symbols, symbol, period);
        lemma_listed(last, symbols, symbol);
        lemma_period_is_aligned(last.feed_ts(), duration);
        assert forall|i: int| 0 <= i < n implies #[trigger] reports[i].opens_for(
            symbol,
            period,
            duration,
        ) == front[i].opens_for(symbol, period, duration) by {}
        if symbols.contains(symbol) && last.opens_for(symbol, period, duration) {
            assert(reports[n].opens_for(symbol, period, duration));
        } else {
            let before = fed(front, duration, symbols);
            let after = fed(reports, duration, symbols);
            assert(after.contains_key((symbol, period)) == before.contains_key((symbol, period)));
            if before.contains_key((symbol, period)) {
                assert(after[(symbol, period)] == before[(symbol, period)]);
                let i = choose|i: int|
                    {
                        &&& 0 <= i < front.len()
                        &&& #[trigger] front[i].opens_for(symbol, period, duration)
                        &&& period <= front[i].feed_ts() < period + OPENING_SECS
                        &&& decimal_value(front[i].value) == Some(before[(symbol, period)])
                        &&& forall|j: int|
                            i < j < front.len() ==> !#[trigger] front[j].opens_for(
                                symbol,
                                period,
                                duration,
                            )
                    };
                assert(reports[i].opens_for(symbol, period, duration));
            }
        }
    }
}

/// Which reports open a symbol's period: those of the price topic on the symbol in dollars
/// whose price can be read, made in the first two seconds of the period, to the
/// millisecond.
pub proof fn law_opening_report_is_in_the_first_two_seconds(
    report: ReportView,
    symbol: Seq<char>,
    period: int,
    duration: int,
)
    requires
        duration >= 2,
        report.timestamp_ms >= 0,
        period % duration == 0,
    ensures
        report.opens_for(symbol, period, duration) <==> {
            &&& report.topic == "crypto_prices_chainlink"@
            &&& report.symbol == symbol + "/usd"@
            &&& decimal_value(report.value) is Some
            &&& 1000 * period <= report.timestamp_ms
            &&& report.timestamp_ms < 1000 * (period + 2)
        },
{
    let ts = report.feed_ts();
    let n = ts / duration;
    let k = period / duration;
    vstd::arithmetic::div_mod::lemma_fundamental_div_mod(ts, duration);
    vstd::arithmetic::div_mod::lemma_fundamental_div_mod(period, duration);
    assert(duration * n == n * duration && duration * k == k * duration) by (nonlinear_arith);
    if period <= ts < period + 2 {
        assert(k == n) by (nonlinear_arith)
            requires
                period == k * duration,
                ts == n * duration + ts % duration,
                0 <= ts % duration < duration,
                period <= ts < period + 2,
                duration >= 2,
        ;
    }
}

/// A price that is observed is known for its symbol and the period that it opens, instead
/// of what was known before; every other symbol and period keeps its own.
pub proof fn law_observation_is_local(
    prices: Openings,
    duration: int,
    symbol: Seq<char>,
    feed_ts: int,
    price: int,
    other: (Seq<char>, int),
)
    requires
        duration > 0,
        feed_ts >= 0,
    ensures
        ({
            let after = observed(prices, duration, symbol, feed_ts, price);
            let start = feed_ts - feed_ts % duration;
            &&& feed_ts % duration < 2 ==> after.contains_key((symbol, start)) && after[(
                symbol,
                start,
            )] == price
            &&& other != (symbol, start) || feed_ts % duration >= 2 ==> {
                &&& after.contains_key(other) <==> prices.contains_key(other)
                &&& prices.contains_key(other) ==> after[other] == prices[other]
            }
        }),
{
    vstd::arithmetic::div_mod::lemma_fundamental_div_mod(feed_ts, duration);
    assert(duration * (feed_ts / duration) == (feed_ts / duration) * duration)
        by (nonlinear_arith);
}

/// A report that is for no listed symbol, or whose price cannot be read, changes nothing;
/// any other one is observed for the symbol that it names.
pub proof fn law_report_is_taken_for_its_symbol(
    report: ReportView,
    prices: Openings,
    duration: int,
    symbols: Seq<Seq<char>>,
    symbol: Seq<char>,
)
    ensures
        ({
            let after = report.taken(prices, duration, symbols);
            &&& report.topic != "crypto_prices_chainlink"@ ==> after == prices
            &&& report.symbol == symbol + "/usd"@ && !symbols.contains(symbol) ==> after == prices
            &&& decimal_value(report.value) is None ==> after == prices
            &&& report.topic == "crypto_prices_chainlink"@ && report.symbol == symbol + "/usd"@
                && symbols.contains(symbol) && decimal_value(report.value) is Some ==> after
                == observed(
                prices,
                duration,
                symbol,
                report.timestamp_ms / 1000,
                decimal_value(report.value)->0,
            )
        }),
{
    lemma_listed(report, symbols, symbol);
    if let Some(other) = report.listed_in(symbols) {
        lemma_listed(report, symbols, other);
        if report.symbol == symbol + "/usd"@ {
            let n = report.symbol.len() - "/usd"@.len();
            assert(report.symbol.take(n) =~= other);
            assert(report.symbol.take(n) =~= symbol);
        }
    }
}

/// The values of a report are those of its fields, and the price of a cache is the one that
/// it knows.
pub proof fn law_report_values_are_the_fields(
    report: FeedReport,
    cache: PriceCache,
    symbol: Seq<char>,
    period: int,
)
    ensures
        report@.topic == report.topic@,
        report@.symbol == report.symbol@,
        report@.timestamp_ms == report.timestamp_ms,
        report@.value == report.value@,
        cache.price_of(symbol, period) is Some <==> cache@.contains_key((symbol, period)),
        cache@.contains_key((symbol, period)) ==> cache.price_of(symbol, period)->0 == cache@[(
            symbol,
            period,
        )],
{
}

/// The second of a report is the one that its millisecond lies in, and a second opens a
/// period when it is its first or its second one.
pub proof fn law_report_belongs_to_its_second(report: ReportView, start: int)
    ensures
        1000 * report.feed_ts() <= report.timestamp_ms,
        report.timestamp_ms < 1000 * (report.feed_ts() + 1),
        opens(report.feed_ts(), start) <==> report.feed_ts() == start || report.feed_ts() == start
            + 1,
{
}

} // verus!
