//! Which markets a moment belongs to, and what a market's own text says.

use vstd::prelude::*;
use vstd::string::*;

use crate::decimal::{parse_chars, Decimal};
#[allow(unused_imports)]
use crate::decimal::{decimal_value, is_digit, opt_units};
use crate::models::{Market, MarketToken};
use crate::text::{find, push_int, same_text, text_mentions, to_chars};
#[allow(unused_imports)]
use crate::text::{
    ascii_lower, digit_char, first_match, int_text, matches_at, mentions, nat_text, opt_text,
};

verus! {

pub const MARKET_15M_DURATION_SECS: i64 = 15 * 60;

pub const MARKET_5M_DURATION_SECS: i64 = 5 * 60;

/// Start of the period of length `duration` that holds `now`, counted from zero;
/// before zero, periods are counted towards it.
pub open spec fn period_of(now: int, duration: int) -> int {
    if now >= 0 {
        (now / duration) * duration
    } else {
        -(((-now) / duration) * duration)
    }
}

/// A period starts between zero and its moment.
proof fn lemma_period_in_range(now: int, duration: int)
    requires
        duration > 0,
    ensures
        now >= 0 ==> 0 <= period_of(now, duration) <= now,
        now < 0 ==> now <= period_of(now, duration) <= 0,
{
    let m = if now >= 0 {
        now
    } else {
        -now
    };
    vstd::arithmetic::div_mod::lemma_fundamental_div_mod(m, duration);
    vstd::arithmetic::mul::lemma_mul_is_commutative(m / duration, duration);
    vstd::arithmetic::div_mod::lemma_div_pos_is_pos(m, duration);
    vstd::arithmetic::mul::lemma_mul_nonnegative(m / duration, duration);
}

/// A period starts at a multiple of its length.
pub proof fn lemma_period_is_aligned(now: int, duration: int)
    requires
        duration > 0,
    ensures
        period_of(now, duration) % duration == 0,
{
    if now >= 0 {
        vstd::arithmetic::div_mod::lemma_mod_multiples_basic(now / duration, duration);
    } else {
        let n = (-now) / duration;
        vstd::arithmetic::div_mod::lemma_mod_multiples_basic(-n, duration);
        assert((-n) * duration == -(n * duration)) by (nonlinear_arith);
    }
}

/// Start of the period of length `duration` that holds a moment.
pub fn period_start(now: i64, duration: i64) -> (start: i64)
    requires
        duration > 0,
    ensures
        start == period_of(now as int, duration as int),
{
    proof {
        lemma_period_in_range(now as int, duration as int);
    }
    if now >= 0 {
        let periods: i64 = now / duration;
        periods * duration
    } else {
        let before: i128 = -(now as i128);
        let periods: i128 = before / duration as i128;
        (-(periods * duration as i128)) as i64
    }
}

/// Start of the 15-minute period of a moment.
pub fn period_15m_start(now: i64) -> (start: i64)
    ensures
        start == period_of(now as int, MARKET_15M_DURATION_SECS as int),
{
    period_start(now, MARKET_15M_DURATION_SECS)
}

/// Start of the 5-minute period of a moment.
pub fn period_5m_start(now: i64) -> (start: i64)
    ensures
        start == period_of(now as int, MARKET_5M_DURATION_SECS as int),
{
    period_start(now, MARKET_5M_DURATION_SECS)
}

/// Seconds since the epoch that the clock can show: up to the end of the year 262142.
pub open spec fn on_calendar(now: int) -> bool {
    0 <= now <= 8_210_266_876_799
}

/// Reads the clock: `chrono::Utc::now`, as `timestamp` counts it in seconds since
/// the epoch. Which moment comes back is left open; it is not before the epoch and
/// not behind the end of chrono's calendar. chrono panics where the machine's own
/// clock stands outside that range.
#[verifier::external_body]
pub(crate) fn utc_timestamp() -> (now: i64)
    ensures
        on_calendar(now as int),
{
    chrono::Utc::now().timestamp()
}

/// Start of the current 15-minute period, by the clock.
pub fn current_15m_period_start() -> (start: i64)
    ensures
        exists|now: int| #[trigger]
            on_calendar(now) && start == period_of(now, MARKET_15M_DURATION_SECS as int),
        start % MARKET_15M_DURATION_SECS == 0,
{
    let now = utc_timestamp();
    assert(on_calendar(now as int));
    proof {
        lemma_period_is_aligned(now as int, MARKET_15M_DURATION_SECS as int);
    }
    period_15m_start(now)
}

/// Start of the current 5-minute period, by the clock.
pub fn current_5m_period_start() -> (start: i64)
    ensures
        exists|now: int| #[trigger]
            on_calendar(now) && start == period_of(now, MARKET_5M_DURATION_SECS as int),
        start % MARKET_5M_DURATION_SECS == 0,
{
    let now = utc_timestamp();
    assert(on_calendar(now as int));
    proof {
        lemma_period_is_aligned(now as int, MARKET_5M_DURATION_SECS as int);
    }
    period_5m_start(now)
}

/// Whether `now` lies in the last five minutes of the 15-minute market that
/// starts at `period_15m_start`.
pub open spec fn in_last_5min(now: int, period_15m_start: int) -> bool {
    10 * 60 <= now - period_15m_start < 15 * 60
}

/// Whether a moment lies in the last five minutes of a 15-minute market.
pub fn is_last_5min_of_15m(now_ts: i64, period_15m_start: i64) -> (last: bool)
    ensures
        last == in_last_5min(now_ts as int, period_15m_start as int),
{
    let elapsed: i128 = now_ts as i128 - period_15m_start as i128;
    elapsed >= 10 * 60 && elapsed < 15 * 60
}

/// A period holds the moment it was computed from, and its start is its own.
pub proof fn law_period_holds_its_moment(now: int, duration: int)
    requires
        now >= 0,
        duration > 0,
    ensures
        period_of(now, duration) <= now < period_of(now, duration) + duration,
        period_of(now, duration) % duration == 0,
        period_of(period_of(now, duration), duration) == period_of(now, duration),
{
    let n = now / duration;
    let start = n * duration;
    vstd::arithmetic::div_mod::lemma_fundamental_div_mod(now, duration);
    vstd::arithmetic::mul::lemma_mul_is_commutative(n, duration);
    vstd::arithmetic::div_mod::lemma_div_pos_is_pos(now, duration);
    vstd::arithmetic::mul::lemma_mul_nonnegative(n, duration);
    vstd::arithmetic::div_mod::lemma_div_multiples_vanish(n, duration);
    vstd::arithmetic::div_mod::lemma_mod_multiples_basic(n, duration);
}

/// The running 5-minute market is one of the three of the running 15-minute market. It is
/// the last one, which ends together with the 15-minute market, exactly in the last five
/// minutes of that.
pub proof fn law_overlap_is_the_last_5m_market(now: int)
    requires
        now >= 0,
    ensures
        ({
            let start_15 = period_of(now, MARKET_15M_DURATION_SECS as int);
            let start_5 = period_of(now, MARKET_5M_DURATION_SECS as int);
            let behind = start_5 - start_15;
            &&& behind == 0 || behind == 300 || behind == 600
            &&& behind == 600 <==> in_last_5min(now, start_15)
            &&& behind == 600 <==> start_5 + MARKET_5M_DURATION_SECS == start_15
                + MARKET_15M_DURATION_SECS
        }),
{
}

/// The slug of a market: symbol, length and period start.
pub open spec fn slug_text(symbol: Seq<char>, length: Seq<char>, period_start: int) -> Seq<char> {
    symbol + "-updown-"@ + length + "-"@ + int_text(period_start)
}

fn slug(symbol: &str, length: &str, period_start_unix: i64) -> (s: String)
    ensures
        s@ == slug_text(symbol@, length@, period_start_unix as int),
{
    let mut s = String::new();
    s.append(symbol);
    s.append("-updown-");
    s.append(length);
    s.append("-");
    push_int(&mut s, period_start_unix);
    assert(s@ =~= slug_text(symbol@, length@, period_start_unix as int));
    s
}

/// Slug of the 15-minute market of a symbol.
pub fn build_15m_slug_for(symbol: &str, period_start_unix: i64) -> (s: String)
    ensures
        s@ == slug_text(symbol@, "15m"@, period_start_unix as int),
{
    slug(symbol, "15m", period_start_unix)
}

/// Slug of the 5-minute market of a symbol.
pub fn build_5m_slug_for(symbol: &str, period_start_unix: i64) -> (s: String)
    ensures
        s@ == slug_text(symbol@, "5m"@, period_start_unix as int),
{
    slug(symbol, "5m", period_start_unix)
}

/// Slug of the Bitcoin 15-minute market: `btc-updown-15m-` and the period start.
pub fn build_15m_slug(period_start_unix: i64) -> (s: String)
    ensures
        s@ == "btc-updown-15m-"@ + int_text(period_start_unix as int),
{
    let s = slug("btc", "15m", period_start_unix);
    proof {
        reveal_strlit("btc");
        reveal_strlit("-updown-");
        reveal_strlit("15m");
        reveal_strlit("-");
        reveal_strlit("btc-updown-15m-");
        assert("btc"@ + "-updown-"@ + "15m"@ + "-"@ =~= "btc-updown-15m-"@);
    }
    s
}

/// Slug of the Bitcoin 5-minute market: `btc-updown-5m-` and the period start.
pub fn build_5m_slug(period_start_unix: i64) -> (s: String)
    ensures
        s@ == "btc-updown-5m-"@ + int_text(period_start_unix as int),
{
    let s = slug("btc", "5m", period_start_unix);
    proof {
        reveal_strlit("btc");
        reveal_strlit("-updown-");
        reveal_strlit("5m");
        reveal_strlit("-");
        reveal_strlit("btc-updown-5m-");
        assert("btc"@ + "-updown-"@ + "5m"@ + "-"@ =~= "btc-updown-5m-"@);
    }
    s
}

proof fn lemma_nat_text_injective(a: nat, b: nat)
    requires
        nat_text(a) == nat_text(b),
    ensures
        a == b,
    decreases a,
{
    let s = nat_text(a);
    let t = nat_text(b);
    assert(s.last() == digit_char((a % 10) as int));
    assert(t.last() == digit_char((b % 10) as int));
    lemma_nat_text_nonempty(a / 10);
    lemma_nat_text_nonempty(b / 10);
    if a >= 10 && b >= 10 {
        assert(s.drop_last() =~= nat_text(a / 10));
        assert(t.drop_last() =~= nat_text(b / 10));
        lemma_nat_text_injective(a / 10, b / 10);
    }
}

proof fn lemma_nat_text_nonempty(n: nat)
    ensures
        nat_text(n).len() > 0,
        nat_text(n)[0] != '-',
    decreases n,
{
    if n >= 10 {
        lemma_nat_text_nonempty(n / 10);
    }
}

/// A symbol's markets of one length have different slugs in different periods.
pub proof fn law_slug_tells_the_period(symbol: Seq<char>, length: Seq<char>, a: int, b: int)
    requires
        slug_text(symbol, length, a) == slug_text(symbol, length, b),
    ensures
        a == b,
{
    let front = symbol + "-updown-"@ + length + "-"@;
    let n = front.len() as int;
    let s = slug_text(symbol, length, a);
    let t = slug_text(symbol, length, b);
    assert(s.skip(n) =~= int_text(a));
    assert(t.skip(n) =~= int_text(b));
    let x = int_text(a);
    let y = int_text(b);
    lemma_nat_text_nonempty(a as nat);
    lemma_nat_text_nonempty(b as nat);
    lemma_nat_text_nonempty((-a) as nat);
    lemma_nat_text_nonempty((-b) as nat);
    if a < 0 && b < 0 {
        assert(x.drop_first() =~= nat_text((-a) as nat));
        assert(y.drop_first() =~= nat_text((-b) as nat));
        lemma_nat_text_injective((-a) as nat, (-b) as nat);
    } else if a >= 0 && b >= 0 {
        lemma_nat_text_injective(a as nat, b as nat);
    } else {
        assert(x[0] == y[0]);
    }
}

/// Where a question starts to speak of its price: at `above `, in any letter case,
/// or else at the first dollar sign.
pub open spec fn price_phrase(question: Seq<char>) -> Option<int> {
    match first_match(question, "above "@, 0) {
        Some(at) => Some(at),
        None => first_match(question, "$"@, 0),
    }
}

/// Where, from `from` on, the number starts: behind the first dollar sign or at the
/// first digit, whichever comes first; at the front when there is neither.
pub open spec fn number_start(s: Seq<char>, from: int) -> int
    decreases s.len() - from,
{
    if !(0 <= from < s.len()) {
        0
    } else if s[from] == '$' {
        from + 1
    } else if is_digit(s[from]) {
        from
    } else {
        number_start(s, from + 1)
    }
}

pub open spec fn is_number_char(c: char) -> bool {
    is_digit(c) || c == '.' || c == ','
}

/// The digits and points at the front of `s`, commas left out.
pub open spec fn number_text(s: Seq<char>) -> Seq<char>
    decreases s.len(),
{
    if s.len() == 0 || !is_number_char(s[0]) {
        seq![]
    } else if s[0] == ',' {
        number_text(s.drop_first())
    } else {
        seq![s[0]] + number_text(s.drop_first())
    }
}

/// The price, in units, that a market question names.
pub open spec fn price_in_question(question: Seq<char>) -> Option<int> {
    match price_phrase(question) {
        Some(at) => {
            let phrase = question.skip(at);
            decimal_value(number_text(phrase.skip(number_start(phrase, 0))))
        },
        None => None,
    }
}

/// The price that a question names is the number behind its dollar sign, commas aside,
/// whatever follows the number.
pub proof fn law_question_names_its_number(number: Seq<char>, tail: Seq<char>)
    requires
        forall|i: int| 0 <= i < number.len() ==> is_number_char(#[trigger] number[i]),
        tail.len() > 0 ==> !is_number_char(tail[0]),
    ensures
        price_in_question("above $"@ + number + tail) == decimal_value(
            number.filter(|c: char| c != ','),
        ),
{
    reveal_strlit("above $");
    reveal_strlit("above ");
    let question = "above $"@ + number + tail;
    assert(matches_at(question, 0, "above "@)) by {
        assert forall|k: int| 0 <= k < "above "@.len() implies ascii_lower(
            #[trigger] question[0 + k],
        ) == "above "@[k] by {
            assert(question[k] == "above $"@[k]);
        }
    }
    assert(question.skip(0) =~= question);
    assert(question[0] == 'a' && question[1] == 'b' && question[2] == 'o' && question[3] == 'v'
        && question[4] == 'e' && question[5] == ' ' && question[6] == '$');
    reveal_with_fuel(number_start, 8);
    assert(question.skip(7) =~= number + tail);
    lemma_number_text(number, tail);
}

proof fn lemma_number_text(number: Seq<char>, tail: Seq<char>)
    requires
        forall|i: int| 0 <= i < number.len() ==> is_number_char(#[trigger] number[i]),
        tail.len() > 0 ==> !is_number_char(tail[0]),
    ensures
        number_text(number + tail) == number.filter(|c: char| c != ','),
    decreases number.len(),
{
    let kept = |c: char| c != ',';
    let s = number + tail;
    if number.len() == 0 {
        assert(s =~= tail);
        assert(number.filter(kept) =~= seq![]) by {
            reveal(Seq::filter);
        }
    } else {
        let rest = number.drop_first();
        assert(is_number_char(number[0]));
        assert forall|i: int| 0 <= i < rest.len() implies is_number_char(#[trigger] rest[i]) by {
            assert(rest[i] == number[i + 1]);
        }
        lemma_number_text(rest, tail);
        assert(s.drop_first() =~= rest + tail);
        let first = seq![number[0]];
        assert(number =~= first + rest);
        Seq::filter_distributes_over_add(first, rest, kept);
        assert(first.filter(kept) =~= if kept(number[0]) {
            first
        } else {
            seq![]
        }) by {
            reveal_with_fuel(Seq::filter, 2);
            assert(first.drop_last() =~= seq![]);
        }
    }
}

fn find_number(q: &Vec<char>, at: usize) -> (start: usize)
    requires
        at <= q.len(),
    ensures
        at <= start <= q.len(),
        start - at == number_start(q@.skip(at as int), 0),
{
    let ghost phrase = q@.skip(at as int);
    let mut i: usize = at;
    while i < q.len()
        invariant
            at <= i <= q.len(),
            phrase == q@.skip(at as int),
            number_start(phrase, 0) == number_start(phrase, i - at),
        decreases q.len() - i,
    {
        let c = q[i];
        assert(phrase[i - at] == c);
        if c == '$' {
            return i + 1;
        }
        if '0' <= c && c <= '9' {
            return i;
        }
        i += 1;
    }
    at
}

/// Reads the price-to-beat out of a market question, as in
/// "Will Bitcoin be above $97,500 at ...".
pub fn parse_price_to_beat_from_question(question: &str) -> (price: Option<Decimal>)
    ensures
        opt_units(price) == price_in_question(question@),
{
    let q = to_chars(question);
    let at: usize = match find(&q, "above ") {
        Some(at) => at,
        None => match find(&q, "$") {
            Some(at) => at,
            None => {
                return None;
            },
        },
    };
    let ghost phrase = q@.skip(at as int);
    let start = find_number(&q, at);
    let ghost tail = phrase.skip(number_start(phrase, 0));
    assert(tail =~= q@.skip(start as int));
    let mut number: Vec<char> = Vec::new();
    let mut k: usize = start;
    while k < q.len() && (('0' <= q[k] && q[k] <= '9') || q[k] == '.' || q[k] == ',')
        invariant
            start <= k <= q.len(),
            number@ + number_text(q@.skip(k as int)) == number_text(q@.skip(start as int)),
        decreases q.len() - k,
    {
        let ghost rest = q@.skip(k as int);
        assert(rest.drop_first() =~= q@.skip(k + 1));
        let ghost before = number@;
        if q[k] != ',' {
            number.push(q[k]);
            assert(number@ + number_text(q@.skip(k + 1)) =~= before + number_text(rest));
        }
        k += 1;
    }
    assert(number@ + number_text(q@.skip(k as int)) =~= number@);
    parse_chars(&number)
}

/// Whether an outcome label names the upper side.
pub open spec fn is_up_label(outcome: Seq<char>) -> bool {
    mentions(outcome, "up"@) || outcome == "1"@
}

/// Whether an outcome label that does not name the upper side names the lower one.
pub open spec fn is_down_label(outcome: Seq<char>) -> bool {
    !is_up_label(outcome) && (mentions(outcome, "down"@) || outcome == "0"@)
}

/// The token of the last outcome for which `is_side` holds.
pub open spec fn last_token(tokens: Seq<MarketToken>, is_side: spec_fn(Seq<char>) -> bool) -> Option<
    Seq<char>,
>
    decreases tokens.len(),
{
    if tokens.len() == 0 {
        None
    } else if is_side(tokens.last().outcome@) {
        Some(tokens.last().token_id@)
    } else {
        last_token(tokens.drop_last(), is_side)
    }
}

pub open spec fn up_token(tokens: Seq<MarketToken>) -> Option<Seq<char>> {
    last_token(tokens, |outcome: Seq<char>| is_up_label(outcome))
}

pub open spec fn down_token(tokens: Seq<MarketToken>) -> Option<Seq<char>> {
    last_token(tokens, |outcome: Seq<char>| is_down_label(outcome))
}

/// Why the two tokens of a market could not be told apart.
#[derive(Debug, Clone, Copy, PartialEq, Eq, Structural)]
pub enum DiscoveryError {
    UpTokenNotFound,
    DownTokenNotFound,
}

/// Finds markets through a connection to the exchange. The connection is used by
/// the caller; the methods here decide on what it answered.
pub struct MarketDiscovery<A> {
    pub api: A,
}

impl<A> MarketDiscovery<A> {
    pub fn new(api: A) -> (d: Self)
        ensures
            d.api == api,
    {
        Self { api }
    }

    /// The tokens of the up and the down outcome among those of a market. Of several
    /// outcomes that name the same side the last one counts.
    pub fn get_market_tokens(&self, tokens: &Vec<MarketToken>) -> (r: Result<
        (String, String),
        DiscoveryError,
    >)
        ensures
            match r {
                Ok((up, down)) => up_token(tokens@) == Some(up@) && down_token(tokens@) == Some(
                    down@,
                ),
                Err(DiscoveryError::UpTokenNotFound) => up_token(tokens@) is None,
                Err(DiscoveryError::DownTokenNotFound) => up_token(tokens@) is Some && down_token(
                    tokens@,
                ) is None,
            },
    {
        let mut up: Option<String> = None;
        let mut down: Option<String> = None;
        let mut i: usize = 0;
        assert(tokens@.take(0) =~= Seq::<MarketToken>::empty());
        while i < tokens.len()
            invariant
                i <= tokens.len(),
                opt_text(up) == up_token(tokens@.take(i as int)),
                opt_text(down) == down_token(tokens@.take(i as int)),
            decreases tokens.len() - i,
        {
            let token = &tokens[i];
            let ghost seen = tokens@.take(i + 1);
            assert(seen.last() == token);
            assert(seen.drop_last() =~= tokens@.take(i as int));
            let outcome = token.outcome.as_str();
            if text_mentions(outcome, "up") || same_text(outcome, "1") {
                up = Some(token.token_id.clone());
            } else if text_mentions(outcome, "down") || same_text(outcome, "0") {
                down = Some(token.token_id.clone());
            }
            i += 1;
        }
        assert(tokens@.take(i as int) =~= tokens@);
        match up {
            None => Err(DiscoveryError::UpTokenNotFound),
            Some(up) => match down {
                None => Err(DiscoveryError::DownTokenNotFound),
                Some(down) => Ok((up, down)),
            },
        }
    }

    /// The condition and the price-to-beat of the 15-minute market that the exchange
    /// answered with; nothing when there was no answer or the market does not trade.
    pub fn get_15m_market(&self, reply: Option<Market>) -> (r: Option<(String, Option<Decimal>)>)
        ensures
            is_open_market(reply, r),
    {
        open_market(reply)
    }

    /// The same for the 5-minute market.
    pub fn get_5m_market(&self, reply: Option<Market>) -> (r: Option<(String, Option<Decimal>)>)
        ensures
            is_open_market(reply, r),
    {
        open_market(reply)
    }
}

/// Whether a market takes orders.
pub open spec fn is_trading(reply: Option<Market>) -> bool {
    reply is Some && reply->0.active && !reply->0.closed
}

/// Whether `r` is what an answer says of a market: its condition, and its price where
/// the question names one; nothing for a market that is missing or not trading.
pub open spec fn is_open_market(
    reply: Option<Market>,
    r: Option<(String, Option<Decimal>)>,
) -> bool {
    match r {
        Some((condition_id, price)) => {
            &&& is_trading(reply)
            &&& condition_id@ == reply->0.condition_id@
            &&& opt_units(price) == price_in_question(reply->0.question@)
        },
        None => !is_trading(reply),
    }
}

fn open_market(reply: Option<Market>) -> (r: Option<(String, Option<Decimal>)>)
    ensures
        is_open_market(reply, r),
{
    match reply {
        Some(market) => if market.active && !market.closed {
            let price = parse_price_to_beat_from_question(market.question.as_str());
            Some((market.condition_id, price))
        } else {
            None
        },
        None => None,
    }
}

/// Before zero, periods mirror those behind it.
pub proof fn law_periods_before_zero_mirror_those_behind(now: int, duration: int)
    requires
        duration > 0,
    ensures
        period_of(-now, duration) == -period_of(now, duration),
{
    if now == 0 {
        vstd::arithmetic::div_mod::lemma_div_basics(duration);
        assert(0int / duration == 0);
        assert(0int * duration == 0) by (nonlinear_arith);
    }
}

/// The last five minutes of a 15-minute market begin ten minutes after its start and end
/// with it.
pub proof fn law_last_five_minutes(now: int, start: int)
    ensures
        in_last_5min(now, start) <==> start + 600 <= now && now < start + 900,
        now >= 0 ==> (in_last_5min(now, now - now % 900) <==> now % 900 >= 600),
{
}

/// A slug names the symbol, the length and the start of the period, in this order.
pub proof fn law_slug_names_its_market(symbol: Seq<char>, length: Seq<char>, start: int)
    ensures
        ({
            let slug = slug_text(symbol, length, start);
            let n = symbol.len() as int;
            let m = n + 8 + length.len();
            &&& slug.take(n) == symbol
            &&& slug.subrange(n, n + 8) == "-updown-"@
            &&& slug.subrange(n + 8, m) == length
            &&& slug[m] == '-'
            &&& slug.skip(m + 1) == int_text(start)
        }),
{
    reveal_strlit("-updown-");
    reveal_strlit("-");
    let slug = slug_text(symbol, length, start);
    let n = symbol.len() as int;
    let m = n + 8 + length.len();
    assert(slug.take(n) =~= symbol);
    assert(slug.subrange(n, n + 8) =~= "-updown-"@);
    assert(slug.subrange(n + 8, m) =~= length);
    assert(slug.skip(m + 1) =~= int_text(start));
}

/// The numeral of a negative number is a minus and that of its opposite.
pub proof fn law_minus_marks_negative_numerals(n: nat)
    ensures
        int_text(n as int) == nat_text(n),
        n > 0 ==> int_text(-n) == seq!['-'] + nat_text(n),
{
}

/// Whether a label says "up" at a place, in either case.
pub open spec fn says_up(label: Seq<char>, i: int) -> bool {
    &&& 0 <= i
    &&& i + 2 <= label.len()
    &&& label[i] == 'u' || label[i] == 'U'
    &&& label[i + 1] == 'p' || label[i + 1] == 'P'
}

/// Whether a label says "down" at a place, in either case.
pub open spec fn says_down(label: Seq<char>, i: int) -> bool {
    &&& 0 <= i
    &&& i + 4 <= label.len()
    &&& label[i] == 'd' || label[i] == 'D'
    &&& label[i + 1] == 'o' || label[i + 1] == 'O'
    &&& label[i + 2] == 'w' || label[i + 2] == 'W'
    &&& label[i + 3] == 'n' || label[i + 3] == 'N'
}

proof fn lemma_says_up(label: Seq<char>, i: int)
    ensures
        matches_at(label, i, "up"@) == says_up(label, i),
{
    reveal_strlit("up");
    if matches_at(label, i, "up"@) {
        assert(ascii_lower(label[i + 0]) == 'u' && ascii_lower(label[i + 1]) == 'p');
    }
    if says_up(label, i) {
        assert forall|k: int| 0 <= k < 2 implies ascii_lower(#[trigger] label[i + k])
            == "up"@[k] by {
            assert(k == 0 || k == 1);
        }
    }
}

proof fn lemma_says_down(label: Seq<char>, i: int)
    ensures
        matches_at(label, i, "down"@) == says_down(label, i),
{
    reveal_strlit("down");
    if matches_at(label, i, "down"@) {
        assert(ascii_lower(label[i + 0]) == 'd' && ascii_lower(label[i + 1]) == 'o');
        assert(ascii_lower(label[i + 2]) == 'w' && ascii_lower(label[i + 3]) == 'n');
    }
    if says_down(label, i) {
        assert forall|k: int| 0 <= k < 4 implies ascii_lower(#[trigger] label[i + k])
            == "down"@[k] by {
            assert(k == 0 || k == 1 || k == 2 || k == 3);
        }
    }
}

/// A label names the upper side exactly when it says "up" anywhere or is a one; and
/// otherwise the lower side exactly when it says "down" anywhere or is a zero.
pub proof fn law_labels_name_their_side(label: Seq<char>)
    ensures
        is_up_label(label) <==> label == seq!['1'] || exists|k: int| says_up(label, k),
        is_down_label(label) <==> !(label == seq!['1'] || exists|k: int| says_up(label, k)) && (
        label == seq!['0'] || exists|k: int| says_down(label, k)),
{
    reveal_strlit("1");
    reveal_strlit("0");
    assert(seq!['1'] =~= "1"@);
    assert(seq!['0'] =~= "0"@);
    assert forall|k: int| #[trigger] matches_at(label, k, "up"@) == says_up(label, k) by {
        lemma_says_up(label, k);
    }
    assert forall|k: int| #[trigger] matches_at(label, k, "down"@) == says_down(label, k) by {
        lemma_says_down(label, k);
    }
    if exists|k: int| says_up(label, k) {
        let k = choose|k: int| says_up(label, k);
        assert(matches_at(label, k, "up"@));
    }
    if exists|k: int| says_down(label, k) {
        let k = choose|k: int| says_down(label, k);
        assert(matches_at(label, k, "down"@));
    }
}

/// The token of a side is that of the last outcome that names the side; there is none
/// exactly where no outcome names it.
pub proof fn law_last_outcome_of_a_side_counts(tokens: Seq<MarketToken>, i: int)
    requires
        0 <= i < tokens.len(),
    ensures
        is_up_label(tokens[i].outcome@) && (forall|j: int|
            i < j < tokens.len() ==> !is_up_label((#[trigger] tokens[j]).outcome@)) ==> up_token(
            tokens,
        ) == Some(tokens[i].token_id@),
        is_down_label(tokens[i].outcome@) && (forall|j: int|
            i < j < tokens.len() ==> !is_down_label((#[trigger] tokens[j]).outcome@))
            ==> down_token(tokens) == Some(tokens[i].token_id@),
        (forall|j: int| 0 <= j < tokens.len() ==> !is_up_label((#[trigger] tokens[j]).outcome@))
            ==> up_token(tokens) is None,
        (forall|j: int| 0 <= j < tokens.len() ==> !is_down_label((#[trigger] tokens[j]).outcome@))
            ==> down_token(tokens) is None,
    decreases tokens.len(),
{
    let front = tokens.drop_last();
    let n = front.len() as int;
    assert(tokens[n] == tokens.last());
    assert forall|j: int| 0 <= j < n implies #[trigger] front[j] == tokens[j] by {}
    if i < n {
        law_last_outcome_of_a_side_counts(front, i);
    } else if n > 0 {
        law_last_outcome_of_a_side_counts(front, 0);
    }
}

/// Whether a question says "above" and a space at a place, in either case.
pub open spec fn says_above(q: Seq<char>, i: int) -> bool {
    &&& 0 <= i
    &&& i + 6 <= q.len()
    &&& q[i] == 'a' || q[i] == 'A'
    &&& q[i + 1] == 'b' || q[i + 1] == 'B'
    &&& q[i + 2] == 'o' || q[i + 2] == 'O'
    &&& q[i + 3] == 'v' || q[i + 3] == 'V'
    &&& q[i + 4] == 'e' || q[i + 4] == 'E'
    &&& q[i + 5] == ' '
}

/// Whether a question speaks of its price from a place on: the first "above ", or the first
/// dollar sign where it says "above " nowhere.
pub open spec fn speaks_of_price_from(q: Seq<char>, at: int) -> bool {
    ||| says_above(q, at) && forall|j: int| 0 <= j < at ==> !#[trigger] says_above(q, j)
    ||| {
        &&& forall|j: int| !#[trigger] says_above(q, j)
        &&& q[at] == '$'
        &&& forall|j: int| 0 <= j < at ==> #[trigger] q[j] != '$'
    }
}

proof fn lemma_says_above(q: Seq<char>, i: int)
    ensures
        matches_at(q, i, "above "@) == says_above(q, i),
{
    reveal_strlit("above ");
    if matches_at(q, i, "above "@) {
        assert(ascii_lower(q[i + 0]) == 'a' && ascii_lower(q[i + 1]) == 'b');
        assert(ascii_lower(q[i + 2]) == 'o' && ascii_lower(q[i + 3]) == 'v');
        assert(ascii_lower(q[i + 4]) == 'e' && ascii_lower(q[i + 5]) == ' ');
    }
    if says_above(q, i) {
        assert forall|k: int| 0 <= k < 6 implies ascii_lower(#[trigger] q[i + k])
            == "above "@[k] by {
            assert(k == 0 || k == 1 || k == 2 || k == 3 || k == 4 || k == 5);
        }
    }
}

proof fn lemma_is_dollar(q: Seq<char>, i: int)
    ensures
        matches_at(q, i, "$"@) == (0 <= i < q.len() && q[i] == '$'),
{
    reveal_strlit("$");
    if matches_at(q, i, "$"@) {
        assert(ascii_lower(q[i + 0]) == '$');
    }
    if 0 <= i < q.len() && q[i] == '$' {
        assert forall|k: int| 0 <= k < 1 implies ascii_lower(#[trigger] q[i + k]) == "$"@[k] by {
            assert(k == 0);
        }
    }
}

proof fn lemma_first_match_at(s: Seq<char>, pattern: Seq<char>, from: int, at: int)
    requires
        0 <= from <= at,
        forall|j: int| from <= j < at ==> !#[trigger] matches_at(s, j, pattern),
    ensures
        matches_at(s, at, pattern) ==> first_match(s, pattern, from) == Some(at),
        at > s.len() ==> first_match(s, pattern, from) is None,
    decreases at - from,
{
    if from < at && from <= s.len() {
        assert(!matches_at(s, from, pattern));
        lemma_first_match_at(s, pattern, from + 1, at);
    }
}

proof fn lemma_number_starts(s: Seq<char>, from: int, i: int)
    requires
        0 <= from <= i <= s.len(),
        forall|j: int| from <= j < i ==> (#[trigger] s[j]) != '$' && !is_digit(s[j]),
    ensures
        i < s.len() && s[i] == '$' ==> number_start(s, from) == i + 1,
        i < s.len() && s[i] != '$' && is_digit(s[i]) ==> number_start(s, from) == i,
        i == s.len() ==> number_start(s, from) == 0,
    decreases i - from,
{
    if from < i {
        lemma_number_starts(s, from + 1, i);
    }
}

/// Where the price of a question stands: from the first "above ", or where it does not say
/// so from the first dollar sign, on, the number starts behind the first dollar sign or at
/// the first digit, whichever comes first. It goes as far as digits, points and commas, and
/// commas do not count.
pub proof fn law_question_price_by_its_place(
    q: Seq<char>,
    at: int,
    first: int,
    start: int,
    end: int,
)
    requires
        0 <= at <= first < q.len(),
        speaks_of_price_from(q, at),
        forall|j: int| at <= j < first ==> (#[trigger] q[j]) != '$' && !('0' <= q[j] <= '9'),
        q[first] == '$' && start == first + 1 || '0' <= q[first] <= '9' && start == first,
        start <= end <= q.len(),
        forall|j: int|
            start <= j < end ==> '0' <= (#[trigger] q[j]) <= '9' || q[j] == '.' || q[j] == ',',
        end < q.len() ==> !('0' <= q[end] <= '9') && q[end] != '.' && q[end] != ',',
    ensures
        price_in_question(q) == decimal_value(q.subrange(start, end).filter(|c: char| c != ',')),
{
    lemma_phrase(q, at);
    let phrase = q.skip(at);
    assert forall|j: int| 0 <= j < first - at implies (#[trigger] phrase[j]) != '$' && !is_digit(
        phrase[j],
    ) by {
        assert(phrase[j] == q[at + j]);
    }
    lemma_number_starts(phrase, 0, first - at);
    assert(phrase[first - at] == q[first]);
    assert(number_start(phrase, 0) == start - at);
    let number = q.subrange(start, end);
    let rest = q.skip(end);
    assert(phrase.skip(start - at) =~= number + rest);
    assert forall|j: int| 0 <= j < number.len() implies is_number_char(#[trigger] number[j]) by {
        assert(number[j] == q[start + j]);
    }
    lemma_number_text(number, rest);
}

proof fn lemma_phrase(q: Seq<char>, at: int)
    requires
        0 <= at < q.len(),
        speaks_of_price_from(q, at),
    ensures
        price_phrase(q) == Some(at),
{
    assert forall|j: int| #[trigger] matches_at(q, j, "above "@) == says_above(q, j) by {
        lemma_says_above(q, j);
    }
    assert forall|j: int| #[trigger]
        matches_at(q, j, "$"@) == (0 <= j < q.len() && q[j] == '$') by {
        lemma_is_dollar(q, j);
    }
    if says_above(q, at) {
        lemma_first_match_at(q, "above "@, 0, at);
        assert(matches_at(q, at, "above "@));
    } else {
        lemma_first_match_at(q, "above "@, 0, q.len() + 1int);
        lemma_first_match_at(q, "$"@, 0, at);
        assert(matches_at(q, at, "$"@));
    }
}

/// A question that says neither "above " nor a dollar sign names no price.
pub proof fn law_question_without_a_price_names_none(q: Seq<char>)
    ensures
        (forall|j: int| !#[trigger] says_above(q, j)) && (forall|j: int|
            0 <= j < q.len() ==> #[trigger] q[j] != '$') ==> price_in_question(q) is None,
{
    if (forall|j: int| !#[trigger] says_above(q, j)) && (forall|j: int|
        0 <= j < q.len() ==> #[trigger] q[j] != '$') {
        assert forall|j: int| #[trigger] matches_at(q, j, "above "@) == says_above(q, j) by {
            lemma_says_above(q, j);
        }
        assert forall|j: int| !#[trigger] matches_at(q, j, "$"@) by {
            lemma_is_dollar(q, j);
        }
        lemma_first_match_at(q, "above "@, 0, q.len() + 1int);
        lemma_first_match_at(q, "$"@, 0, q.len() + 1int);
    }
}

/// A question that has neither a dollar sign nor a digit from where it speaks of its price
/// on names none.
pub proof fn law_question_without_a_number_names_no_price(q: Seq<char>, at: int)
    requires
        0 <= at < q.len(),
        says_above(q, at),
        forall|j: int| 0 <= j < at ==> !#[trigger] says_above(q, j),
        forall|j: int| at <= j < q.len() ==> (#[trigger] q[j]) != '$' && !('0' <= q[j] <= '9'),
    ensures
        price_in_question(q) is None,
{
    lemma_phrase(q, at);
    let phrase = q.skip(at);
    assert forall|j: int| 0 <= j < phrase.len() implies (#[trigger] phrase[j]) != '$'
        && !is_digit(phrase[j]) by {
        assert(phrase[j] == q[at + j]);
    }
    lemma_number_starts(phrase, 0, phrase.len() as int);
    assert(phrase[0] == q[at]);
    assert(phrase.skip(0) =~= phrase);
    assert(number_text(phrase) == Seq::<char>::empty());
    let none = Seq::<char>::empty();
    reveal_strlit("inf");
    reveal_strlit("infinity");
    assert(none.skip(0) =~= none);
}

/// A market is found exactly when the exchange answered with one that is active and not
/// closed, under its own condition and with the price that its question names.
pub proof fn law_open_market_is_found(reply: Option<Market>, r: Option<(String, Option<Decimal>)>)
    requires
        is_open_market(reply, r),
    ensures
        reply is None ==> r is None,
        reply matches Some(m) ==> (r is Some <==> m.active && !m.closed),
        reply matches Some(m) ==> r is Some ==> (r->0).0@ == m.condition_id@ && (match (r->0).1 {
            Some(price) => price_in_question(m.question@) == Some(price@),
            None => price_in_question(m.question@) is None,
        }),
{
}

} // verus!
