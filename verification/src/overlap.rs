//! Waiting for an overlap: the last five minutes of a 15-minute market, with both
//! markets open and their prices-to-beat close enough.

use vstd::prelude::*;

use crate::config::PriceToBeatConfig;
use crate::decimal::Decimal;
use crate::discovery::{
    is_last_5min_of_15m, period_15m_start, period_5m_start, utc_timestamp, DiscoveryError,
};
#[allow(unused_imports)]
use crate::discovery::{
    in_last_5min, law_overlap_is_the_last_5m_market, law_period_holds_its_moment, on_calendar,
    period_of, MARKET_15M_DURATION_SECS, MARKET_5M_DURATION_SECS,
};

verus! {

/// Seconds before looking again.
pub const OVERLAP_POLL_SECS: u64 = 5;

/// Why there is nothing to trade yet.
#[derive(Debug, Clone, Copy, PartialEq, Eq, Structural)]
pub enum WaitReason {
    OutsideWindow,
    Market15NotFound,
    Market5NotFound,
    PriceTooEarly,
    PriceUnknown,
    PricesApart,
}

/// Start over after a pause.
#[derive(Debug, Clone, Copy, PartialEq, Eq, Structural)]
pub struct Retry {
    pub reason: WaitReason,
    pub sleep_secs: u64,
}

/// The usual pause.
pub open spec fn pause(reason: WaitReason) -> Retry {
    Retry { reason, sleep_secs: OVERLAP_POLL_SECS }
}

fn retry(reason: WaitReason) -> (r: Retry)
    ensures
        r == pause(reason),
{
    Retry { reason, sleep_secs: OVERLAP_POLL_SECS }
}

/// The two periods of an overlap.
#[derive(Debug, Clone, Copy, PartialEq, Eq, Structural)]
pub struct Window {
    pub period_15: i64,
    pub period_5: i64,
}

/// The overlap that a moment lies in, if it lies in one.
pub open spec fn window_of(now: i64) -> Result<Window, Retry> {
    let period_15 = period_of(now as int, MARKET_15M_DURATION_SECS as int);
    let period_5 = period_of(now as int, MARKET_5M_DURATION_SECS as int);
    if in_last_5min(now as int, period_15) {
        Ok(Window { period_15: period_15 as i64, period_5: period_5 as i64 })
    } else {
        Err(pause(WaitReason::OutsideWindow))
    }
}

impl Window {
    /// The two periods are those of a 15-minute market and of its last five minutes.
    pub open spec fn ends_together(self) -> bool {
        &&& self.period_15 % MARKET_15M_DURATION_SECS == 0
        &&& self.period_5 == self.period_15 + 600
        &&& self.period_5 + MARKET_5M_DURATION_SECS == self.period_15 + MARKET_15M_DURATION_SECS
    }
}

/// Whether a moment lies in an overlap. The two markets of the overlap end together, and
/// the moment lies in the last five minutes of both.
pub fn enter_window_at(now: i64) -> (r: Result<Window, Retry>)
    ensures
        r == window_of(now),
        r matches Ok(w) ==> w.ends_together() && w.period_15 + 600 <= now < w.period_15 + 900,
{
    let period_15 = period_15m_start(now);
    let period_5 = period_5m_start(now);
    if is_last_5min_of_15m(now, period_15) {
        proof {
            law_overlap_is_the_last_5m_market(now as int);
            law_period_holds_its_moment(now as int, MARKET_15M_DURATION_SECS as int);
        }
        Ok(Window { period_15, period_5 })
    } else {
        Err(retry(WaitReason::OutsideWindow))
    }
}

/// Whether the moment that the clock shows lies in an overlap.
pub fn enter_window_now() -> (r: Result<Window, Retry>)
    ensures
        exists|now: i64| on_calendar(now as int) && r == #[trigger] window_of(now),
        r matches Ok(w) ==> w.ends_together(),
{
    let now = utc_timestamp();
    enter_window_at(now)
}

/// An overlap whose two markets are open.
#[derive(Debug)]
pub struct Candidate {
    pub window: Window,
    pub cid_15: String,
    pub cid_5: String,
}

/// The candidate that two market lookups give.
pub open spec fn candidate_of(
    window: Window,
    cid_15: Option<String>,
    cid_5: Option<String>,
) -> Result<Candidate, Retry> {
    match (cid_15, cid_5) {
        (None, _) => Err(pause(WaitReason::Market15NotFound)),
        (Some(_), None) => Err(pause(WaitReason::Market5NotFound)),
        (Some(cid_15), Some(cid_5)) => Ok(Candidate { window, cid_15, cid_5 }),
    }
}

/// Whether both markets were found; the longer one is asked for first.
pub fn found_markets(window: Window, cid_15: Option<String>, cid_5: Option<String>) -> (r: Result<
    Candidate,
    Retry,
>)
    ensures
        r == candidate_of(window, cid_15, cid_5),
{
    match cid_15 {
        None => Err(retry(WaitReason::Market15NotFound)),
        Some(cid_15) => match cid_5 {
            None => Err(retry(WaitReason::Market5NotFound)),
            Some(cid_5) => Ok(Candidate { window, cid_15, cid_5 }),
        },
    }
}

/// Whether two prices lie within a tolerance of each other.
pub open spec fn close_enough(price_15: int, price_5: int, tolerance: int) -> bool {
    -tolerance <= price_15 - price_5 <= tolerance
}

/// A candidate whose prices-to-beat match.
#[derive(Debug)]
pub struct Matched {
    pub candidate: Candidate,
    pub price_15: Decimal,
    pub price_5: Decimal,
}

/// Whether the price-to-beat of a market that starts at `market_start` may be looked for.
pub fn may_look_for_price(market_start: i64, now: i64, delay_secs: u64) -> (b: bool)
    ensures
        b == (now >= market_start + delay_secs),
{
    now as i128 >= market_start as i128 + delay_secs as i128
}

/// When the prices-to-beat of both markets may be looked for.
pub open spec fn ready_at(window: Window, delay_secs: u64) -> int {
    (if window.period_15 > window.period_5 {
        window.period_15
    } else {
        window.period_5
    }) + delay_secs
}

/// Wait until the prices-to-beat may be looked for, as far as a pause can be counted.
pub open spec fn pause_until_ready(window: Window, now: i64, delay_secs: u64) -> Retry {
    let left = ready_at(window, delay_secs) - now;
    Retry {
        reason: WaitReason::PriceTooEarly,
        sleep_secs: if left > u64::MAX {
            u64::MAX
        } else {
            left as u64
        },
    }
}

/// Whether it is too early to look for the prices-to-beat of a window, and then for how
/// long to wait.
pub fn too_early(window: Window, now: i64, delay_secs: u64) -> (r: Option<Retry>)
    ensures
        r == if now < ready_at(window, delay_secs) {
            Some(pause_until_ready(window, now, delay_secs))
        } else {
            None
        },
{
    let start = if window.period_15 > window.period_5 {
        window.period_15
    } else {
        window.period_5
    };
    if may_look_for_price(start, now, delay_secs) {
        return None;
    }
    let left: i128 = start as i128 + delay_secs as i128 - now as i128;
    let sleep_secs: u64 = if left > u64::MAX as i128 {
        u64::MAX
    } else {
        left as u64
    };
    Some(Retry { reason: WaitReason::PriceTooEarly, sleep_secs })
}

/// The match that two prices-to-beat give at a moment.
pub open spec fn matched_of(
    candidate: Candidate,
    now: i64,
    price_15: Option<Decimal>,
    price_5: Option<Decimal>,
    tolerance: int,
    timing: PriceToBeatConfig,
) -> Result<Matched, Retry> {
    if now < ready_at(candidate.window, timing.delay_secs) {
        Err(pause_until_ready(candidate.window, now, timing.delay_secs))
    } else {
        match (price_15, price_5) {
            (Some(a), Some(b)) => if close_enough(a@, b@, tolerance) {
                Ok(Matched { candidate, price_15: a, price_5: b })
            } else {
                Err(pause(WaitReason::PricesApart))
            },
            _ => Err(
                Retry {
                    reason: WaitReason::PriceUnknown,
                    sleep_secs: timing.poll_interval_secs,
                },
            ),
        }
    }
}

/// Whether it is time to look, and both prices-to-beat are known and close enough.
pub fn compare_prices(
    candidate: Candidate,
    now: i64,
    price_15: Option<Decimal>,
    price_5: Option<Decimal>,
    tolerance: Decimal,
    timing: PriceToBeatConfig,
) -> (r: Result<Matched, Retry>)
    ensures
        r == matched_of(candidate, now, price_15, price_5, tolerance@, timing),
{
    if let Some(early) = too_early(candidate.window, now, timing.delay_secs) {
        return Err(early);
    }
    let unknown = Retry {
        reason: WaitReason::PriceUnknown,
        sleep_secs: timing.poll_interval_secs,
    };
    match price_15 {
        Some(a) => match price_5 {
            Some(b) => {
                let limit = tolerance.units();
                let apart: i128 = a.units() - b.units();
                if apart > limit || apart < -limit {
                    Err(retry(WaitReason::PricesApart))
                } else {
                    Ok(Matched { candidate, price_15: a, price_5: b })
                }
            },
            None => Err(unknown),
        },
        None => Err(unknown),
    }
}

/// No price-to-beat is looked for before the delay since the start of both markets is over:
/// until then the answer is to wait for just that, whatever the prices are. From then on it
/// is looked for once per interval until it is there.
pub proof fn law_price_is_looked_for_in_time(
    candidate: Candidate,
    now: i64,
    price_15: Option<Decimal>,
    price_5: Option<Decimal>,
    tolerance: int,
    timing: PriceToBeatConfig,
)
    ensures
        ({
            let window = candidate.window;
            let ready = ready_at(window, timing.delay_secs);
            let answer = matched_of(candidate, now, price_15, price_5, tolerance, timing);
            &&& ready >= window.period_15 + timing.delay_secs
            &&& ready >= window.period_5 + timing.delay_secs
            &&& window.ends_together() ==> ready == window.period_5 + timing.delay_secs
            &&& now < ready ==> {
                &&& answer == matched_of(candidate, now, None, None, tolerance, timing)
                &&& answer is Err
                &&& ready - now <= u64::MAX ==> now + answer->Err_0.sleep_secs == ready
            }
            &&& now >= ready && (price_15 is None || price_5 is None) ==> answer is Err
                && answer->Err_0.sleep_secs == timing.poll_interval_secs
        }),
{
}

/// Everything that is needed to trade one overlap of one symbol.
#[derive(Debug)]
pub struct Overlap {
    pub symbol: String,
    pub cid_15: String,
    pub cid_5: String,
    pub t15_up: String,
    pub t15_down: String,
    pub t5_up: String,
    pub t5_down: String,
    pub period_15: i64,
    pub period_5: i64,
    pub price_15: Decimal,
    pub price_5: Decimal,
}

impl Overlap {
    /// The tokens whose prices are followed.
    pub fn asset_ids(&self) -> (ids: Vec<String>)
        ensures
            ids@.map_values(|s: String| s@) == seq![
                self.t15_up@,
                self.t15_down@,
                self.t5_up@,
                self.t5_down@,
            ],
    {
        let ids = vec![
            self.t15_up.clone(),
            self.t15_down.clone(),
            self.t5_up.clone(),
            self.t5_down.clone(),
        ];
        assert(ids@.map_values(|s: String| s@) =~= seq![
            self.t15_up@,
            self.t15_down@,
            self.t5_up@,
            self.t5_down@,
        ]);
        ids
    }
}

/// Completes an overlap with the tokens of its two markets.
pub fn with_tokens(
    matched: Matched,
    symbol: &str,
    tokens_15: Result<(String, String), DiscoveryError>,
    tokens_5: Result<(String, String), DiscoveryError>,
) -> (r: Result<Overlap, DiscoveryError>)
    ensures
        match (tokens_15, tokens_5) {
            (Err(e), _) => r == Err::<Overlap, DiscoveryError>(e),
            (Ok(_), Err(e)) => r == Err::<Overlap, DiscoveryError>(e),
            (Ok((t15_up, t15_down)), Ok((t5_up, t5_down))) => r matches Ok(o) && {
                &&& o.symbol@ == symbol@
                &&& o.cid_15 == matched.candidate.cid_15
                &&& o.cid_5 == matched.candidate.cid_5
                &&& o.t15_up == t15_up
                &&& o.t15_down == t15_down
                &&& o.t5_up == t5_up
                &&& o.t5_down == t5_down
                &&& o.period_15 == matched.candidate.window.period_15
                &&& o.period_5 == matched.candidate.window.period_5
                &&& o.price_15 == matched.price_15
                &&& o.price_5 == matched.price_5
            },
        },
{
    match tokens_15 {
        Err(e) => Err(e),
        Ok((t15_up, t15_down)) => match tokens_5 {
            Err(e) => Err(e),
            Ok((t5_up, t5_down)) => Ok(
                Overlap {
                    symbol: symbol.to_owned(),
                    cid_15: matched.candidate.cid_15,
                    cid_5: matched.candidate.cid_5,
                    t15_up,
                    t15_down,
                    t5_up,
                    t5_down,
                    period_15: matched.candidate.window.period_15,
                    period_5: matched.candidate.window.period_5,
                    price_15: matched.price_15,
                    price_5: matched.price_5,
                },
            ),
        },
    }
}

/// Nothing is traded but in the last five minutes of a 15-minute market, with the
/// 5-minute market that ends together with it, both markets found and both prices-to-beat
/// looked for in time, known and within the tolerance; and then nothing stands in the way.
/// The window is entered at `now` and the prices are looked at at `later`.
pub proof fn law_overlap_needs_everything(
    now: i64,
    later: i64,
    cid_15: Option<String>,
    cid_5: Option<String>,
    price_15: Option<Decimal>,
    price_5: Option<Decimal>,
    tolerance: int,
    timing: PriceToBeatConfig,
)
    ensures
        ({
            let matched = match window_of(now) {
                Ok(window) => match candidate_of(window, cid_15, cid_5) {
                    Ok(candidate) => matched_of(
                        candidate,
                        later,
                        price_15,
                        price_5,
                        tolerance,
                        timing,
                    ),
                    Err(retry) => Err(retry),
                },
                Err(retry) => Err(retry),
            };
            let start_15 = period_of(now as int, MARKET_15M_DURATION_SECS as int);
            &&& matched is Ok <==> {
                &&& in_last_5min(now as int, start_15)
                &&& cid_15 is Some
                &&& cid_5 is Some
                &&& later >= start_15 + 600 + timing.delay_secs
                &&& price_15 is Some
                &&& price_5 is Some
                &&& close_enough(price_15->0@, price_5->0@, tolerance)
            }
            &&& matched matches Ok(m) ==> {
                let window = m.candidate.window;
                &&& window.ends_together()
                &&& window.period_15 + 600 <= now < window.period_15 + 900
            }
        }),
{
    let start = period_of(now as int, MARKET_15M_DURATION_SECS as int);
    if in_last_5min(now as int, start) {
        law_overlap_is_the_last_5m_market(now as int);
        law_period_holds_its_moment(now as int, MARKET_15M_DURATION_SECS as int);
    }
}

/// Two known prices-to-beat match exactly when neither exceeds the other by more than the
/// tolerance; the verdict is the same with the two prices exchanged.
pub proof fn law_prices_match_within_the_tolerance(
    candidate: Candidate,
    now: i64,
    a: Decimal,
    b: Decimal,
    tolerance: int,
    timing: PriceToBeatConfig,
)
    requires
        now >= candidate.window.period_15 + timing.delay_secs,
        now >= candidate.window.period_5 + timing.delay_secs,
    ensures
        ({
            let answer = matched_of(candidate, now, Some(a), Some(b), tolerance, timing);
            let exchanged = matched_of(candidate, now, Some(b), Some(a), tolerance, timing);
            let apart = if a@ > b@ {
                a@ - b@
            } else {
                b@ - a@
            };
            &&& answer is Ok <==> apart <= tolerance
            &&& answer is Ok <==> exchanged is Ok
            &&& answer matches Ok(m) ==> m.candidate == candidate && m.price_15 == a && m.price_5
                == b
            &&& answer is Err ==> answer->Err_0.reason == WaitReason::PricesApart
                && answer->Err_0.sleep_secs == 5
            &&& a@ == b@ && tolerance >= 0 ==> answer is Ok
        }),
{
}

/// A price that is not known is waited for, whatever the other one is.
pub proof fn law_unknown_price_is_waited_for(
    candidate: Candidate,
    now: i64,
    price_15: Option<Decimal>,
    price_5: Option<Decimal>,
    tolerance: int,
    timing: PriceToBeatConfig,
)
    requires
        price_15 is None || price_5 is None,
    ensures
        ({
            let answer = matched_of(candidate, now, price_15, price_5, tolerance, timing);
            let may = now >= candidate.window.period_15 + timing.delay_secs && now
                >= candidate.window.period_5 + timing.delay_secs;
            &&& answer is Err
            &&& may <==> answer->Err_0.reason == WaitReason::PriceUnknown
            &&& !may <==> answer->Err_0.reason == WaitReason::PriceTooEarly
        }),
{
}

/// The overlap that a moment lies in: the last third of its quarter of an hour, with the
/// two periods cut off from the moment itself.
pub proof fn law_window_is_the_last_third(now: i64)
    requires
        now >= 0,
    ensures
        window_of(now) is Ok <==> now % 900 >= 600,
        window_of(now) matches Ok(w) ==> w.period_15 == now - now % 900 && w.period_5 == now - now
            % 300,
        window_of(now) is Err ==> window_of(now)->Err_0.reason == WaitReason::OutsideWindow
            && window_of(now)->Err_0.sleep_secs == 5,
{
}

/// Two markets make a candidate exactly when both were found, under their own conditions;
/// the 15-minute market is missed first.
pub proof fn law_candidate_has_both_markets(
    window: Window,
    cid_15: Option<String>,
    cid_5: Option<String>,
)
    ensures
        ({
            let r = candidate_of(window, cid_15, cid_5);
            &&& r is Ok <==> cid_15 is Some && cid_5 is Some
            &&& r matches Ok(c) ==> c.window == window && Some(c.cid_15) == cid_15 && Some(c.cid_5)
                == cid_5
            &&& cid_15 is None ==> r is Err && r->Err_0.reason == WaitReason::Market15NotFound
            &&& cid_15 is Some && cid_5 is None ==> r is Err && r->Err_0.reason
                == WaitReason::Market5NotFound
            &&& r is Err ==> r->Err_0.sleep_secs == 5
        }),
{
}

} // verus!
