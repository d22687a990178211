//! Exact decimal amounts: prices, sizes and dollar values.
//!
//! An amount counts units of ten to the minus eighteenth in 128 bits. What lies beyond
//! fifty times ten to the eighteenth is held at that end, as an infinite amount is, so
//! that two or three amounts always add up. Sums and comparisons are exact.

#[allow(unused_imports)]
use vstd::arithmetic::power::pow;
use vstd::prelude::*;
use vstd::string::*;

use crate::text::{find, push_nat, to_chars};
#[allow(unused_imports)]
use crate::text::{ascii_lower, digit_char, matches_at, nat_text};

verus! {

/// Units in one.
pub const ONE: i128 = 1_000_000_000_000_000_000;

/// The largest amount, in units.
pub const LIMIT: i128 = 50_000_000_000_000_000_000_000_000_000_000_000_000;

/// How many digits behind the point are kept.
pub const PLACES: i128 = 18;

/// The smallest whole number of 53 binary digits, in units.
pub const FULL: i128 = 4_503_599_627_370_496_000_000_000_000_000_000;

/// An exponent this large, or as far below zero, decides a value by itself.
const FAR: i128 = 1_000_000_000_000_000_000_000_000_000_000;

/// An amount in units, within plus and minus `LIMIT`.
#[derive(Clone, Copy, Debug, PartialEq, Eq, Structural)]
pub struct Decimal {
    units: i128,
}

impl View for Decimal {
    type V = int;

    closed spec fn view(&self) -> int {
        self.units as int
    }
}

/// The units inside an optional amount.
pub open spec fn opt_units(d: Option<Decimal>) -> Option<int> {
    match d {
        Some(d) => Some(d@),
        None => None,
    }
}

/// `v` held within plus and minus `LIMIT`.
pub open spec fn held(v: int) -> int {
    if v > LIMIT {
        LIMIT as int
    } else if v < -LIMIT {
        -LIMIT
    } else {
        v
    }
}

impl Decimal {
    #[verifier::type_invariant]
    spec fn in_range(self) -> bool {
        -LIMIT <= self.units <= LIMIT
    }

    /// The amount of `units` units, held within the limit.
    pub fn from_units(units: i128) -> (d: Decimal)
        ensures
            d@ == held(units as int),
    {
        if units > LIMIT {
            Decimal { units: LIMIT }
        } else if units < -LIMIT {
            Decimal { units: -LIMIT }
        } else {
            Decimal { units }
        }
    }

    /// The amount in units.
    pub fn units(&self) -> (units: i128)
        ensures
            units == self@,
            -LIMIT <= units <= LIMIT,
    {
        proof {
            use_type_invariant(&*self);
        }
        self.units
    }
}

/// Adds, and holds the sum within the limit.
pub fn held_sum(a: i128, b: i128) -> (sum: i128)
    ensures
        sum == held(a + b),
{
    match a.checked_add(b) {
        Some(sum) => if sum > LIMIT {
            LIMIT
        } else if sum < -LIMIT {
            -LIMIT
        } else {
            sum
        },
        None => if b > 0 {
            LIMIT
        } else {
            -LIMIT
        },
    }
}

fn magnitude(a: i128) -> (m: u128)
    ensures
        m == if a < 0 {
            -a
        } else {
            a as int
        },
        m <= 0x8000_0000_0000_0000_0000_0000_0000_0000,
{
    if a < 0 {
        (-(a + 1)) as u128 + 1
    } else {
        a as u128
    }
}

/// A product from the parts of its factors.
proof fn lemma_product_of_parts(a1: int, a0: int, b1: int, b0: int)
    ensures
        (a1 * ONE + a0) * (b1 * ONE + b0) == (a1 * b1 * ONE + a1 * b0 + a0 * b1) * ONE + a0 * b0,
{
    assert((a1 * ONE + a0) * (b1 * ONE + b0) == (a1 * b1 * ONE + a1 * b0 + a0 * b1) * ONE + a0 * b0)
        by (nonlinear_arith);
}

/// The product of two magnitudes, in whole units and what is left over; nothing where it
/// cannot be counted.
fn product(a: u128, b: u128) -> (r: Option<(u128, u128)>)
    requires
        a <= 0x8000_0000_0000_0000_0000_0000_0000_0000,
        b <= 0x8000_0000_0000_0000_0000_0000_0000_0000,
    ensures
        match r {
            Some((whole, rest)) => a * b == whole * ONE + rest && rest < ONE,
            None => a * b > (LIMIT + 1) * ONE,
        },
{
    let one: u128 = ONE as u128;
    let (a1, a0) = (a / one, a % one);
    let (b1, b0) = (b / one, b % one);
    proof {
        lemma_product_of_parts(a1 as int, a0 as int, b1 as int, b0 as int);
        assert(a == a1 * ONE + a0 && b == b1 * ONE + b0);
    }
    assert(0 <= a1 * b0 <= 170_141_183_460_469_231_731 * (ONE - 1)) by (nonlinear_arith)
        requires
            0 <= a1 <= 170_141_183_460_469_231_731,
            0 <= b0 <= ONE - 1,
    ;
    assert(0 <= a0 * b1 <= 170_141_183_460_469_231_731 * (ONE - 1)) by (nonlinear_arith)
        requires
            0 <= b1 <= 170_141_183_460_469_231_731,
            0 <= a0 <= ONE - 1,
    ;
    assert(0 <= a0 * b0 <= (ONE - 1) * (ONE - 1)) by (nonlinear_arith)
        requires
            0 <= a0 <= ONE - 1,
            0 <= b0 <= ONE - 1,
    ;
    assert(0 <= a1 * b1) by (nonlinear_arith)
        requires
            0 <= a1,
            0 <= b1,
    ;
    let middle: u128 = a1 * b0 + a0 * b1;
    let low: u128 = a0 * b0;
    let rest: u128 = low % one;
    let carried: u128 = low / one;
    let ghost exact = a1 * b1 * ONE + middle + carried;
    assert(a * b == exact * ONE + rest);
    match a1.checked_mul(b1) {
        Some(square) => match square.checked_mul(one) {
            Some(high) => match high.checked_add(middle) {
                Some(sum) => match sum.checked_add(carried) {
                    Some(whole) => Some((whole, rest)),
                    None => None,
                },
                None => None,
            },
            None => None,
        },
        None => None,
    }
}

/// Multiplies two amounts: what lies below a unit is cut off downwards, and the product is
/// held within the limit.
pub fn held_product(a: i128, b: i128) -> (product_in_units: i128)
    ensures
        product_in_units == held((a * b) / (ONE as int)),
{
    let (x, y) = (magnitude(a), magnitude(b));
    let negative = (a < 0) != (b < 0);
    proof {
        assert(negative ==> a * b == -(x * y)) by (nonlinear_arith)
            requires
                x == if a < 0 {
                    -a
                } else {
                    a as int
                },
                y == if b < 0 {
                    -b
                } else {
                    b as int
                },
                negative == ((a < 0) != (b < 0)),
        ;
        assert(!negative ==> a * b == x * y) by (nonlinear_arith)
            requires
                x == if a < 0 {
                    -a
                } else {
                    a as int
                },
                y == if b < 0 {
                    -b
                } else {
                    b as int
                },
                negative == ((a < 0) != (b < 0)),
        ;
    }
    match product(x, y) {
        Some((whole, rest)) => if whole > LIMIT as u128 {
            if negative {
                -LIMIT
            } else {
                LIMIT
            }
        } else if negative {
            let floor: i128 = if rest > 0 {
                -(whole as i128) - 1
            } else {
                -(whole as i128)
            };
            if floor < -LIMIT {
                -LIMIT
            } else {
                floor
            }
        } else {
            whole as i128
        },
        None => if negative {
            -LIMIT
        } else {
            LIMIT
        },
    }
}

pub open spec fn is_digit(c: char) -> bool {
    '0' <= c <= '9'
}

pub open spec fn digit_value(c: char) -> int {
    c as int - '0' as int
}

/// Where the run of digits that starts at `from` ends.
pub open spec fn digit_run(s: Seq<char>, from: int) -> int
    decreases s.len() - from,
{
    if 0 <= from < s.len() && is_digit(s[from]) {
        digit_run(s, from + 1)
    } else {
        from
    }
}

/// The first `len` of `digits`, continued by zeros, read as a whole number.
pub open spec fn leading(digits: Seq<char>, len: int) -> int
    decreases len,
{
    if len <= 0 {
        0
    } else {
        10 * leading(digits, len - 1) + if len - 1 < digits.len() {
            digit_value(digits[len - 1])
        } else {
            0
        }
    }
}

/// One when `s` starts with a sign, else zero.
pub open spec fn sign_len(s: Seq<char>) -> int {
    if s.len() > 0 && (s[0] == '+' || s[0] == '-') {
        1
    } else {
        0
    }
}

pub open spec fn is_negative(s: Seq<char>) -> bool {
    s.len() > 0 && s[0] == '-'
}

/// The value of a signed run of digits.
pub open spec fn exponent_value(s: Seq<char>) -> Option<int> {
    let start = sign_len(s);
    if start < s.len() && digit_run(s, start) == s.len() {
        let magnitude = leading(s.skip(start), s.len() - start);
        Some(
            if is_negative(s) {
                -magnitude
            } else {
                magnitude
            },
        )
    } else {
        None
    }
}

/// A numeral without a sign: digits, and how many of them stand before the point once an
/// exponent of ten has moved it.
pub struct Numeral {
    pub digits: Seq<char>,
    pub point: int,
}

impl Numeral {
    /// The units, without a limit; what lies below a unit is cut off.
    pub open spec fn units(self) -> int {
        leading(self.digits, self.point + PLACES)
    }

    /// Whether anything lies below a unit.
    pub open spec fn has_more(self) -> bool {
        exists|k: int|
            0 <= k < self.digits.len() && self.point + PLACES <= k && #[trigger] self.digits[k]
                != '0'
    }
}

/// The numeral that `s` is: digits with at most one point among or around them, then
/// possibly an exponent of ten.
pub open spec fn numeral(s: Seq<char>) -> Option<Numeral> {
    let whole = digit_run(s, 0);
    let point = whole < s.len() && s[whole] == '.';
    let end = if point {
        digit_run(s, whole + 1)
    } else {
        whole
    };
    let digits = if point {
        s.take(whole) + s.subrange(whole + 1, end)
    } else {
        s.take(whole)
    };
    let exponent = if end == s.len() {
        Some(0int)
    } else if s[end] == 'e' || s[end] == 'E' {
        exponent_value(s.skip(end + 1))
    } else {
        None
    };
    match exponent {
        Some(x) if digits.len() > 0 => Some(Numeral { digits, point: whole + x }),
        _ => None,
    }
}

/// Whether `s` is a word for an infinite amount.
pub open spec fn is_infinite(s: Seq<char>) -> bool {
    ||| s.len() == 3 && matches_at(s, 0, "inf"@)
    ||| s.len() == 8 && matches_at(s, 0, "infinity"@)
}

/// Whether `s` is the word for what is no number, with or without a sign.
pub open spec fn is_not_a_number(s: Seq<char>) -> bool {
    s.len() == 3 + sign_len(s) && matches_at(s.skip(sign_len(s)), 0, "nan"@)
}

/// The amount, in units, that a text spells, if it spells one: what lies below a unit is
/// cut off, or else, where it is to be rounded up, counts as a whole unit above zero.
pub open spec fn reading(s: Seq<char>, up: bool) -> Option<int> {
    let body = s.skip(sign_len(s));
    let magnitude = if is_infinite(body) {
        Some(LIMIT as int)
    } else {
        match numeral(body) {
            Some(n) => Some(
                n.units() + if up && !is_negative(s) && n.has_more() {
                    1int
                } else {
                    0
                },
            ),
            None => None,
        }
    };
    match magnitude {
        Some(m) => Some(
            held(
                if is_negative(s) {
                    -m
                } else {
                    m
                },
            ),
        ),
        None => None,
    }
}

/// The amount, in units, that a text spells, if it spells one.
pub open spec fn decimal_value(s: Seq<char>) -> Option<int> {
    reading(s, false)
}

proof fn lemma_run_bounds(s: Seq<char>, from: int)
    requires
        0 <= from <= s.len(),
    ensures
        from <= digit_run(s, from) <= s.len(),
        forall|k: int| from <= k < digit_run(s, from) ==> is_digit(#[trigger] s[k]),
    decreases s.len() - from,
{
    if from < s.len() && is_digit(s[from]) {
        lemma_run_bounds(s, from + 1);
    }
}

spec fn all_digits(s: Seq<char>) -> bool {
    forall|k: int| 0 <= k < s.len() ==> is_digit(#[trigger] s[k])
}

proof fn lemma_leading_grows(digits: Seq<char>, short: int, long: int)
    requires
        all_digits(digits),
        short <= long,
    ensures
        0 <= leading(digits, short) <= leading(digits, long),
    decreases long,
{
    if long > 0 {
        if short < long {
            lemma_leading_grows(digits, short, long - 1);
        } else {
            lemma_leading_grows(digits, short - 1, long - 1);
        }
    }
}

proof fn lemma_leading_stays_zero(digits: Seq<char>, len: int)
    requires
        digits.len() <= len,
        leading(digits, digits.len() as int) == 0,
    ensures
        leading(digits, len) == 0,
    decreases len - digits.len(),
{
    if digits.len() < len {
        lemma_leading_stays_zero(digits, len - 1);
    }
}

/// Past its last digit a number grows thirteen places at a time.
proof fn lemma_leading_thirteen(digits: Seq<char>, len: int)
    requires
        digits.len() <= len,
    ensures
        leading(digits, len + 13) == 10_000_000_000_000 * leading(digits, len),
{
    reveal_with_fuel(leading, 14);
}

/// Past its last digit a number that is not zero outgrows the limit.
proof fn lemma_leading_outgrows(digits: Seq<char>, len: int)
    requires
        all_digits(digits),
        digits.len() + 39 <= len,
        leading(digits, digits.len() as int) != 0,
    ensures
        leading(digits, len) > LIMIT,
{
    let n = digits.len() as int;
    lemma_leading_grows(digits, 0, n);
    lemma_leading_thirteen(digits, n);
    lemma_leading_thirteen(digits, n + 13);
    lemma_leading_thirteen(digits, n + 26);
    lemma_leading_grows(digits, n + 39, len);
}

/// Beyond `FAR` the exact exponent no longer matters.
proof fn lemma_far_exponent(digits: Seq<char>, len: int, far: int)
    requires
        all_digits(digits),
        digits.len() + 39 <= len,
        digits.len() + 39 <= far,
    ensures
        held(leading(digits, len)) == held(leading(digits, far)),
{
    if leading(digits, digits.len() as int) == 0 {
        lemma_leading_stays_zero(digits, len);
        lemma_leading_stays_zero(digits, far);
    } else {
        lemma_leading_outgrows(digits, len);
        lemma_leading_outgrows(digits, far);
    }
}

fn run_end(s: &Vec<char>, from: usize) -> (end: usize)
    requires
        from <= s.len(),
    ensures
        end == digit_run(s@, from as int),
        from <= end <= s.len(),
{
    let mut end = from;
    while end < s.len() && '0' <= s[end] && s[end] <= '9'
        invariant
            from <= end <= s.len(),
            digit_run(s@, from as int) == digit_run(s@, end as int),
        decreases s.len() - end,
    {
        end += 1;
    }
    end
}

fn part(s: &Vec<char>, from: usize, to: usize) -> (p: Vec<char>)
    requires
        from <= to <= s.len(),
    ensures
        p@ == s@.subrange(from as int, to as int),
{
    let mut p: Vec<char> = Vec::new();
    let mut i = from;
    while i < to
        invariant
            from <= i <= to <= s.len(),
            p@ == s@.subrange(from as int, i as int),
        decreases to - i,
    {
        p.push(s[i]);
        i += 1;
        assert(p@ =~= s@.subrange(from as int, i as int));
    }
    p
}

fn leading_held(digits: &Vec<char>, len: i128) -> (v: i128)
    requires
        all_digits(digits@),
    ensures
        v == held(leading(digits@, len as int)),
        0 <= v,
{
    let mut i: i128 = 0;
    let mut v: i128 = 0;
    while i < len
        invariant
            0 <= i,
            len >= 0 ==> i <= len,
            len < 0 ==> i == 0,
            all_digits(digits@),
            v == leading(digits@, i as int),
            0 <= v <= LIMIT,
        decreases len - i,
    {
        let d: i128 = if i < digits.len() as i128 {
            let c = digits[i as usize];
            assert(is_digit(digits@[i as int]));
            c as i128 - '0' as i128
        } else {
            if v == 0 {
                proof {
                    lemma_leading_grows(digits@, digits@.len() as int, i as int);
                    lemma_leading_grows(digits@, 0, digits@.len() as int);
                    lemma_leading_stays_zero(digits@, len as int);
                }
                return 0;
            }
            0
        };
        if v > (LIMIT - d) / 10 {
            proof {
                lemma_leading_grows(digits@, i + 1, len as int);
            }
            return LIMIT;
        }
        v = v * 10 + d;
        i += 1;
    }
    v
}

/// The exponent that `s` spells, held within plus and minus `FAR`.
fn exponent(s: &Vec<char>) -> (x: Option<i128>)
    ensures
        match (x, exponent_value(s@)) {
            (Some(x), Some(v)) => {
                &&& -FAR <= x <= FAR
                &&& -FAR < v < FAR ==> x == v
                &&& v >= FAR ==> x == FAR
                &&& v <= -FAR ==> x == -FAR
            },
            (None, None) => true,
            _ => false,
        },
{
    let start: usize = if s.len() > 0 && (s[0] == '+' || s[0] == '-') {
        1
    } else {
        0
    };
    if start >= s.len() || run_end(s, start) != s.len() {
        return None;
    }
    proof {
        lemma_run_bounds(s@, start as int);
    }
    let ghost digits = s@.skip(start as int);
    assert forall|k: int| 0 <= k < digits.len() implies is_digit(#[trigger] digits[k]) by {
        assert(is_digit(s@[start + k]));
    }
    let mut v: i128 = 0;
    let mut i: usize = start;
    while i < s.len()
        invariant
            start <= i <= s.len(),
            start <= 1,
            digits == s@.skip(start as int),
            all_digits(digits),
            0 <= v <= FAR,
            v < FAR ==> v == leading(digits, i - start),
            v == FAR ==> leading(digits, i - start) >= FAR,
        decreases s.len() - i,
    {
        assert(is_digit(digits[i - start]));
        let d: i128 = s[i] as i128 - '0' as i128;
        let next: i128 = v * 10 + d;
        v = if next >= FAR {
            FAR
        } else {
            next
        };
        i += 1;
    }
    if s[0] == '-' {
        Some(-v)
    } else {
        Some(v)
    }
}

/// Whether a digit from `from` on is not zero.
fn more_digits(digits: &Vec<char>, from: i128) -> (more: bool)
    ensures
        more == exists|k: int|
            0 <= k < digits.len() && from <= k && #[trigger] digits@[k] != '0',
{
    let mut i: usize = 0;
    while i < digits.len()
        invariant
            i <= digits.len(),
            forall|k: int| 0 <= k < i && from <= k ==> #[trigger] digits@[k] == '0',
        decreases digits.len() - i,
    {
        if i as i128 >= from && digits[i] != '0' {
            assert(digits@[i as int] != '0');
            return true;
        }
        i += 1;
    }
    false
}

fn unsigned(s: &Vec<char>, up: bool) -> (v: Option<i128>)
    ensures
        match (v, numeral(s@)) {
            (Some(v), Some(n)) => 0 <= v && v == held(
                n.units() + if up && n.has_more() {
                    1int
                } else {
                    0
                },
            ),
            (None, None) => true,
            _ => false,
        },
{
    let whole = run_end(s, 0);
    let mut digits = part(s, 0, whole);
    let mut end = whole;
    proof {
        lemma_run_bounds(s@, 0);
        assert(digits@ =~= s@.take(whole as int));
    }
    if whole < s.len() && s[whole] == '.' {
        proof {
            lemma_run_bounds(s@, whole + 1);
        }
        end = run_end(s, whole + 1);
        let mut fraction = part(s, whole + 1, end);
        digits.append(&mut fraction);
    }
    assert(all_digits(digits@));
    if digits.len() == 0 {
        return None;
    }
    let x: i128 = if end == s.len() {
        0
    } else if s[end] == 'e' || s[end] == 'E' {
        let tail = part(s, end + 1, s.len());
        assert(tail@ =~= s@.skip(end + 1));
        match exponent(&tail) {
            Some(x) => x,
            None => {
                return None;
            },
        }
    } else {
        return None;
    };
    let len: i128 = whole as i128 + x + PLACES;
    proof {
        let true_len = if end == s.len() {
            whole + PLACES
        } else {
            whole + exponent_value(s@.skip(end + 1))->0 + PLACES
        };
        if true_len != len {
            if x == FAR {
                lemma_far_exponent(digits@, true_len, len as int);
            }
        }
    }
    let ghost n = numeral(s@)->0;
    let cut = leading_held(&digits, len);
    if up && more_digits(&digits, len) {
        assert(n.has_more()) by {
            let k = choose|k: int| 0 <= k < digits.len() && len <= k && digits@[k] != '0';
            assert(n.digits[k] != '0');
        }
        Some(held_sum(cut, 1))
    } else {
        assert(up ==> !n.has_more()) by {
            if n.has_more() {
                let k = choose|k: int|
                    0 <= k < n.digits.len() && n.point + PLACES <= k && n.digits[k] != '0';
                assert(digits@[k] != '0');
            }
        }
        Some(cut)
    }
}

fn is_word(s: &Vec<char>, word: &str) -> (b: bool)
    ensures
        b == (s.len() == word@.len() && matches_at(s@, 0, word@)),
{
    let at = find(s, word);
    if s.len() == word.unicode_len() {
        at.is_some()
    } else {
        false
    }
}

/// Whether a text is the word for what is no number.
pub fn spells_no_number(s: &Vec<char>) -> (b: bool)
    ensures
        b == is_not_a_number(s@),
{
    let start: usize = if s.len() > 0 && (s[0] == '+' || s[0] == '-') {
        1
    } else {
        0
    };
    let body = part(s, start, s.len());
    assert(body@ =~= s@.skip(start as int));
    proof {
        reveal_strlit("nan");
    }
    is_word(&body, "nan")
}

/// Reads a decimal numeral, rounded up where that is asked for.
pub fn parse_rounded(s: &Vec<char>, up: bool) -> (d: Option<Decimal>)
    ensures
        opt_units(d) == reading(s@, up),
{
    let negative = s.len() > 0 && s[0] == '-';
    let start: usize = if s.len() > 0 && (s[0] == '+' || s[0] == '-') {
        1
    } else {
        0
    };
    let body = part(s, start, s.len());
    assert(body@ =~= s@.skip(start as int));
    proof {
        reveal_strlit("inf");
        reveal_strlit("infinity");
    }
    let magnitude: i128 = if is_word(&body, "inf") || is_word(&body, "infinity") {
        LIMIT
    } else {
        match unsigned(&body, up && !negative) {
            Some(m) => m,
            None => {
                return None;
            },
        }
    };
    if negative {
        Some(Decimal::from_units(-magnitude))
    } else {
        Some(Decimal::from_units(magnitude))
    }
}

/// Reads a decimal numeral.
pub fn parse_chars(s: &Vec<char>) -> (d: Option<Decimal>)
    ensures
        opt_units(d) == decimal_value(s@),
{
    parse_rounded(s, false)
}

impl Decimal {
    /// Reads a decimal numeral: an optional sign, digits with at most one point,
    /// an optional exponent of ten; or a word for what is infinite.
    pub fn parse(text: &str) -> (d: Option<Decimal>)
        ensures
            opt_units(d) == decimal_value(text@),
    {
        let chars = to_chars(text);
        parse_chars(&chars)
    }
}

/// The whole number nearest to `a / b`; of two that are equally near, the even one.
pub open spec fn nearest_even(a: int, b: int) -> int {
    let below = a / b;
    let rest = a % b;
    if 2 * rest > b || (2 * rest == b && below % 2 == 1) {
        below + 1
    } else {
        below
    }
}

/// The power of two that takes `v` to `goal` or just beyond.
pub open spec fn scale(v: int, goal: int) -> int
    decreases 2 * goal - v,
{
    if 0 < v < goal {
        2 * scale(2 * v, goal)
    } else {
        1
    }
}

/// Ten-thousandths in `v` units, rounded as double precision does: first to the
/// nearest number of 53 binary digits, and that to the nearest ten-thousandth.
pub open spec fn ten_thousandths(v: int) -> int {
    let up = scale(v, FULL as int);
    let down = scale(2 * FULL, v + 1);
    let binary = nearest_even(v * up, ONE * down);
    nearest_even(binary * down * 10_000, up)
}

/// Four digits of a number below ten thousand.
pub open spec fn four_digits(n: int) -> Seq<char> {
    seq![
        digit_char(n / 1000),
        digit_char((n / 100) % 10),
        digit_char((n / 10) % 10),
        digit_char(n % 10),
    ]
}

/// `v` units written with four digits behind the point.
pub open spec fn fixed4_text(v: int) -> Seq<char> {
    let t = ten_thousandths(
        if v < 0 {
            -v
        } else {
            v
        },
    );
    let sign = if v < 0 {
        seq!['-']
    } else {
        seq![]
    };
    sign + nat_text((t / 10_000) as nat) + seq!['.'] + four_digits(t % 10_000)
}

fn nearest(a: u128, b: u128) -> (n: u128)
    requires
        0 < b <= i128::MAX,
        a <= i128::MAX,
    ensures
        n == nearest_even(a as int, b as int),
{
    let below: u128 = a / b;
    let rest: u128 = a % b;
    proof {
        vstd::arithmetic::div_mod::lemma_div_is_ordered_by_denominator(a as int, 1, b as int);
        vstd::arithmetic::div_mod::lemma_div_basics(a as int);
    }
    if 2 * rest > b || (2 * rest == b && below % 2 == 1) {
        below + 1
    } else {
        below
    }
}

/// `v` times a power of two, just so that it is at least `goal`; and that power.
fn scaled(v: u128, goal: u128) -> (r: (u128, u128))
    requires
        0 < v,
        goal <= 0x8000_0000_0000_0000_0000_0000_0000_0000,
    ensures
        r.1 == scale(v as int, goal as int),
        r.0 == v * r.1,
        1 <= r.1,
        goal <= r.0,
        r.1 > 1 ==> r.0 < 2 * goal,
{
    let mut w: u128 = v;
    let mut s: u128 = 1;
    while w < goal
        invariant
            0 < v,
            goal <= 0x8000_0000_0000_0000_0000_0000_0000_0000,
            w == v * s,
            1 <= s,
            s > 1 ==> w < 2 * goal,
            scale(v as int, goal as int) == s * scale(w as int, goal as int),
        decreases 2 * goal - w,
    {
        let ghost before = s as int;
        assert(s <= v * s) by (nonlinear_arith)
            requires
                v >= 1,
                s >= 1,
        ;
        assert(v * (2 * s) == 2 * (v * s)) by (nonlinear_arith);
        proof {
            let rest = scale(2 * w, goal as int);
            assert((2 * before) * rest == before * (2 * rest)) by (nonlinear_arith);
        }
        w = 2 * w;
        s = 2 * s;
    }
    (w, s)
}

proof fn lemma_nearest_at_most(a: int, b: int, bound: int)
    requires
        0 <= a <= bound * b,
        0 < b,
    ensures
        0 <= nearest_even(a, b) <= bound,
{
    vstd::arithmetic::div_mod::lemma_fundamental_div_mod(a, b);
    vstd::arithmetic::div_mod::lemma_div_pos_is_pos(a, b);
    let q = a / b;
    assert(q <= bound && (q == bound ==> a % b == 0)) by (nonlinear_arith)
        requires
            a == b * q + a % b,
            0 <= a % b < b,
            a <= bound * b,
            0 < b,
    ;
}

/// Ten-thousandths in an amount of units.
fn rounded(v: u128) -> (t: u128)
    requires
        v <= LIMIT,
    ensures
        t == ten_thousandths(v as int),
{
    if v == 0 {
        assert(ten_thousandths(0) == 0);
        return 0;
    }
    let full: u128 = FULL as u128;
    let (numerator, up) = scaled(v, full);
    let (ceiling, down) = scaled(2 * full, v + 1);
    assert(ceiling == 2 * FULL * down && numerator == v * up);
    assert(up == 1 ==> v * up == v) by (nonlinear_arith);
    assert(up <= v * up) by (nonlinear_arith)
        requires
            1 <= v,
            1 <= up,
    ;
    assert(numerator <= 2 * FULL * down);
    assert(down <= 0x1_0000);
    proof {
        lemma_nearest_at_most(numerator as int, ONE * down, 0x20_0000_0000_0000);
    }
    let binary = nearest(numerator, ONE as u128 * down);
    assert(binary * down <= 0x20_0000_0000_0000 * 0x1_0000) by (nonlinear_arith)
        requires
            0 <= binary <= 0x20_0000_0000_0000,
            0 <= down <= 0x1_0000,
    ;
    let fraction: u128 = binary * down * 10_000;
    nearest(fraction, up)
}

impl Decimal {
    /// Writes the amount with four digits behind the point.
    pub fn to_fixed4(&self) -> (s: String)
        ensures
            s@ == fixed4_text(self@),
    {
        let units = self.units();
        let magnitude: u128 = if units < 0 {
            (-units) as u128
        } else {
            units as u128
        };
        let t = rounded(magnitude);
        let mut s = String::new();
        if units < 0 {
            proof {
                reveal_strlit("-");
            }
            s.append("-");
        }
        let ghost sign = s@;
        push_nat(&mut s, t / 10_000);
        proof {
            reveal_strlit(".");
        }
        s.append(".");
        let n: u128 = t % 10_000;
        push_nat(&mut s, n / 1000);
        push_nat(&mut s, (n / 100) % 10);
        push_nat(&mut s, (n / 10) % 10);
        push_nat(&mut s, n % 10);
        assert(s@ =~= fixed4_text(self@));
        s
    }
}

proof fn lemma_nat_text_digits(n: nat)
    ensures
        nat_text(n).len() > 0,
        all_digits(nat_text(n)),
        leading(nat_text(n), nat_text(n).len() as int) == n,
    decreases n,
{
    reveal_with_fuel(leading, 2);
    if n >= 10 {
        let front = nat_text(n / 10);
        lemma_nat_text_digits(n / 10);
        lemma_leading_prefix(front, nat_text(n), front.len() as int);
        assert(nat_text(n).last() == digit_char((n % 10) as int));
    }
}

/// Only the digits that are counted matter.
proof fn lemma_leading_prefix(a: Seq<char>, b: Seq<char>, len: int)
    requires
        len <= a.len() <= b.len(),
        forall|k: int| 0 <= k < a.len() ==> a[k] == b[k],
    ensures
        leading(a, len) == leading(b, len),
    decreases len,
{
    if len > 0 {
        lemma_leading_prefix(a, b, len - 1);
    }
}

/// A run of digits ends at the first character that is none.
proof fn lemma_run_ends(s: Seq<char>, from: int, end: int)
    requires
        0 <= from <= end <= s.len(),
        forall|k: int| from <= k < end ==> is_digit(#[trigger] s[k]),
        end < s.len() ==> !is_digit(s[end]),
    ensures
        digit_run(s, from) == end,
    decreases end - from,
{
    if from < end {
        lemma_run_ends(s, from + 1, end);
    }
}

/// A number below ten thousand from its four digits.
proof fn lemma_digits_of(r: int)
    requires
        0 <= r < 10_000,
    ensures
        r == 1000 * (r / 1000) + 100 * ((r / 100) % 10) + 10 * ((r / 10) % 10) + r % 10,
        0 <= r / 1000 < 10,
{
    let tens = r / 10;
    let hundreds = tens / 10;
    vstd::arithmetic::div_mod::lemma_div_denominator(r, 10, 10);
    vstd::arithmetic::div_mod::lemma_div_denominator(r, 100, 10);
    assert(r == 10 * tens + r % 10);
    assert(tens == 10 * hundreds + tens % 10);
    assert(hundreds == 10 * (hundreds / 10) + hundreds % 10);
}

proof fn lemma_one_more_place(digits: Seq<char>, n: int, d: int)
    requires
        0 <= n < digits.len(),
        digits[n] == digit_char(d),
        0 <= d < 10,
    ensures
        leading(digits, n + 1) == 10 * leading(digits, n) + d,
{
}

proof fn lemma_four_places(digits: Seq<char>, n: int, w: int, r: int)
    requires
        0 <= n,
        0 <= r < 10_000,
        digits.len() == n + 4,
        digits.skip(n) == four_digits(r),
        leading(digits, n) == w,
    ensures
        leading(digits, n + 18) == (10_000 * w + r) * 100_000_000_000_000,
{
    let f = digits.skip(n);
    assert(digits[n] == f[0] && digits[n + 1] == f[1] && digits[n + 2] == f[2] && digits[n + 3]
        == f[3]);
    lemma_digits_of(r);
    lemma_one_more_place(digits, n, r / 1000);
    lemma_one_more_place(digits, n + 1, (r / 100) % 10);
    lemma_one_more_place(digits, n + 2, (r / 10) % 10);
    lemma_one_more_place(digits, n + 3, r % 10);
    assert(leading(digits, n + 4) == 10_000 * w + r);
    lemma_leading_thirteen(digits, n + 4);
}

proof fn lemma_fixed4_unsigned(t: int)
    requires
        0 <= t,
    ensures
        ({
            let s = nat_text((t / 10_000) as nat) + seq!['.'] + four_digits(t % 10_000);
            &&& numeral(s) is Some
            &&& numeral(s)->0.units() == t * 100_000_000_000_000
            &&& s.len() > 0
            &&& is_digit(s[0])
        }),
{
    let w = nat_text((t / 10_000) as nat);
    let f = four_digits(t % 10_000);
    let s = w + seq!['.'] + f;
    let n = w.len() as int;
    lemma_nat_text_digits((t / 10_000) as nat);
    assert forall|k: int| 0 <= k < n implies is_digit(#[trigger] s[k]) by {
        assert(s[k] == w[k]);
    }
    lemma_run_ends(s, 0, n);
    assert forall|k: int| n + 1 <= k < s.len() implies is_digit(#[trigger] s[k]) by {
        assert(s[k] == f[k - n - 1]);
    }
    lemma_run_ends(s, n + 1, s.len() as int);
    let digits = s.take(n) + s.subrange(n + 1, s.len() as int);
    assert(digits =~= w + f);
    lemma_leading_prefix(w, digits, n);
    assert(digits.skip(n) =~= f);
    lemma_four_places(digits, n, t / 10_000, t % 10_000);
}

proof fn lemma_ten_thousandths_nonnegative(v: int)
    requires
        0 <= v,
    ensures
        0 <= ten_thousandths(v),
{
    let up = scale(v, FULL as int);
    let down = scale(2 * FULL, v + 1);
    if v > 0 {
        lemma_scale(v, FULL as int);
    }
    lemma_scale(2 * FULL, v + 1);
    let binary = nearest_even(v * up, ONE * down);
    assert(0 <= v * up && 0 < ONE * down) by (nonlinear_arith)
        requires
            0 <= v,
            1 <= up,
            1 <= down,
            ONE == 1_000_000_000_000_000_000,
    ;
    vstd::arithmetic::div_mod::lemma_div_pos_is_pos(v * up, ONE * down);
    assert(0 <= binary * down * 10_000) by (nonlinear_arith)
        requires
            0 <= binary,
            1 <= down,
    ;
    vstd::arithmetic::div_mod::lemma_div_pos_is_pos(binary * down * 10_000, up);
}

/// Below two to the thirty-eighth, a whole number of ten-thousandths is written as it is.
proof fn lemma_ten_thousandths_exact(t: int)
    requires
        0 <= t < 10_000 * 0x40_0000_0000,
    ensures
        ten_thousandths(t * 100_000_000_000_000) == t,
{
    let v = t * 100_000_000_000_000;
    if t > 0 {
        let goal = FULL as int;
        let up = scale(v, goal);
        lemma_scale(v, goal);
        assert(up > 0x4000) by (nonlinear_arith)
            requires
                v * up >= 0x10_0000_0000_0000 * 1_000_000_000_000_000_000,
                0 < v < 0x40_0000_0000 * 1_000_000_000_000_000_000,
        ;
        let binary = nearest_even(v * up, ONE as int);
        let exact = t * up;
        assert(v * up == 100_000_000_000_000 * exact) by (nonlinear_arith)
            requires
                v == t * 100_000_000_000_000,
                exact == t * up,
        ;
        assert(-5_000 <= binary * 10_000 - exact <= 5_000);
        lemma_nearest_is(binary * 10_000, up, t);
    }
}

proof fn lemma_scale(v: int, goal: int)
    requires
        0 < v,
    ensures
        1 <= scale(v, goal),
        goal <= v * scale(v, goal),
    decreases 2 * goal - v,
{
    if v < goal {
        lemma_scale(2 * v, goal);
        let rest = scale(2 * v, goal);
        assert((2 * v) * rest == v * (2 * rest)) by (nonlinear_arith);
    }
}

/// A number that is less than half a step away from `n` steps is rounded to `n`.
proof fn lemma_nearest_is(a: int, b: int, n: int)
    requires
        0 < b,
        -b < 2 * (a - n * b) < b,
    ensures
        nearest_even(a, b) == n,
{
    vstd::arithmetic::div_mod::lemma_fundamental_div_mod(a, b);
    let q = a / b;
    let r = a % b;
    assert(q == n || q == n - 1) by (nonlinear_arith)
        requires
            a == b * q + r,
            0 <= r < b,
            -b < 2 * (a - n * b) < b,
    ;
    assert(b * n == n * b && b * (n - 1) == n * b - b) by (nonlinear_arith);
}

/// What an amount is written as with four places reads back as the ten-thousandth that it
/// was rounded to; and an amount below two to the thirty-eighth that is a whole number of
/// ten-thousandths reads back unchanged.
pub proof fn law_fixed4_reads_back(v: int)
    requires
        -LIMIT <= v <= LIMIT,
    ensures
        decimal_value(fixed4_text(v)) == Some(
            held(
                100_000_000_000_000 * if v < 0 {
                    -ten_thousandths(-v)
                } else {
                    ten_thousandths(v)
                },
            ),
        ),
        v % 100_000_000_000_000 == 0 && -0x40_0000_0000 * ONE < v < 0x40_0000_0000 * ONE ==> decimal_value(
            fixed4_text(v),
        ) == Some(v),
{
    let m = if v < 0 {
        -v
    } else {
        v
    };
    let t = ten_thousandths(m);
    lemma_ten_thousandths_nonnegative(m);
    if v % 100_000_000_000_000 == 0 && m < 0x40_0000_0000 * ONE {
        lemma_ten_thousandths_exact(m / 100_000_000_000_000);
    }
    let body = nat_text((t / 10_000) as nat) + seq!['.'] + four_digits(t % 10_000);
    lemma_fixed4_unsigned(t);
    let s = fixed4_text(v);
    if v < 0 {
        assert(s =~= seq!['-'] + body);
        assert(s[0] == '-');
    } else {
        assert(s =~= body);
    }
    assert(s.skip(sign_len(s)) =~= body);
    reveal_strlit("inf");
    reveal_strlit("infinity");
    assert(!is_infinite(body)) by {
        assert(ascii_lower(body[0int + 0int]) == body[0]);
    }
}

/// The number that a run of digits spells.
pub open spec fn digits_value(digits: Seq<char>) -> int {
    leading(digits, digits.len() as int)
}

proof fn lemma_pow_step(e: int)
    requires
        0 < e,
    ensures
        pow(10, e as nat) == 10 * pow(10, (e - 1) as nat),
        pow(10, e as nat) > 0,
{
    reveal(pow);
    vstd::arithmetic::power::lemma_pow_positive(10, e as nat);
}

proof fn lemma_pow_zero()
    ensures
        pow(10, 0) == 1,
{
    reveal(pow);
}

/// A run of digits is read in the decimal system: a single digit is its value, and digits
/// behind others count as many places less as they are.
pub proof fn law_digits_are_read_in_tens(front: Seq<char>, back: Seq<char>)
    ensures
        digits_value(front + back) == digits_value(front) * pow(10, back.len()) + digits_value(
            back,
        ),
        forall|c: char| '0' <= c <= '9' ==> #[trigger] digits_value(seq![c]) == c as int
            - '0' as int,
        digits_value(Seq::<char>::empty()) == 0,
    decreases back.len(),
{
    assert forall|c: char| '0' <= c <= '9' implies #[trigger] digits_value(seq![c]) == c as int
        - '0' as int by {
        reveal_with_fuel(leading, 2);
    }
    let s = front + back;
    let n = back.len() as int;
    if n == 0 {
        assert(s =~= front);
        lemma_pow_zero();
        assert(digits_value(front) * 1 == digits_value(front));
    } else {
        let rest = back.drop_last();
        law_digits_are_read_in_tens(front, rest);
        assert(s.drop_last() =~= front + rest);
        lemma_leading_prefix(front + rest, s, s.len() - 1);
        lemma_leading_prefix(rest, back, n - 1);
        assert(s[s.len() - 1] == back[n - 1]);
        lemma_pow_step(n);
        let p = pow(10, (n - 1) as nat);
        let d = digits_value(front);
        assert(10 * (d * p) == d * (10 * p)) by (nonlinear_arith);
    }
}

/// More places than there are digits are filled with zeros.
proof fn lemma_places_filled(digits: Seq<char>, more: int)
    requires
        0 <= more,
    ensures
        leading(digits, digits.len() + more) == digits_value(digits) * pow(10, more as nat),
    decreases more,
{
    if more == 0 {
        lemma_pow_zero();
        assert(digits_value(digits) * 1 == digits_value(digits));
    } else {
        lemma_places_filled(digits, more - 1);
        lemma_pow_step(more);
        let p = pow(10, (more - 1) as nat);
        let d = digits_value(digits);
        assert(10 * (d * p) == d * (10 * p)) by (nonlinear_arith);
    }
}

/// Fewer places than there are digits cut the number off.
proof fn lemma_places_cut(digits: Seq<char>, keep: int)
    requires
        all_digits(digits),
        0 <= keep <= digits.len(),
    ensures
        ({
            let p = pow(10, (digits.len() - keep) as nat);
            let v = leading(digits, keep);
            &&& v * p <= digits_value(digits) < (v + 1) * p
            &&& p > 0
            &&& digits_value(digits) == v * p <==> forall|k: int|
                keep <= k < digits.len() ==> #[trigger] digits[k] == '0'
        }),
    decreases digits.len() - keep,
{
    let less = digits.len() - keep;
    let v = leading(digits, keep);
    if less == 0 {
        lemma_pow_zero();
        assert(v * 1 == v && (v + 1) * 1 == v + 1);
    } else {
        lemma_places_cut(digits, keep + 1);
        lemma_pow_step(less);
        let p = pow(10, (less - 1) as nat);
        let d = digit_value(digits[keep]);
        assert(is_digit(digits[keep]));
        let w = leading(digits, keep + 1);
        let total = digits_value(digits);
        assert(w == 10 * v + d);
        assert(v * (10 * p) <= total < (v + 1) * (10 * p) && (total == v * (10 * p) <==> d == 0
            && total == w * p)) by (nonlinear_arith)
            requires
                w == 10 * v + d,
                0 <= d <= 9,
                p > 0,
                w * p <= total < (w + 1) * p,
        ;
        if forall|k: int| keep <= k < digits.len() ==> #[trigger] digits[k] == '0' {
            assert(digits[keep] == '0');
        }
        if total == v * (10 * p) {
            assert forall|k: int| keep <= k < digits.len() implies #[trigger] digits[k] == '0' by {
                if k == keep {
                    assert(d == 0);
                }
            }
        }
    }
}

/// The digits of a numeral, a point somewhere among or around them.
pub open spec fn with_point(whole: Seq<char>, fraction: Seq<char>) -> Seq<char> {
    whole + seq!['.'] + fraction
}

proof fn lemma_plain_numeral(whole: Seq<char>, fraction: Seq<char>)
    requires
        all_digits(whole),
        all_digits(fraction),
        whole.len() + fraction.len() > 0,
    ensures
        numeral(with_point(whole, fraction)) == Some(
            Numeral { digits: whole + fraction, point: whole.len() as int },
        ),
        whole.len() > 0 ==> numeral(whole) == Some(
            Numeral { digits: whole, point: whole.len() as int },
        ),
{
    let s = with_point(whole, fraction);
    let n = whole.len() as int;
    assert forall|k: int| 0 <= k < n implies is_digit(#[trigger] s[k]) by {
        assert(s[k] == whole[k]);
    }
    assert(s[n] == '.');
    lemma_run_ends(s, 0, n);
    assert forall|k: int| n + 1 <= k < s.len() implies is_digit(#[trigger] s[k]) by {
        assert(s[k] == fraction[k - n - 1]);
    }
    lemma_run_ends(s, n + 1, s.len() as int);
    assert(s.take(n) + s.subrange(n + 1, s.len() as int) =~= whole + fraction);
    if n > 0 {
        lemma_run_ends(whole, 0, n);
        assert(whole.take(n) =~= whole);
    }
}

proof fn lemma_no_sign(s: Seq<char>)
    requires
        s.len() > 0,
        is_digit(s[0]) || s[0] == '.',
    ensures
        sign_len(s) == 0,
        !is_negative(s),
        s.skip(0) == s,
        !is_infinite(s),
        !is_not_a_number(s),
{
    reveal_strlit("inf");
    reveal_strlit("infinity");
    reveal_strlit("nan");
    assert(s.skip(0) =~= s);
    assert(!is_infinite(s) && !is_not_a_number(s)) by {
        assert(ascii_lower(s[0int + 0int]) == s[0]);
    }
}

/// A numeral is the number that its digits spell, as many places behind the point as it
/// has: exactly so up to eighteen places. What lies behind them is cut off, or rounded up
/// where that is asked for and anything is there.
pub proof fn law_numeral_is_its_number(whole: Seq<char>, fraction: Seq<char>)
    requires
        forall|k: int| 0 <= k < whole.len() ==> '0' <= (#[trigger] whole[k]) <= '9',
        forall|k: int| 0 <= k < fraction.len() ==> '0' <= (#[trigger] fraction[k]) <= '9',
        whole.len() + fraction.len() > 0,
    ensures
        ({
            let s = with_point(whole, fraction);
            let number = digits_value(whole + fraction);
            let n = fraction.len() as int;
            &&& n <= 18 ==> decimal_value(s) == Some(held(number * pow(10, (18 - n) as nat)))
                && reading(s, true) == decimal_value(s)
            &&& n > 18 ==> exists|v: int|
                {
                    &&& v * pow(10, (n - 18) as nat) <= number < (v + 1) * pow(
                        10,
                        (n - 18) as nat,
                    )
                    &&& decimal_value(s) == Some(#[trigger] held(v))
                    &&& reading(s, true) == Some(
                        held(
                            if number == v * pow(10, (n - 18) as nat) {
                                v
                            } else {
                                v + 1
                            },
                        ),
                    )
                }
        }),
        whole.len() > 0 ==> decimal_value(whole) == Some(
            held(digits_value(whole) * 1_000_000_000_000_000_000),
        ),
{
    let s = with_point(whole, fraction);
    let digits = whole + fraction;
    let n = fraction.len() as int;
    assert(all_digits(whole) && all_digits(fraction) && all_digits(digits)) by {
        assert forall|k: int| 0 <= k < digits.len() implies is_digit(#[trigger] digits[k]) by {
            if k < whole.len() {
                assert(digits[k] == whole[k]);
            } else {
                assert(digits[k] == fraction[k - whole.len()]);
            }
        }
    }
    lemma_plain_numeral(whole, fraction);
    assert(s[0] == if whole.len() > 0 {
        whole[0]
    } else {
        '.'
    });
    lemma_no_sign(s);
    let m = numeral(s)->0;
    if n <= 18 {
        lemma_places_filled(digits, 18 - n);
        assert(!m.has_more());
    } else {
        let keep = whole.len() as int + 18;
        lemma_places_cut(digits, keep);
        let v = leading(digits, keep);
        let p = pow(10, (n - 18) as nat);
        assert(v * p <= digits_value(digits) < (v + 1) * p);
        assert(decimal_value(s) == Some(held(v)));
        assert(m.has_more() <==> digits_value(digits) != v * p) by {
            if m.has_more() {
                let k = choose|k: int|
                    0 <= k < m.digits.len() && m.point + PLACES <= k && #[trigger] m.digits[k]
                        != '0';
                assert(digits[k] != '0');
            } else {
                assert forall|k: int| keep <= k < digits.len() implies #[trigger] digits[k]
                    == '0' by {
                    assert(m.digits[k] == digits[k]);
                }
            }
        }
    }
    if whole.len() > 0 {
        lemma_no_sign(whole);
        lemma_places_filled(whole, 18);
        assert(pow(10, 18) == 1_000_000_000_000_000_000) by {
            vstd::arithmetic::power::lemma_pow_adds(10, 9, 9);
            reveal_with_fuel(pow, 10);
        }
    }
}

/// A minus in front of a numeral turns its number into the opposite; a plus changes
/// nothing.
pub proof fn law_sign_turns_the_number(s: Seq<char>)
    requires
        s.len() > 0,
        '0' <= s[0] <= '9' || s[0] == '.',
    ensures
        decimal_value(seq!['+'] + s) == decimal_value(s),
        reading(seq!['+'] + s, true) == reading(s, true),
        reading(seq!['-'] + s, true) == decimal_value(seq!['-'] + s),
        decimal_value(s) is None ==> decimal_value(seq!['-'] + s) is None,
        decimal_value(s) matches Some(v) ==> decimal_value(seq!['-'] + s) == Some(-v),
{
    lemma_no_sign(s);
    assert((seq!['+'] + s).skip(1) =~= s);
    assert((seq!['-'] + s).skip(1) =~= s);
}

proof fn lemma_exponent_of_numeral(n: nat)
    ensures
        exponent_value(nat_text(n)) == Some(n as int),
        exponent_value(seq!['+'] + nat_text(n)) == Some(n as int),
        exponent_value(seq!['-'] + nat_text(n)) == Some(-n),
{
    let t = nat_text(n);
    lemma_nat_text_digits(n);
    assert(is_digit(t[0]));
    lemma_run_ends(t, 0, t.len() as int);
    assert(t.skip(0) =~= t);
    let plus = seq!['+'] + t;
    let minus = seq!['-'] + t;
    assert forall|k: int| 1 <= k < plus.len() implies is_digit(#[trigger] plus[k]) by {
        assert(plus[k] == t[k - 1]);
    }
    assert forall|k: int| 1 <= k < minus.len() implies is_digit(#[trigger] minus[k]) by {
        assert(minus[k] == t[k - 1]);
    }
    lemma_run_ends(plus, 1, plus.len() as int);
    lemma_run_ends(minus, 1, minus.len() as int);
    assert(plus.skip(1) =~= t);
    assert(minus.skip(1) =~= t);
}

/// An exponent moves the point: behind a numeral it counts places to the right, and with a
/// minus to the left. Nothing else about the numeral changes.
pub proof fn law_exponent_moves_the_point(whole: Seq<char>, fraction: Seq<char>, n: nat)
    requires
        forall|k: int| 0 <= k < whole.len() ==> '0' <= (#[trigger] whole[k]) <= '9',
        forall|k: int| 0 <= k < fraction.len() ==> '0' <= (#[trigger] fraction[k]) <= '9',
        whole.len() + fraction.len() > 0,
    ensures
        ({
            let s = with_point(whole, fraction);
            let digits = whole + fraction;
            let right = Some(Numeral { digits, point: whole.len() as int + n });
            let left = Some(Numeral { digits, point: whole.len() - n });
            &&& numeral(s + seq!['e'] + nat_text(n)) == right
            &&& numeral(s + seq!['E'] + nat_text(n)) == right
            &&& numeral(s + seq!['e', '+'] + nat_text(n)) == right
            &&& numeral(s + seq!['e', '-'] + nat_text(n)) == left
            &&& numeral(s + seq!['E', '-'] + nat_text(n)) == left
        }),
{
    let t = nat_text(n);
    lemma_exponent_of_numeral(n);
    lemma_exponent_part(whole, fraction, 'e', t);
    lemma_exponent_part(whole, fraction, 'E', t);
    lemma_exponent_part(whole, fraction, 'e', seq!['+'] + t);
    lemma_exponent_part(whole, fraction, 'e', seq!['-'] + t);
    lemma_exponent_part(whole, fraction, 'E', seq!['-'] + t);
    let s = with_point(whole, fraction);
    assert(s + seq!['e', '+'] + t =~= s + seq!['e'] + (seq!['+'] + t));
    assert(s + seq!['e', '-'] + t =~= s + seq!['e'] + (seq!['-'] + t));
    assert(s + seq!['E', '-'] + t =~= s + seq!['E'] + (seq!['-'] + t));
}

proof fn lemma_exponent_part(whole: Seq<char>, fraction: Seq<char>, e: char, tail: Seq<char>)
    requires
        all_digits(whole),
        all_digits(fraction),
        whole.len() + fraction.len() > 0,
        e == 'e' || e == 'E',
        exponent_value(tail) is Some,
    ensures
        numeral(with_point(whole, fraction) + seq![e] + tail) == Some(
            Numeral {
                digits: whole + fraction,
                point: whole.len() + exponent_value(tail)->0,
            },
        ),
{
    let base = with_point(whole, fraction);
    let s = base + seq![e] + tail;
    let n = whole.len() as int;
    let end = base.len() as int;
    assert forall|k: int| 0 <= k < n implies is_digit(#[trigger] s[k]) by {
        assert(s[k] == whole[k]);
    }
    assert(s[n] == '.');
    lemma_run_ends(s, 0, n);
    assert forall|k: int| n + 1 <= k < end implies is_digit(#[trigger] s[k]) by {
        assert(s[k] == fraction[k - n - 1]);
    }
    assert(s[end] == e);
    lemma_run_ends(s, n + 1, end);
    assert(s.take(n) + s.subrange(n + 1, end) =~= whole + fraction);
    assert(s.skip(end + 1) =~= tail);
}

/// Only numerals are read: a text that is an amount has a digit, and nothing but digits,
/// points, signs and the letter of an exponent; or it is a word for what is infinite.
pub proof fn law_only_numerals_are_read(s: Seq<char>, up: bool)
    requires
        reading(s, up) is Some,
        !is_infinite(s.skip(sign_len(s))),
    ensures
        exists|i: int| 0 <= i < s.len() && '0' <= (#[trigger] s[i]) <= '9',
        forall|i: int|
            0 <= i < s.len() ==> '0' <= (#[trigger] s[i]) <= '9' || s[i] == '.' || s[i] == '+'
                || s[i] == '-' || s[i] == 'e' || s[i] == 'E',
{
    let start = sign_len(s);
    let body = s.skip(start);
    let whole = digit_run(body, 0);
    lemma_run_bounds(body, 0);
    let point = whole < body.len() && body[whole] == '.';
    if point {
        lemma_run_bounds(body, whole + 1);
    }
    let end = if point {
        digit_run(body, whole + 1)
    } else {
        whole
    };
    let digits = numeral(body)->0.digits;
    assert(digits.len() > 0);
    let first = if whole > 0 {
        0
    } else {
        1int
    };
    assert(is_digit(body[first]));
    assert(s[start + first] == body[first]);
    if end < body.len() {
        let tail = body.skip(end + 1);
        let from = sign_len(tail);
        lemma_run_bounds(tail, from);
        assert forall|i: int| end < i < body.len() implies is_digit(#[trigger] body[i]) || body[i]
            == '+' || body[i] == '-' by {
            assert(body[i] == tail[i - end - 1]);
        }
    }
    assert forall|i: int| 0 <= i < s.len() implies '0' <= (#[trigger] s[i]) <= '9' || s[i] == '.'
        || s[i] == '+' || s[i] == '-' || s[i] == 'e' || s[i] == 'E' by {
        if i >= start {
            let k = i - start;
            assert(body[k] == s[i]);
            if k < whole {
                assert(is_digit(body[k]));
            } else if point && whole < k < end {
                assert(is_digit(body[k]));
            }
        }
    }
}

/// The words for what is infinite and for what is no number, in any case; the first is the
/// largest amount, and the second none.
pub proof fn law_words_are_read(s: Seq<char>)
    requires
        s.len() == 3,
    ensures
        ({
            let i = s[0] == 'i' || s[0] == 'I';
            let n = s[1] == 'n' || s[1] == 'N';
            let f = s[2] == 'f' || s[2] == 'F';
            i && n && f ==> decimal_value(s) == Some(LIMIT as int) && decimal_value(seq!['-'] + s)
                == Some(-LIMIT)
        }),
        ({
            let n = s[0] == 'n' || s[0] == 'N';
            let a = s[1] == 'a' || s[1] == 'A';
            let m = s[2] == 'n' || s[2] == 'N';
            &&& is_not_a_number(s) <==> n && a && m
            &&& n && a && m ==> is_not_a_number(seq!['-'] + s) && decimal_value(s) is None
        }),
{
    reveal_strlit("inf");
    reveal_strlit("infinity");
    reveal_strlit("nan");
    let minus = seq!['-'] + s;
    assert(minus.skip(1) =~= s);
    assert(s.skip(0) =~= s);
    assert(ascii_lower(s[0int + 0]) == ascii_lower(s[0]) && ascii_lower(s[0int + 1]) == ascii_lower(
        s[1],
    ) && ascii_lower(s[0int + 2]) == ascii_lower(s[2]));
    let i = s[0] == 'i' || s[0] == 'I';
    if i && (s[1] == 'n' || s[1] == 'N') && (s[2] == 'f' || s[2] == 'F') {
        assert(matches_at(s, 0, "inf"@));
    }
    let n = s[0] == 'n' || s[0] == 'N';
    if n && (s[1] == 'a' || s[1] == 'A') && (s[2] == 'n' || s[2] == 'N') {
        assert(matches_at(s, 0, "nan"@));
        assert(sign_len(s) == 0);
        assert(digit_run(s, 0) == 0);
        assert(!matches_at(s, 0, "inf"@));
    }
    if is_not_a_number(s) {
        assert(sign_len(s) == 0);
    }
}

/// An amount is held at the end of the range that it lies beyond, and stays as it is within.
pub proof fn law_amounts_are_held_within_the_limit(v: int)
    ensures
        -LIMIT <= held(v) <= LIMIT,
        -LIMIT <= v <= LIMIT ==> held(v) == v,
        v > LIMIT ==> held(v) == LIMIT,
        v < -LIMIT ==> held(v) == -LIMIT,
        LIMIT == 50 * ONE * ONE,
{
}

/// The numeral of a number spells it in the decimal system, without needless zeros.
pub proof fn law_numerals_spell_their_number(n: nat)
    ensures
        digits_value(nat_text(n)) == n,
        forall|k: int| 0 <= k < nat_text(n).len() ==> '0' <= (#[trigger] nat_text(n)[k]) <= '9',
        n > 0 ==> nat_text(n)[0] != '0',
    decreases n,
{
    lemma_nat_text_digits(n);
    if n >= 10 {
        law_numerals_spell_their_number(n / 10);
        lemma_nat_text_digits(n / 10);
        assert(nat_text(n)[0] == nat_text(n / 10)[0]);
    }
    assert forall|k: int| 0 <= k < nat_text(n).len() implies '0' <= (#[trigger] nat_text(n)[k])
        <= '9' by {
        assert(is_digit(nat_text(n)[k]));
    }
}

/// An amount is written as the ten-thousandth next to it: an amount below two to the
/// thirty-sixth that is clearly nearer to one ten-thousandth than to the next is written as
/// that one.
pub proof fn law_fixed4_writes_the_nearest(v: int, t: int)
    requires
        0 <= v < 0x10_0000_0000 * 1_000_000_000_000_000_000,
        0 <= t,
        -40_000_000_000_000 <= v - t * 100_000_000_000_000 <= 40_000_000_000_000,
    ensures
        ten_thousandths(v) == t,
        fixed4_text(v) == nat_text((t / 10_000) as nat) + seq!['.'] + four_digits(t % 10_000),
        v > 0 ==> fixed4_text(-v) == seq!['-'] + fixed4_text(v),
{
    if v > 0 {
        let goal = FULL as int;
        let up = scale(v, goal);
        lemma_scale(v, goal);
        assert(up > 0x1_0000) by (nonlinear_arith)
            requires
                v * up >= 0x10_0000_0000_0000 * 1_000_000_000_000_000_000,
                0 < v < 0x10_0000_0000 * 1_000_000_000_000_000_000,
        ;
        let binary = nearest_even(v * up, ONE as int);
        let off = v - t * 100_000_000_000_000;
        let exact = t * up;
        let drift = off * up;
        assert(v * up == 100_000_000_000_000 * exact + drift) by (nonlinear_arith)
            requires
                off == v - t * 100_000_000_000_000,
                exact == t * up,
                drift == off * up,
        ;
        assert(-40_000_000_000_000 * up <= drift <= 40_000_000_000_000 * up) by (nonlinear_arith)
            requires
                -40_000_000_000_000 <= off <= 40_000_000_000_000,
                up > 0,
                drift == off * up,
        ;
        lemma_nearest_is(binary * 10_000, up, t);
    } else {
        assert(t == 0);
        assert(ten_thousandths(0) == 0);
    }
    assert(fixed4_text(v) =~= nat_text((t / 10_000) as nat) + seq!['.'] + four_digits(t % 10_000));
    if v > 0 {
        assert(fixed4_text(-v) =~= seq!['-'] + fixed4_text(v));
    }
}

/// Two texts without a sign that are the same numeral are the same amount; an amount
/// depends on nothing but the digits and where the point is.
pub proof fn law_same_numeral_is_the_same_amount(s: Seq<char>, t: Seq<char>, up: bool)
    requires
        s.len() > 0 && ('0' <= s[0] <= '9' || s[0] == '.'),
        t.len() > 0 && ('0' <= t[0] <= '9' || t[0] == '.'),
        numeral(s) == numeral(t),
    ensures
        reading(s, up) == reading(t, up),
        reading(s, up) is Some <==> numeral(s) is Some,
        numeral(s) matches Some(n) ==> decimal_value(s) == Some(held(n.units())),
        numeral(s) matches Some(n) ==> n.has_more() ==> reading(s, true) == Some(
            held(n.units() + 1),
        ),
        numeral(s) matches Some(n) ==> !n.has_more() ==> reading(s, true) == decimal_value(s),
{
    lemma_no_sign(s);
    lemma_no_sign(t);
}

/// One place to the left is a tenth: moving the point of a numeral there divides its units
/// by ten, and something lies below a unit if it did before or the last digit was cut off.
pub proof fn law_point_to_the_left_is_a_tenth(digits: Seq<char>, point: int)
    requires
        forall|k: int| 0 <= k < digits.len() ==> '0' <= (#[trigger] digits[k]) <= '9',
    ensures
        ({
            let right = Numeral { digits, point: point + 1 };
            let left = Numeral { digits, point };
            &&& left.units() == right.units() / 10
            &&& left.has_more() <==> right.has_more() || right.units() % 10 != 0
            &&& point + 18 >= digits.len() ==> right.units() == 10 * left.units()
        }),
{
    let right = Numeral { digits, point: point + 1 };
    let left = Numeral { digits, point };
    assert(all_digits(digits));
    let at = point + 18;
    if 0 <= at < digits.len() {
        assert(is_digit(digits[at]));
    }
    if left.has_more() {
        let k = choose|k: int|
            0 <= k < left.digits.len() && left.point + PLACES <= k && #[trigger] left.digits[k]
                != '0';
        if k > at {
            assert(right.digits[k] != '0');
        }
    }
    if right.has_more() {
        let k = choose|k: int|
            0 <= k < right.digits.len() && right.point + PLACES <= k && #[trigger] right.digits[k]
                != '0';
        assert(left.digits[k] != '0');
    }
    if 0 <= at < digits.len() && right.units() % 10 != 0 {
        assert(left.digits[at] != '0');
    }
}

/// The units inside an optional amount are those of the amount.
pub proof fn law_optional_units_are_those_inside(d: Decimal)
    ensures
        opt_units(Some(d)) == Some(d@),
        opt_units(None) is None,
{
}

} // verus!
