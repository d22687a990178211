//! Text as sequences of characters: comparison, search and decimal rendering.

use vstd::prelude::*;
use vstd::string::*;

verus! {

/// The characters of `s`, in order.
pub fn to_chars(s: &str) -> (chars: Vec<char>)
    ensures
        chars@ == s@,
{
    let mut chars: Vec<char> = Vec::new();
    for c in it: s.chars()
        invariant
            chars@ == it.seq().take(it.index() as int),
            it.seq() == s@,
    {
        chars.push(c);
    }
    assert(s@.take(s@.len() as int) =~= s@);
    chars
}

/// Whether two texts are the same, character by character.
pub fn same_text(a: &str, b: &str) -> (same: bool)
    ensures
        same == (a@ == b@),
{
    let left = to_chars(a);
    let right = to_chars(b);
    if left.len() != right.len() {
        return false;
    }
    let mut i: usize = 0;
    while i < left.len()
        invariant
            left@ == a@,
            right@ == b@,
            left.len() == right.len(),
            i <= left.len(),
            forall|k: int| 0 <= k < i ==> left@[k] == right@[k],
        decreases left.len() - i,
    {
        if left[i] != right[i] {
            return false;
        }
        i += 1;
    }
    assert(a@ =~= b@);
    true
}

/// The text inside an optional string.
pub open spec fn opt_text(s: Option<String>) -> Option<Seq<char>> {
    match s {
        Some(s) => Some(s@),
        None => None,
    }
}

/// The character of a decimal digit.
pub open spec fn digit_char(d: int) -> char {
    ('0' as int + d) as char
}

/// The decimal numeral of a natural number, without leading zeros.
pub open spec fn nat_text(n: nat) -> Seq<char>
    decreases n,
{
    if n < 10 {
        seq![digit_char(n as int)]
    } else {
        nat_text(n / 10).push(digit_char((n % 10) as int))
    }
}

/// The decimal numeral of an integer, with a leading minus when it is negative.
pub open spec fn int_text(n: int) -> Seq<char> {
    if n < 0 {
        seq!['-'] + nat_text((-n) as nat)
    } else {
        nat_text(n as nat)
    }
}

fn digit_text(d: u64) -> (s: &'static str)
    requires
        d < 10,
    ensures
        s@ == seq![digit_char(d as int)],
{
    proof {
        reveal_strlit("0");
        reveal_strlit("1");
        reveal_strlit("2");
        reveal_strlit("3");
        reveal_strlit("4");
        reveal_strlit("5");
        reveal_strlit("6");
        reveal_strlit("7");
        reveal_strlit("8");
        reveal_strlit("9");
    }
    let s = if d == 0 {
        "0"
    } else if d == 1 {
        "1"
    } else if d == 2 {
        "2"
    } else if d == 3 {
        "3"
    } else if d == 4 {
        "4"
    } else if d == 5 {
        "5"
    } else if d == 6 {
        "6"
    } else if d == 7 {
        "7"
    } else if d == 8 {
        "8"
    } else {
        "9"
    };
    assert(s@ =~= seq![digit_char(d as int)]);
    s
}

/// Appends the decimal numeral of `n`.
pub fn push_nat(out: &mut String, n: u128)
    ensures
        final(out)@ == old(out)@ + nat_text(n as nat),
    decreases n,
{
    if n >= 10 {
        push_nat(out, n / 10);
    }
    out.append(digit_text((n % 10) as u64));
    proof {
        if n >= 10 {
            assert(out@ =~= old(out)@ + nat_text(n as nat));
        }
    }
}

/// Appends the decimal numeral of `n`.
pub fn push_int(out: &mut String, n: i64)
    ensures
        final(out)@ == old(out)@ + int_text(n as int),
{
    if n < 0 {
        proof {
            reveal_strlit("-");
        }
        out.append("-");
        let magnitude: u128 = (-(n as i128)) as u128;
        push_nat(out, magnitude);
        assert(out@ =~= old(out)@ + int_text(n as int));
    } else {
        push_nat(out, n as u128);
    }
}

/// The lower case form of an ASCII letter; every other character is kept.
pub open spec fn ascii_lower(c: char) -> char {
    if 'A' <= c <= 'Z' {
        (c as int + 32) as char
    } else {
        c
    }
}

fn lower(c: char) -> (l: char)
    ensures
        l == ascii_lower(c),
{
    if 'A' <= c && c <= 'Z' {
        (c as u8 + 32) as char
    } else {
        c
    }
}

/// Whether `pattern` stands in `s` at position `at`, letter case of `s` aside.
pub open spec fn matches_at(s: Seq<char>, at: int, pattern: Seq<char>) -> bool {
    &&& 0 <= at
    &&& at + pattern.len() <= s.len()
    &&& forall|k: int| 0 <= k < pattern.len() ==> ascii_lower(#[trigger] s[at + k]) == pattern[k]
}

/// The first position, from `from` on, at which `pattern` stands in `s`.
pub open spec fn first_match(s: Seq<char>, pattern: Seq<char>, from: int) -> Option<int>
    decreases s.len() + 1 - from,
{
    if from > s.len() {
        None
    } else if matches_at(s, from, pattern) {
        Some(from)
    } else {
        first_match(s, pattern, from + 1)
    }
}

/// Whether `pattern` stands anywhere in `s`, letter case of `s` aside.
pub open spec fn mentions(s: Seq<char>, pattern: Seq<char>) -> bool {
    exists|at: int| matches_at(s, at, pattern)
}

fn is_match(s: &Vec<char>, at: usize, pattern: &Vec<char>) -> (found: bool)
    ensures
        found == matches_at(s@, at as int, pattern@),
{
    if at > s.len() || pattern.len() > s.len() - at {
        return false;
    }
    let mut k: usize = 0;
    while k < pattern.len()
        invariant
            k <= pattern.len(),
            at + pattern.len() <= s.len(),
            forall|j: int| 0 <= j < k ==> ascii_lower(#[trigger] s@[at + j]) == pattern@[j],
        decreases pattern.len() - k,
    {
        if lower(s[at + k]) != pattern[k] {
            assert(ascii_lower(s@[at + k]) != pattern@[k as int]);
            return false;
        }
        k += 1;
    }
    true
}

/// Finds the first place at which `pattern` stands in `s`.
pub fn find(s: &Vec<char>, pattern: &str) -> (at: Option<usize>)
    ensures
        match at {
            Some(i) => first_match(s@, pattern@, 0) == Some(i as int) && matches_at(
                s@,
                i as int,
                pattern@,
            ),
            None => first_match(s@, pattern@, 0) is None,
        },
{
    let wanted = to_chars(pattern);
    let mut i: usize = 0;
    while i < s.len()
        invariant
            i <= s.len(),
            wanted@ == pattern@,
            first_match(s@, pattern@, 0) == first_match(s@, pattern@, i as int),
        decreases s.len() - i,
    {
        if is_match(s, i, &wanted) {
            return Some(i);
        }
        i += 1;
    }
    if is_match(s, i, &wanted) {
        return Some(i);
    }
    assert(first_match(s@, pattern@, i + 1) is None);
    None
}

/// A pattern is found exactly where it is mentioned.
proof fn lemma_first_match_is_mention(s: Seq<char>, pattern: Seq<char>, from: int)
    requires
        0 <= from,
    ensures
        first_match(s, pattern, from) is Some <==> exists|at: int|
            from <= at && matches_at(s, at, pattern),
    decreases s.len() + 1 - from,
{
    if from <= s.len() && !matches_at(s, from, pattern) {
        lemma_first_match_is_mention(s, pattern, from + 1);
        if exists|at: int| from <= at && matches_at(s, at, pattern) {
            let at = choose|at: int| from <= at && matches_at(s, at, pattern);
            assert(from + 1 <= at);
        }
    }
}

/// Whether `pattern`, in lower case, stands anywhere in `text`.
pub fn text_mentions(text: &str, pattern: &str) -> (found: bool)
    ensures
        found == mentions(text@, pattern@),
{
    let chars = to_chars(text);
    let at = find(&chars, pattern);
    proof {
        lemma_first_match_is_mention(text@, pattern@, 0);
        assert(mentions(text@, pattern@) <==> exists|at: int|
            0 <= at && matches_at(text@, at, pattern@));
    }
    at.is_some()
}

/// The characters that Unicode counts as white space.
pub open spec fn is_blank(c: char) -> bool {
    ||| 0x09 <= c as int <= 0x0d
    ||| c as int == 0x20
    ||| c as int == 0x85
    ||| c as int == 0xa0
    ||| c as int == 0x1680
    ||| 0x2000 <= c as int <= 0x200a
    ||| c as int == 0x2028
    ||| c as int == 0x2029
    ||| c as int == 0x202f
    ||| c as int == 0x205f
    ||| c as int == 0x3000
}

fn blank(c: char) -> (b: bool)
    ensures
        b == is_blank(c),
{
    let code = c as u32;
    (0x09 <= code && code <= 0x0d) || code == 0x20 || code == 0x85 || code == 0xa0 || code == 0x1680
        || (0x2000 <= code && code <= 0x200a) || code == 0x2028 || code == 0x2029 || code == 0x202f
        || code == 0x205f || code == 0x3000
}

/// `s` without the white space at its front.
pub open spec fn trim_front(s: Seq<char>) -> Seq<char>
    decreases s.len(),
{
    if s.len() > 0 && is_blank(s[0]) {
        trim_front(s.drop_first())
    } else {
        s
    }
}

/// `s` without the white space at its back.
pub open spec fn trim_back(s: Seq<char>) -> Seq<char>
    decreases s.len(),
{
    if s.len() > 0 && is_blank(s.last()) {
        trim_back(s.drop_last())
    } else {
        s
    }
}

/// `s` without white space at either end.
pub open spec fn trimmed(s: Seq<char>) -> Seq<char> {
    trim_back(trim_front(s))
}

/// The characters of `s` without white space at either end.
pub fn trim(s: &str) -> (chars: Vec<char>)
    ensures
        chars@ == trimmed(s@),
{
    let all = to_chars(s);
    let mut start: usize = 0;
    assert(all@.skip(0) =~= s@);
    while start < all.len() && blank(all[start])
        invariant
            start <= all.len(),
            trim_front(s@) == trim_front(all@.skip(start as int)),
        decreases all.len() - start,
    {
        assert(all@.skip(start as int).drop_first() =~= all@.skip(start + 1));
        start += 1;
    }
    let ghost front = trim_front(s@);
    assert(front == all@.skip(start as int));
    let mut chars: Vec<char> = Vec::new();
    let mut i: usize = start;
    while i < all.len()
        invariant
            start <= i <= all.len(),
            chars@ == all@.subrange(start as int, i as int),
        decreases all.len() - i,
    {
        chars.push(all[i]);
        i += 1;
        assert(chars@ =~= all@.subrange(start as int, i as int));
    }
    assert(chars@ =~= front);
    while chars.len() > 0 && blank(chars[chars.len() - 1])
        invariant
            trim_back(chars@) == trim_back(front),
        decreases chars.len(),
    {
        chars.pop();
    }
    chars
}

/// The text inside an optional string is that of the string.
pub proof fn law_optional_text_is_that_inside(s: String)
    ensures
        opt_text(Some(s)) == Some(s@),
        opt_text(None) is None,
{
}

/// Lower case changes the ASCII capitals, each into the letter of its own, and nothing
/// else.
pub proof fn law_lower_case_changes_capitals_only(c: char)
    ensures
        'A' <= c <= 'Z' ==> 'a' <= ascii_lower(c) <= 'z' && ascii_lower(c) as int - 'a' as int
            == c as int - 'A' as int,
        !('A' <= c <= 'Z') ==> ascii_lower(c) == c,
{
}

/// A pattern is found at the first place where it stands, and found at all exactly when it
/// stands somewhere.
pub proof fn law_first_place_is_found(s: Seq<char>, pattern: Seq<char>)
    ensures
        first_match(s, pattern, 0) is Some <==> exists|at: int| matches_at(s, at, pattern),
        first_match(s, pattern, 0) matches Some(at) ==> matches_at(s, at, pattern) && forall|j: int|
            0 <= j < at ==> !#[trigger] matches_at(s, j, pattern),
{
    lemma_first_match_is_mention(s, pattern, 0);
    lemma_first_is_first(s, pattern, 0);
    if exists|at: int| matches_at(s, at, pattern) {
        let at = choose|at: int| matches_at(s, at, pattern);
        assert(0 <= at && matches_at(s, at, pattern));
    }
}

proof fn lemma_first_is_first(s: Seq<char>, pattern: Seq<char>, from: int)
    requires
        0 <= from,
    ensures
        first_match(s, pattern, from) matches Some(at) ==> from <= at && matches_at(
            s,
            at,
            pattern,
        ) && forall|j: int| from <= j < at ==> !#[trigger] matches_at(s, j, pattern),
    decreases s.len() + 1 - from,
{
    if from <= s.len() && !matches_at(s, from, pattern) {
        lemma_first_is_first(s, pattern, from + 1);
    }
}

} // verus!
