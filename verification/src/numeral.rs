//! Numbers as the service writes them: runs of decimal digits, integers with
//! an optional sign, and decimal fractions.
//!
//! A rate is kept as the decimal it was written as, digit for digit, and
//! never rounded to a binary fraction.

use vstd::prelude::*;
use vstd::slice::slice_subrange;

verus! {

/// A decimal number: `unscaled` divided by ten to the power `scale`, negated
/// where `negative` is set.
///
/// `.095` is held as 95 with a scale of 3, `0.0950` as 950 with a scale of 4:
/// the digits are those that were written.
#[derive(Copy, Clone, Debug, PartialEq, Eq, Structural)]
pub struct Decimal {
    /// Whether the number was written with a minus sign.
    pub negative: bool,
    /// The digits before and after the point, read as one whole number.
    pub unscaled: u64,
    /// How many of those digits stood after the point.
    pub scale: usize,
}

/// Whether `c` is one of the ten decimal digits.
pub open spec fn is_digit(c: char) -> bool {
    '0' <= c && c <= '9'
}

/// The value of the digit `c`.
pub open spec fn digit_value(c: char) -> nat
    recommends
        is_digit(c),
{
    (c as u32 - '0' as u32) as nat
}

/// Whether `s` holds digits only.
pub open spec fn all_digits(s: Seq<char>) -> bool {
    forall|i: int| 0 <= i < s.len() ==> is_digit(#[trigger] s[i])
}

/// The number that results when the digits of `s` are written after a number
/// `start`.
pub open spec fn digits_onto(start: nat, s: Seq<char>) -> nat
    recommends
        all_digits(s),
    decreases s.len(),
{
    if s.len() == 0 {
        start
    } else {
        digits_onto(start, s.drop_last()) * 10 + digit_value(s.last())
    }
}

/// The number that the digits of `s` write in base ten; 0 for no digits.
pub open spec fn number_value(s: Seq<char>) -> nat
    recommends
        all_digits(s),
{
    digits_onto(0, s)
}

/// How many digits stand at the start of `s` before anything else.
pub open spec fn digit_run(s: Seq<char>) -> nat
    decreases s.len(),
{
    if s.len() > 0 && is_digit(s[0]) {
        1 + digit_run(s.skip(1))
    } else {
        0
    }
}

/// The number that `s` writes, where `s` is one digit or more and the number
/// is no more than `limit`.
pub open spec fn natural_of(s: Seq<char>, limit: nat) -> Option<nat> {
    if s.len() > 0 && all_digits(s) && number_value(s) <= limit {
        Some(number_value(s))
    } else {
        None
    }
}

/// `s` without the plus sign that it may start with.
pub open spec fn without_plus(s: Seq<char>) -> Seq<char> {
    if s.len() > 0 && s[0] == '+' {
        s.skip(1)
    } else {
        s
    }
}

/// The number that `s` writes as an unsigned integer of at most `limit`:
/// digits, with nothing before them but an optional plus sign.
pub open spec fn unsigned_of(s: Seq<char>, limit: nat) -> Option<nat> {
    natural_of(without_plus(s), limit)
}

/// The number that `s` writes as a 32-bit signed integer: digits after an
/// optional plus or minus sign.
pub open spec fn i32_of(s: Seq<char>) -> Option<i32> {
    if s.len() > 0 && s[0] == '-' {
        match natural_of(s.skip(1), 0x8000_0000) {
            Some(n) => Some((-n) as i32),
            None => None,
        }
    } else {
        match unsigned_of(s, 0x7fff_ffff) {
            Some(n) => Some(n as i32),
            None => None,
        }
    }
}

/// The number that `s` writes as a 32-bit unsigned integer.
pub open spec fn u32_of(s: Seq<char>) -> Option<u32> {
    match unsigned_of(s, 0xffff_ffff) {
        Some(n) => Some(n as u32),
        None => None,
    }
}

/// The number that `s` writes as an 8-bit unsigned integer.
pub open spec fn u8_of(s: Seq<char>) -> Option<u8> {
    match unsigned_of(s, 0xff) {
        Some(n) => Some(n as u8),
        None => None,
    }
}

/// `s` without the sign that it may start with.
pub open spec fn without_sign(s: Seq<char>) -> Seq<char> {
    if s.len() > 0 && (s[0] == '-' || s[0] == '+') {
        s.skip(1)
    } else {
        s
    }
}

/// The digits that `body`, a decimal without its sign, has after its point;
/// `None` where something other than a point follows the leading digits, or
/// something other than digits follows the point.
pub open spec fn fraction_digits(body: Seq<char>) -> Option<Seq<char>> {
    let rest = body.skip(digit_run(body) as int);
    if rest.len() == 0 {
        Some(Seq::empty())
    } else if rest[0] == '.' && all_digits(rest.skip(1)) {
        Some(rest.skip(1))
    } else {
        None
    }
}

/// The decimal that `s` writes: an optional sign, digits, and optionally a
/// point and more digits, with a digit on at least one side of the point.
/// The digits read as one number must fit 64 bits.
pub open spec fn decimal_of(s: Seq<char>) -> Option<Decimal> {
    let body = without_sign(s);
    let whole = body.take(digit_run(body) as int);
    match fraction_digits(body) {
        Some(fraction) => {
            if whole.len() + fraction.len() > 0 && number_value(whole + fraction) <= u64::MAX {
                Some(
                    Decimal {
                        negative: s[0] == '-',
                        unscaled: number_value(whole + fraction) as u64,
                        scale: fraction.len() as usize,
                    },
                )
            } else {
                None
            }
        },
        None => None,
    }
}

/// A number does not get smaller when digits are written after it.
pub proof fn lemma_digits_onto_grows(start: nat, s: Seq<char>, k: int)
    requires
        0 <= k <= s.len(),
    ensures
        digits_onto(start, s.take(k)) <= digits_onto(start, s),
    decreases s.len(),
{
    if k == s.len() {
        assert(s.take(k) =~= s);
    } else {
        lemma_digits_onto_grows(start, s.drop_last(), k);
        assert(s.drop_last().take(k) =~= s.take(k));
    }
}

/// Writing `a` and then `b` after a number is writing `b` after the number
/// that `a` gave.
pub proof fn lemma_digits_onto_concat(start: nat, a: Seq<char>, b: Seq<char>)
    ensures
        digits_onto(start, a + b) == digits_onto(digits_onto(start, a), b),
    decreases b.len(),
{
    if b.len() == 0 {
        assert(a + b =~= a);
    } else {
        lemma_digits_onto_concat(start, a, b.drop_last());
        assert((a + b).drop_last() =~= a + b.drop_last());
    }
}

/// The digits at the start of `s` are digits, and what follows them is not.
pub proof fn lemma_digit_run(s: Seq<char>)
    ensures
        digit_run(s) <= s.len(),
        all_digits(s.take(digit_run(s) as int)),
        digit_run(s) < s.len() ==> !is_digit(s[digit_run(s) as int]),
    decreases s.len(),
{
    if s.len() > 0 && is_digit(s[0]) {
        let tail = s.skip(1);
        lemma_digit_run(tail);
        let n = digit_run(tail) as int;
        assert forall|i: int| 0 <= i < n + 1 implies is_digit(#[trigger] s.take(n + 1)[i]) by {
            if i > 0 {
                assert(s.take(n + 1)[i] == tail.take(n)[i - 1]);
            }
        }
        if n + 1 < s.len() {
            assert(s[n + 1] == tail[n]);
        }
    }
}

/// A run of `n` digits that ends at the end of `s` or before something that
/// is no digit is the whole run of digits at the start of `s`.
pub proof fn lemma_digit_run_is(s: Seq<char>, n: int)
    requires
        0 <= n <= s.len(),
        all_digits(s.take(n)),
        n < s.len() ==> !is_digit(s[n]),
    ensures
        digit_run(s) == n,
    decreases n,
{
    if n > 0 {
        assert(s.take(n)[0] == s[0]);
        let tail = s.skip(1);
        assert forall|i: int| 0 <= i < n - 1 implies is_digit(#[trigger] tail.take(n - 1)[i]) by {
            assert(tail.take(n - 1)[i] == s.take(n)[i + 1]);
        }
        if n - 1 < tail.len() {
            assert(tail[n - 1] == s[n]);
        }
        lemma_digit_run_is(tail, n - 1);
    }
}

/// Digits that are followed by nothing, or by something that is no digit,
/// are a run of their own.
pub proof fn lemma_digit_run_before(digits: Seq<char>, tail: Seq<char>)
    requires
        all_digits(digits),
        tail.len() > 0 ==> !is_digit(tail[0]),
    ensures
        digit_run(digits + tail) == digits.len(),
        (digits + tail).take(digits.len() as int) == digits,
        (digits + tail).skip(digits.len() as int) == tail,
{
    let whole = digits + tail;
    assert(whole.take(digits.len() as int) =~= digits);
    assert(whole.skip(digits.len() as int) =~= tail);
    if tail.len() > 0 {
        assert(whole[digits.len() as int] == tail[0]);
    }
    lemma_digit_run_is(whole, digits.len() as int);
}

/// A point and digits after it write the decimal with those digits as its
/// fraction.
pub proof fn lemma_decimal_of_fraction(digits: Seq<char>)
    requires
        digits.len() > 0,
        all_digits(digits),
        number_value(digits) <= u64::MAX,
    ensures
        decimal_of(seq!['.'] + digits) == Some(
            Decimal {
                negative: false,
                unscaled: number_value(digits) as u64,
                scale: digits.len() as usize,
            },
        ),
{
    let s = seq!['.'] + digits;
    assert(without_sign(s) == s);
    assert(digit_run(s) == 0);
    assert(s.skip(0) =~= s);
    assert(s.skip(1) =~= digits);
    assert(s.take(0) + digits =~= digits);
}

/// The index at which the digits that start at `from` end.
pub fn digits_end(text: &[char], from: usize) -> (end: usize)
    requires
        from <= text.len(),
    ensures
        end == from + digit_run(text@.skip(from as int)),
        from <= end <= text.len(),
{
    let mut end: usize = from;
    while end < text.len() && text[end] >= '0' && text[end] <= '9'
        invariant
            from <= end <= text.len(),
            all_digits(text@.skip(from as int).take(end - from)),
        decreases text.len() - end,
    {
        proof {
            let before = text@.skip(from as int).take(end - from);
            let after = text@.skip(from as int).take(end - from + 1);
            assert forall|i: int| 0 <= i < after.len() implies is_digit(#[trigger] after[i]) by {
                if i < before.len() {
                    assert(after[i] == before[i]);
                }
            }
        }
        end += 1;
    }
    proof {
        lemma_digit_run_is(text@.skip(from as int), end - from);
    }
    end
}

/// Writes the digits of `text` after `start`, for a number of at most
/// `limit`.
fn accumulate(text: &[char], start: u64, limit: u64) -> (total: Option<u64>)
    requires
        start <= limit,
    ensures
        total == if all_digits(text@) && digits_onto(start as nat, text@) <= limit {
            Some(digits_onto(start as nat, text@) as u64)
        } else {
            None
        },
{
    let mut value: u64 = start;
    let mut i: usize = 0;
    while i < text.len()
        invariant
            i <= text.len(),
            all_digits(text@.take(i as int)),
            value == digits_onto(start as nat, text@.take(i as int)),
            value <= limit,
        decreases text.len() - i,
    {
        let c = text[i];
        if !(c >= '0' && c <= '9') {
            return None;
        }
        let digit: u32 = c as u32 - '0' as u32;
        let next: u128 = value as u128 * 10 + digit as u128;
        proof {
            let before = text@.take(i as int);
            let after = text@.take(i + 1);
            assert(after.drop_last() =~= before);
            assert(after.last() == c);
            assert(next == digits_onto(start as nat, after));
            assert forall|j: int| 0 <= j < after.len() implies is_digit(#[trigger] after[j]) by {
                if j < before.len() {
                    assert(after[j] == before[j]);
                }
            }
            lemma_digits_onto_grows(start as nat, text@, i + 1);
        }
        if next > limit as u128 {
            return None;
        }
        value = next as u64;
        i += 1;
    }
    proof {
        assert(text@.take(i as int) =~= text@);
    }
    Some(value)
}

/// Reads `text` as digits only, for a number of at most `limit`.
pub fn parse_natural(text: &[char], limit: u64) -> (parsed: Option<u64>)
    ensures
        parsed == match natural_of(text@, limit as nat) {
            Some(n) => Some(n as u64),
            None => None,
        },
{
    if text.len() == 0 {
        None
    } else {
        accumulate(text, 0, limit)
    }
}

/// Reads `text` as an unsigned integer of at most `limit`.
fn parse_unsigned(text: &[char], limit: u64) -> (parsed: Option<u64>)
    ensures
        parsed == match unsigned_of(text@, limit as nat) {
            Some(n) => Some(n as u64),
            None => None,
        },
{
    if text.len() > 0 && text[0] == '+' {
        parse_natural(slice_subrange(text, 1, text.len()), limit)
    } else {
        parse_natural(text, limit)
    }
}

/// Reads `text` as an 8-bit unsigned integer.
pub fn parse_u8(text: &[char]) -> (parsed: Option<u8>)
    ensures
        parsed == u8_of(text@),
{
    match parse_unsigned(text, 0xff) {
        Some(n) => Some(n as u8),
        None => None,
    }
}

/// Reads `text` as a 32-bit unsigned integer.
pub fn parse_u32(text: &[char]) -> (parsed: Option<u32>)
    ensures
        parsed == u32_of(text@),
{
    match parse_unsigned(text, 0xffff_ffff) {
        Some(n) => Some(n as u32),
        None => None,
    }
}

/// Reads `text` as a 32-bit signed integer.
pub fn parse_i32(text: &[char]) -> (parsed: Option<i32>)
    ensures
        parsed == i32_of(text@),
{
    if text.len() > 0 && text[0] == '-' {
        match parse_natural(slice_subrange(text, 1, text.len()), 0x8000_0000) {
            Some(n) => Some((0 - n as i64) as i32),
            None => None,
        }
    } else {
        match parse_unsigned(text, 0x7fff_ffff) {
            Some(n) => Some(n as i32),
            None => None,
        }
    }
}

/// Reads `text` as a decimal number.
pub fn parse_decimal(text: &[char]) -> (parsed: Option<Decimal>)
    ensures
        parsed == decimal_of(text@),
{
    let negative = text.len() > 0 && text[0] == '-';
    let signed = text.len() > 0 && (text[0] == '-' || text[0] == '+');
    let body = if signed {
        slice_subrange(text, 1, text.len())
    } else {
        text
    };
    let point = digits_end(body, 0);
    let whole = slice_subrange(body, 0, point);
    proof {
        assert(body@.skip(0) =~= body@);
        assert(whole@ =~= body@.take(point as int));
        lemma_digit_run(body@);
    }
    let fraction = if point == body.len() {
        slice_subrange(body, point, point)
    } else if body[point] == '.' {
        slice_subrange(body, point + 1, body.len())
    } else {
        return None;
    };
    proof {
        if point < body.len() {
            assert(body@.skip(point as int).skip(1) =~= body@.skip(point + 1));
        } else {
            assert(fraction@ =~= Seq::<char>::empty());
        }
        lemma_digits_onto_concat(0, whole@, fraction@);
        lemma_digits_onto_grows(0, whole@ + fraction@, whole@.len() as int);
        assert((whole@ + fraction@).take(whole@.len() as int) =~= whole@);
    }
    if whole.len() == 0 && fraction.len() == 0 {
        return None;
    }
    let leading = match accumulate(whole, 0, u64::MAX) {
        Some(n) => n,
        None => {
            return None;
        },
    };
    match accumulate(fraction, leading, u64::MAX) {
        Some(unscaled) => Some(Decimal { negative, unscaled, scale: fraction.len() }),
        None => None,
    }
}

} // verus!
