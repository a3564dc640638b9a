//! Amounts: prices and volumes as exact integers, and their decimal notation.
//!
//! An amount counts units of `10^-8`. The notation is an optional minus
//! sign, one or more digits and, optionally, a point followed by one to
//! eight digits. Nothing else is an amount: no plus sign, no exponent, no
//! blanks, no ninth decimal place. Prices are kept in 64 bits; volumes,
//! which add up, in 128.

use vstd::prelude::*;
use crate::candle::{fits_i128, fits_i64};

verus! {

/// Units that make one whole.
pub const AMOUNT_SCALE: i64 = 100_000_000;

/// Decimal places that an amount keeps.
pub const AMOUNT_DECIMALS: usize = 8;

/// Whether the byte is one of the digits `0` to `9`.
pub open spec fn is_digit(byte: u8) -> bool {
    48 <= byte <= 57
}

/// Whether every byte is a digit.
pub open spec fn all_digits(bytes: Seq<u8>) -> bool {
    forall|i: int| 0 <= i < bytes.len() ==> is_digit(#[trigger] bytes[i])
}

/// The number that a string of digits spells.
pub open spec fn digits_value(digits: Seq<u8>) -> int
    decreases digits.len(),
{
    if digits.len() == 0 {
        0
    } else {
        digits_value(digits.drop_last()) * 10 + (digits.last() - 48)
    }
}

/// Position of the first point in the bytes, or their number where there
/// is no point.
pub open spec fn point_at(bytes: Seq<u8>) -> int
    decreases bytes.len(),
{
    if bytes.len() == 0 {
        0
    } else if bytes[0] == 46 {
        0
    } else {
        1 + point_at(bytes.drop_first())
    }
}

/// The digits before the point.
pub open spec fn whole_digits(body: Seq<u8>) -> Seq<u8> {
    body.take(point_at(body))
}

/// The digits after the point; none where there is no point.
pub open spec fn fraction_digits(body: Seq<u8>) -> Seq<u8> {
    if point_at(body) < body.len() {
        body.skip(point_at(body) + 1)
    } else {
        Seq::empty()
    }
}

/// `n` zero digits.
pub open spec fn zeros(n: int) -> Seq<u8> {
    Seq::new(n as nat, |i: int| 48u8)
}

/// Whether the bytes are digits, optionally followed by a point and one to
/// eight more digits.
pub open spec fn is_unsigned_amount(body: Seq<u8>) -> bool {
    &&& whole_digits(body).len() >= 1
    &&& all_digits(whole_digits(body))
    &&& point_at(body) < body.len() ==> fraction_digits(body).len() >= 1
    &&& fraction_digits(body).len() <= AMOUNT_DECIMALS
    &&& all_digits(fraction_digits(body))
}

/// The units that an unsigned amount stands for: the number that its digits
/// spell once the point is dropped and the decimal places are filled up
/// with zeros to eight.
pub open spec fn unsigned_units(body: Seq<u8>) -> int {
    digits_value(
        whole_digits(body) + fraction_digits(body) + zeros(
            AMOUNT_DECIMALS - fraction_digits(body).len(),
        ),
    )
}

/// The amount that the bytes denote, if they denote one that fits 128 bits.
pub open spec fn wide_amount_of(bytes: Seq<u8>) -> Option<int> {
    let negative = bytes.len() > 0 && bytes[0] == 45;
    let body = if negative {
        bytes.skip(1)
    } else {
        bytes
    };
    let units = if negative {
        -unsigned_units(body)
    } else {
        unsigned_units(body)
    };
    if is_unsigned_amount(body) && fits_i128(units) {
        Some(units)
    } else {
        None
    }
}

/// The amount that the bytes denote, if they denote one that fits 64 bits.
pub open spec fn amount_of(bytes: Seq<u8>) -> Option<int> {
    match wide_amount_of(bytes) {
        Some(units) => if fits_i64(units) {
            Some(units)
        } else {
            None
        },
        None => None,
    }
}

/// The amount that a text denotes, if it fits 128 bits.
pub open spec fn wide_amount_of_text(text: Seq<char>) -> Option<int> {
    wide_amount_of(vstd::utf8::encode_utf8(text))
}

/// The amount that a text denotes, if it fits 64 bits.
pub open spec fn amount_of_text(text: Seq<char>) -> Option<int> {
    amount_of(vstd::utf8::encode_utf8(text))
}

/// A number as far as 128 bits without sign hold it.
spec fn exact(x: int) -> Option<u128> {
    if 0 <= x <= u128::MAX {
        Some(x as u128)
    } else {
        None
    }
}

proof fn lemma_point_at(bytes: Seq<u8>, k: int)
    requires
        0 <= k <= bytes.len(),
        forall|i: int| 0 <= i < k ==> bytes[i] != 46,
        k < bytes.len() ==> bytes[k] == 46,
    ensures
        point_at(bytes) == k,
    decreases k,
{
    if k > 0 {
        let rest = bytes.drop_first();
        assert forall|i: int| 0 <= i < k - 1 implies rest[i] != 46 by {
        }
        lemma_point_at(rest, k - 1);
    }
}

proof fn lemma_digits_value_push(digits: Seq<u8>, digit: u8)
    ensures
        digits_value(digits.push(digit)) == digits_value(digits) * 10 + (digit - 48),
{
    assert(digits.push(digit).drop_last() =~= digits);
}

proof fn lemma_digits_value_bounds(digits: Seq<u8>)
    requires
        all_digits(digits),
    ensures
        digits_value(digits) >= 0,
    decreases digits.len(),
{
    if digits.len() > 0 {
        let front = digits.drop_last();
        lemma_digits_value_bounds(front);
    }
}

/// One more digit behind a number, as far as 128 bits hold it.
fn shift_in(acc: Option<u128>, digit: u8) -> (next: Option<u128>)
    requires
        digit <= 9,
    ensures
        forall|value: int|
            value >= 0 && acc == exact(value) ==> next == exact(
                #[trigger] (value * 10) + digit,
            ),
{
    match acc {
        Some(number) => match number.checked_mul(10) {
            Some(tenfold) => tenfold.checked_add(digit as u128),
            None => None,
        },
        None => None,
    }
}

/// Reads an amount of at most 64 bits from its decimal notation.
pub fn parse_amount(text: &str) -> (amount: Option<i64>)
    ensures
        match amount {
            Some(units) => amount_of_text(text@) == Some(units as int),
            None => amount_of_text(text@) is None,
        },
{
    match parse_wide_amount(text) {
        Some(units) => if units < -9_223_372_036_854_775_808i128 || units
            > 9_223_372_036_854_775_807i128 {
            None
        } else {
            Some(units as i64)
        },
        None => None,
    }
}

/// Reads an amount of at most 128 bits from its decimal notation.
pub fn parse_wide_amount(text: &str) -> (amount: Option<i128>)
    ensures
        match amount {
            Some(units) => wide_amount_of_text(text@) == Some(units as int),
            None => wide_amount_of_text(text@) is None,
        },
{
    let bytes = text.as_bytes();
    let n = bytes.len();
    let negative = n > 0 && bytes[0] == 45;
    let start: usize = if negative {
        1
    } else {
        0
    };
    let ghost body = if negative {
        bytes@.skip(1)
    } else {
        bytes@
    };
    let mut acc: Option<u128> = Some(0);
    let mut i: usize = start;
    while i < n && bytes[i] != 46
        invariant
            start <= i <= n,
            n == bytes@.len(),
            bytes@ == vstd::utf8::encode_utf8(text@),
            negative == (n > 0 && bytes@[0] == 45),
            body == (if negative {
                bytes@.skip(1)
            } else {
                bytes@
            }),
            body == bytes@.skip(start as int),
            forall|k: int| 0 <= k < i - start ==> body[k] != 46 && is_digit(#[trigger] body[k]),
            acc == exact(digits_value(body.take(i - start))),
        decreases n - i,
    {
        let byte = bytes[i];
        assert(byte == body[i - start]);
        if byte < 48 || byte > 57 {
            proof {
                lemma_not_an_amount(body, i - start);
            }
            return None;
        }
        proof {
            let seen = body.take(i - start);
            assert(all_digits(seen));
            lemma_digits_value_bounds(seen);
            assert(body.take(i - start + 1) =~= seen.push(byte));
            lemma_digits_value_push(seen, byte);
        }
        acc = shift_in(acc, byte - 48);
        i += 1;
    }
    let ghost point = (i - start) as int;
    proof {
        lemma_point_at(body, point);
    }
    let ghost whole = whole_digits(body);
    if i == start {
        return None;
    }
    let decimals: usize = if i < n {
        n - i - 1
    } else {
        0
    };
    let ghost fraction = fraction_digits(body);
    if i < n && decimals == 0 {
        return None;
    }
    if decimals > 8 {
        return None;
    }
    let mut j: usize = 0;
    while j < decimals
        invariant
            j <= decimals <= 8,
            decimals > 0 ==> i + 1 + decimals == n,
            n == bytes@.len(),
            start <= i,
            bytes@ == vstd::utf8::encode_utf8(text@),
            negative == (n > 0 && bytes@[0] == 45),
            body == (if negative {
                bytes@.skip(1)
            } else {
                bytes@
            }),
            body == bytes@.skip(start as int),
            point == i - start,
            fraction == fraction_digits(body),
            decimals > 0 ==> fraction == body.skip(point + 1),
            fraction.len() == decimals,
            all_digits(whole),
            all_digits(fraction.take(j as int)),
            acc == exact(digits_value(whole + fraction.take(j as int))),
        decreases decimals - j,
    {
        let byte = bytes[i + 1 + j];
        assert(byte == fraction[j as int]);
        if byte < 48 || byte > 57 {
            return None;
        }
        proof {
            let seen = whole + fraction.take(j as int);
            lemma_digits_value_bounds(seen);
            assert(whole + fraction.take(j as int + 1) =~= seen.push(byte));
            lemma_digits_value_push(seen, byte);
        }
        acc = shift_in(acc, byte - 48);
        j += 1;
    }
    assert(fraction.take(decimals as int) =~= fraction);
    let mut p: usize = decimals;
    while p < 8
        invariant
            decimals <= p <= 8,
            fraction.len() == decimals,
            all_digits(whole),
            all_digits(fraction),
            acc == exact(digits_value(whole + fraction + zeros(p - decimals))),
        decreases 8 - p,
    {
        proof {
            let seen = whole + fraction + zeros(p - decimals);
            lemma_digits_value_bounds(seen);
            assert(whole + fraction + zeros(p + 1 - decimals) =~= seen.push(48u8));
            lemma_digits_value_push(seen, 48u8);
        }
        acc = shift_in(acc, 0);
        p += 1;
    }
    proof {
        lemma_digits_value_bounds(whole + fraction + zeros(8 - decimals));
    }
    let magnitude = match acc {
        Some(magnitude) => magnitude,
        None => {
            return None;
        },
    };
    if negative {
        if magnitude > 170_141_183_460_469_231_731_687_303_715_884_105_728u128 {
            None
        } else if magnitude == 170_141_183_460_469_231_731_687_303_715_884_105_728u128 {
            Some(i128::MIN)
        } else {
            Some(-(magnitude as i128))
        }
    } else {
        if magnitude > 170_141_183_460_469_231_731_687_303_715_884_105_727u128 {
            None
        } else {
            Some(magnitude as i128)
        }
    }
}

/// With a byte that is neither a digit nor the point before the first
/// point, the bytes are no amount.
proof fn lemma_not_an_amount(body: Seq<u8>, at: int)
    requires
        0 <= at < body.len(),
        forall|k: int| 0 <= k < at ==> body[k] != 46,
        body[at] != 46,
        !is_digit(body[at]),
    ensures
        !is_unsigned_amount(body),
    decreases body.len() - at,
{
    lemma_point_after(body, at + 1);
    assert(whole_digits(body)[at] == body[at]);
}

/// Where the first bytes hold no point, the first point comes after them.
proof fn lemma_point_after(bytes: Seq<u8>, k: int)
    requires
        0 <= k <= bytes.len(),
        forall|i: int| 0 <= i < k ==> bytes[i] != 46,
    ensures
        k <= point_at(bytes) <= bytes.len(),
    decreases bytes.len(),
{
    if bytes.len() > 0 && bytes[0] != 46 {
        let rest = bytes.drop_first();
        if k > 0 {
            lemma_point_after(rest, k - 1);
        } else {
            lemma_point_after(rest, 0);
        }
    }
}

} // verus!
