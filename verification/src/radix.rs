//! Integers as text in a radix from 2 to 36: parsing and rendering.

use crate::error::Exception;
use vstd::prelude::*;

verus! {

/// True for the radixes in which integers are written.
pub open spec fn is_legal_radix(radix: int) -> bool {
    2 <= radix <= 36
}

/// The value of a digit character: `0` to `9`, then the letters of either
/// case from ten on. Other bytes are no digits.
pub open spec fn digit_of(byte: u8) -> Option<int> {
    if 0x30 <= byte <= 0x39 {
        Some(byte - 0x30)
    } else if 0x61 <= byte <= 0x7a {
        Some(byte - 0x61 + 10)
    } else if 0x41 <= byte <= 0x5a {
        Some(byte - 0x41 + 10)
    } else {
        None
    }
}

/// The character of a digit value below 36: `0` to `9`, then lower-case
/// letters.
pub open spec fn digit_byte(digit: int) -> u8 {
    if digit < 10 {
        (0x30 + digit) as u8
    } else {
        (0x61 + digit - 10) as u8
    }
}

/// The number that a run of digits writes in `radix`, most significant digit
/// first; nothing where a byte is no digit of that radix.
pub open spec fn magnitude(digits: Seq<u8>, radix: int) -> Option<int>
    decreases digits.len(),
{
    if digits.len() == 0 {
        Some(0)
    } else {
        match (magnitude(digits.drop_last(), radix), digit_of(digits.last())) {
            (Some(high), Some(digit)) => if digit < radix {
                Some(high * radix + digit)
            } else {
                None
            },
            _ => None,
        }
    }
}

/// True when `text` opens with a sign.
pub open spec fn has_sign(text: Seq<u8>) -> bool {
    text.len() > 0 && (text[0] == 0x2b || text[0] == 0x2d)
}

/// The integer that `text` writes in `radix`: an optional `+` or `-`, then at
/// least one digit of that radix and nothing else. Nothing where the text has
/// another shape or the number does not fit in 64 bits.
pub open spec fn parse_integer(text: Seq<u8>, radix: int) -> Option<i64> {
    let digits = if has_sign(text) {
        text.drop_first()
    } else {
        text
    };
    if digits.len() == 0 {
        None
    } else {
        match magnitude(digits, radix) {
            Some(size) => {
                let value = if text[0] == 0x2d {
                    -size
                } else {
                    size
                };
                if i64::MIN <= value <= i64::MAX {
                    Some(value as i64)
                } else {
                    None
                }
            },
            None => None,
        }
    }
}

/// The digits of a number that is not negative, most significant first,
/// without leading zeros.
pub open spec fn render(value: int, radix: int) -> Seq<u8>
    decreases value,
    via render_terminates
{
    if radix < 2 || value < radix {
        seq![digit_byte(value)]
    } else {
        render(value / radix, radix).push(digit_byte(value % radix))
    }
}

#[via_fn]
proof fn render_terminates(value: int, radix: int) {
    if !(radix < 2 || value < radix) {
        assert(0 <= value / radix < value) by (nonlinear_arith)
            requires
                value >= radix,
                radix >= 2,
        ;
    }
}

/// A sequence read from its end.
pub open spec fn reversed(bytes: Seq<u8>) -> Seq<u8> {
    Seq::new(bytes.len(), |i: int| bytes[bytes.len() - 1 - i])
}

/// Checks a radix handed over as a signed integer.
pub fn check_radix(base: i64) -> (radix: Result<u32, Exception>)
    ensures
        is_legal_radix(base as int) ==> radix == Ok::<u32, Exception>(base as u32),
        !is_legal_radix(base as int) ==> radix == Err::<u32, Exception>(Exception::IllegalRadix),
{
    if 2 <= base && base <= 36 {
        Ok(base as u32)
    } else {
        Err(Exception::IllegalRadix)
    }
}

/// The value of a digit character.
pub fn digit_value(byte: u8) -> (digit: Option<u32>)
    ensures
        match digit {
            Some(value) => digit_of(byte) == Some(value as int),
            None => digit_of(byte) is None,
        },
{
    if 0x30 <= byte && byte <= 0x39 {
        Some((byte - 0x30) as u32)
    } else if 0x61 <= byte && byte <= 0x7a {
        Some((byte - 0x61) as u32 + 10)
    } else if 0x41 <= byte && byte <= 0x5a {
        Some((byte - 0x41) as u32 + 10)
    } else {
        None
    }
}

/// The character of a digit value.
pub fn digit_char(digit: u32) -> (byte: u8)
    requires
        digit < 36,
    ensures
        byte == digit_byte(digit as int),
        digit_of(byte) == Some(digit as int),
        byte < 0x80,
{
    if digit < 10 {
        0x30 + digit as u8
    } else {
        0x61 + (digit - 10) as u8
    }
}

/// Where the digits are readable, so is every run of leading digits, and it
/// writes no larger a number.
pub proof fn lemma_magnitude_prefix(digits: Seq<u8>, radix: int, k: int)
    requires
        radix >= 2,
        0 <= k <= digits.len(),
        magnitude(digits, radix) is Some,
    ensures
        magnitude(digits.take(k), radix) is Some,
        0 <= magnitude(digits.take(k), radix).unwrap() <= magnitude(digits, radix).unwrap(),
    decreases digits.len(),
{
    if k == digits.len() {
        assert(digits.take(k) =~= digits);
        if digits.len() > 0 {
            lemma_magnitude_prefix(digits.drop_last(), radix, k - 1);
            assert(digits.drop_last().take(k - 1) =~= digits.drop_last());
            let high = magnitude(digits.drop_last(), radix).unwrap();
            assert(high * radix >= 0) by (nonlinear_arith)
                requires
                    high >= 0,
                    radix >= 2,
            ;
        }
    } else {
        lemma_magnitude_prefix(digits.drop_last(), radix, k);
        assert(digits.drop_last().take(k) =~= digits.take(k));
        let high = magnitude(digits.drop_last(), radix).unwrap();
        lemma_magnitude_prefix(digits.drop_last(), radix, digits.len() - 1);
        assert(digits.drop_last().take(digits.len() - 1) =~= digits.drop_last());
        assert(high * radix >= high) by (nonlinear_arith)
            requires
                high >= 0,
                radix >= 2,
        ;
    }
}

/// Digits that write a number are digit characters, all of them.
pub proof fn lemma_magnitude_digits(digits: Seq<u8>, radix: int)
    requires
        magnitude(digits, radix) is Some,
    ensures
        forall|i: int| 0 <= i < digits.len() ==> digit_of(#[trigger] digits[i]) is Some,
    decreases digits.len(),
{
    if digits.len() > 0 {
        lemma_magnitude_digits(digits.drop_last(), radix);
        assert forall|i: int| 0 <= i < digits.len() implies digit_of(#[trigger] digits[i])
            is Some by {
            if i < digits.len() - 1 {
                assert(digits.drop_last()[i] == digits[i]);
            }
        }
    }
}

/// Text that writes an integer holds no byte from `0x80` on. Such text is
/// valid UTF-8, so a reader of integers need not ask whether its text is.
pub proof fn lemma_number_is_ascii(text: Seq<u8>, radix: int)
    requires
        parse_integer(text, radix) is Some,
    ensures
        forall|i: int| 0 <= i < text.len() ==> (#[trigger] text[i]) < 0x80,
{
    let digits = if has_sign(text) {
        text.drop_first()
    } else {
        text
    };
    lemma_magnitude_digits(digits, radix);
    assert forall|i: int| 0 <= i < text.len() implies (#[trigger] text[i]) < 0x80 by {
        if has_sign(text) {
            if i > 0 {
                assert(digits[i - 1] == text[i]);
                assert(digit_of(digits[i - 1]) is Some);
            }
        } else {
            assert(digit_of(digits[i]) is Some);
        }
    }
}

/// Parses `text` as an integer written in `radix`.
pub fn parse_radix(text: &[u8], radix: u32) -> (parsed: Option<i64>)
    requires
        is_legal_radix(radix as int),
    ensures
        parsed == parse_integer(text@, radix as int),
{
    let len = text.len();
    let signed = len > 0 && (text[0] == 0x2b || text[0] == 0x2d);
    let negative = len > 0 && text[0] == 0x2d;
    let start: usize = if signed {
        1
    } else {
        0
    };
    if start == len {
        return None;
    }
    let ghost digits = text@.subrange(start as int, len as int);
    proof {
        if signed {
            assert(text@.drop_first() =~= digits);
        } else {
            assert(text@ =~= digits);
        }
    }
    let limit: i128 = 0x8000_0000_0000_0000;
    let mut size: i128 = 0;
    let mut at: usize = start;
    while at < len
        invariant
            start <= at <= len,
            len == text.len(),
            is_legal_radix(radix as int),
            digits == text@.subrange(start as int, len as int),
            digits == if has_sign(text@) {
                text@.drop_first()
            } else {
                text@
            },
            digits.len() > 0,
            limit == 0x8000_0000_0000_0000,
            0 <= size <= limit,
            magnitude(digits.take(at - start), radix as int) == Some(size as int),
        decreases len - at,
    {
        let ghost shorter = digits.take(at - start);
        let ghost longer = digits.take(at - start + 1);
        proof {
            assert(longer.drop_last() =~= shorter);
            assert(longer.last() == text@[at as int]);
        }
        let digit = match digit_value(text[at]) {
            Some(digit) => digit,
            None => {
                proof {
                    if magnitude(digits, radix as int) is Some {
                        lemma_magnitude_prefix(digits, radix as int, at - start + 1);
                    }
                }
                return None;
            },
        };
        if digit >= radix {
            proof {
                if magnitude(digits, radix as int) is Some {
                    lemma_magnitude_prefix(digits, radix as int, at - start + 1);
                }
            }
            return None;
        }
        assert(0 <= size * (radix as i128) <= 0x8000_0000_0000_0000 * 36) by (nonlinear_arith)
            requires
                0 <= size <= 0x8000_0000_0000_0000,
                2 <= radix <= 36,
        ;
        let next: i128 = size * (radix as i128) + digit as i128;
        if next > limit {
            proof {
                if magnitude(digits, radix as int) is Some {
                    lemma_magnitude_prefix(digits, radix as int, at - start + 1);
                }
            }
            return None;
        }
        size = next;
        at += 1;
    }
    proof {
        assert(digits.take(len - start) =~= digits);
    }
    if negative {
        Some((-size) as i64)
    } else if size == limit {
        None
    } else {
        Some(size as i64)
    }
}

/// The digits of `value` in `radix`, most significant first. The digits are
/// found from the least significant one up and then put in order.
pub fn render_digits(value: u64, radix: u32) -> (rendered: Vec<u8>)
    requires
        is_legal_radix(radix as int),
    ensures
        rendered@ == render(value as int, radix as int),
{
    let base: u64 = radix as u64;
    let mut result: Vec<u8> = Vec::new();
    let mut x: u64 = value;
    loop
        invariant_except_break
            is_legal_radix(radix as int),
            base == radix,
            render(value as int, radix as int) == render(x as int, radix as int) + reversed(
                result@,
            ),
        ensures
            render(value as int, radix as int) == reversed(result@),
        decreases x,
    {
        let m: u32 = (x % base) as u32;
        let ghost before = result@;
        let ghost whole = x;
        x = x / base;
        result.push(digit_char(m));
        proof {
            assert(reversed(result@) =~= seq![digit_byte(m as int)] + reversed(before));
            if x == 0 {
                assert(whole < base) by (nonlinear_arith)
                    requires
                        whole >= 0,
                        base >= 2,
                        whole / base == 0,
                ;
                assert(whole % base == whole) by (nonlinear_arith)
                    requires
                        0 <= whole < base,
                ;
                assert(render(whole as int, radix as int) =~= seq![digit_byte(m as int)]);
            } else {
                assert(whole >= base) by (nonlinear_arith)
                    requires
                        whole >= 0,
                        base >= 2,
                        whole / base != 0,
                ;
                assert(render(whole as int, radix as int) + reversed(before) =~= render(
                    x as int,
                    radix as int,
                ) + reversed(result@));
            }
        }
        if x == 0 {
            break ;
        }
    }
    let count = result.len();
    let mut ordered: Vec<u8> = Vec::with_capacity(count);
    let mut taken: usize = 0;
    while taken < count
        invariant
            taken <= count,
            count == result.len(),
            ordered.len() == taken,
            forall|i: int| 0 <= i < taken ==> ordered@[i] == result@[count - 1 - i],
        decreases count - taken,
    {
        ordered.push(result[count - 1 - taken]);
        taken += 1;
    }
    assert(ordered@ =~= reversed(result@));
    ordered
}

/// The digits of `value`, which is not negative, in the radix `base`. A
/// radix outside `2..=36` is an error.
pub fn render_radix(value: i64, base: i64) -> (rendered: Result<Vec<u8>, Exception>)
    requires
        value >= 0,
    ensures
        !is_legal_radix(base as int) ==> rendered == Err::<Vec<u8>, Exception>(
            Exception::IllegalRadix,
        ),
        is_legal_radix(base as int) ==> rendered is Ok && rendered->Ok_0@ == render(
            value as int,
            base as int,
        ),
{
    match check_radix(base) {
        Ok(radix) => Ok(render_digits(value as u64, radix)),
        Err(error) => Err(error),
    }
}

/// The digits that are rendered are digits, and none of them is a sign.
pub proof fn lemma_render_is_digits(value: int, radix: int)
    requires
        0 <= value,
        is_legal_radix(radix),
    ensures
        render(value, radix).len() > 0,
        forall|i: int|
            0 <= i < render(value, radix).len() ==> {
                &&& (#[trigger] render(value, radix)[i]) < 0x80
                &&& digit_of(render(value, radix)[i]) is Some
                &&& digit_of(render(value, radix)[i]).unwrap() < radix
            },
        magnitude(render(value, radix), radix) == Some(value),
    decreases value,
{
    if value < radix {
        let one = seq![digit_byte(value)];
        assert(one.drop_last() =~= Seq::<u8>::empty());
        assert(one.last() == digit_byte(value));
        assert(magnitude(one.drop_last(), radix) == Some(0int));
        assert(digit_of(digit_byte(value)) == Some(value));
        assert(0 * radix + value == value);
        assert(magnitude(one, radix) == Some(value));
    } else {
        let high = value / radix;
        let low = value % radix;
        lemma_render_is_digits(high, radix);
        let all = render(value, radix);
        assert(all.drop_last() =~= render(high, radix));
        assert(all.last() == digit_byte(low));
        assert(high * radix + low == value && 0 <= low < radix && 0 <= high) by (nonlinear_arith)
            requires
                high == value / radix,
                low == value % radix,
                radix >= 2,
                value >= 0,
        ;
        assert(digit_of(digit_byte(low)) == Some(low));
        assert(magnitude(all, radix) == Some(value));
    }
}

/// Rendering a number that is not negative in a radix from 2 to 36 and
/// parsing the digits in the same radix gives the number back.
pub proof fn lemma_radix_round_trip(value: int, radix: int)
    requires
        0 <= value <= i64::MAX,
        is_legal_radix(radix),
    ensures
        parse_integer(render(value, radix), radix) == Some(value as i64),
{
    lemma_render_is_digits(value, radix);
    let text = render(value, radix);
    assert(digit_of(text[0]) is Some);
    assert(!has_sign(text));
}

} // verus!
