//! Decimal numbers in text: the integer that a clock time stands for, the
//! reading of a port number, and the writing of one.
//!
//! Reading follows what the standard library accepts for an integer: an
//! optional sign, then one or more ASCII digits and nothing else, and a value
//! that fits the target type.

use vstd::prelude::*;
use vstd::string::StringSliceAdditionalSpecFns;
use vstd::utf8::encode_utf8;

verus! {

/// The ASCII code of `:`.
pub const COLON: u8 = 58;

/// The ASCII code of `+`.
pub const PLUS: u8 = 43;

/// The ASCII code of `-`.
pub const MINUS: u8 = 45;

/// The ASCII code of `0`.
pub const ZERO: u8 = 48;

/// No accepted number has a magnitude above this bound.
pub const MAGNITUDE_CAP: i64 = 1_000_000_000_000;

/// `b` is an ASCII digit.
pub open spec fn is_digit(b: u8) -> bool {
    48 <= b <= 57
}

/// Every byte of `s` is an ASCII digit.
pub open spec fn all_digits(s: Seq<u8>) -> bool {
    forall|i: int| 0 <= i < s.len() ==> is_digit(#[trigger] s[i])
}

/// The number that a string of ASCII digits writes, most significant first.
pub open spec fn digits_value(s: Seq<u8>) -> nat
    decreases s.len(),
{
    if s.len() == 0 {
        0
    } else {
        digits_value(s.drop_last()) * 10 + (s.last() - 48) as nat
    }
}

/// How many bytes of sign `s` starts with: a `+` always counts, a `-` only
/// where negative numbers are read.
pub open spec fn sign_len(s: Seq<u8>, signed: bool) -> int {
    if s.len() > 0 && (s[0] == 43 || (signed && s[0] == 45)) {
        1
    } else {
        0
    }
}

/// The integer that `s` writes, if it is an optional sign followed by at least
/// one digit and only digits, and the value lies in `lo..=hi`.
pub open spec fn parse_decimal(s: Seq<u8>, signed: bool, lo: int, hi: int) -> Option<int> {
    let digits = s.skip(sign_len(s, signed));
    let magnitude = digits_value(digits) as int;
    let value = if signed && s.len() > 0 && s[0] == 45 {
        -magnitude
    } else {
        magnitude
    };
    if digits.len() > 0 && all_digits(digits) && lo <= value <= hi {
        Some(value)
    } else {
        None
    }
}

/// `s` with every `:` taken out.
pub open spec fn without_colons(s: Seq<u8>) -> Seq<u8>
    decreases s.len(),
{
    if s.len() == 0 {
        s
    } else if s.last() == 58 {
        without_colons(s.drop_last())
    } else {
        without_colons(s.drop_last()).push(s.last())
    }
}

/// The bytes that are read as a number: all of `s`, or `s` without its colons.
pub open spec fn significant(s: Seq<u8>, skip_colons: bool) -> Seq<u8> {
    if skip_colons {
        without_colons(s)
    } else {
        s
    }
}

/// The integer by which a clock time such as `08:00` is ordered: its text with
/// the colons removed, read as a 32-bit signed integer, and 0 where that text
/// is no such integer.
pub open spec fn spec_time_key(time: Seq<u8>) -> int {
    match parse_decimal(without_colons(time), true, i32::MIN as int, i32::MAX as int) {
        Some(v) => v,
        None => 0,
    }
}

/// The integer by which the clock time `time` is ordered.
pub open spec fn time_key_of(time: Seq<char>) -> int {
    spec_time_key(encode_utf8(time))
}

/// The 16-bit unsigned integer that `text` writes, if it writes one.
pub open spec fn u16_of(text: Seq<char>) -> Option<int> {
    parse_decimal(encode_utf8(text), false, 0, 65535)
}

/// Appending a digit multiplies the value by ten and adds the digit.
proof fn lemma_digits_value_push(d: Seq<u8>, b: u8)
    ensures
        digits_value(d.push(b)) == digits_value(d) * 10 + (b - 48) as nat,
{
    assert(d.push(b).drop_last() =~= d);
}

/// The value of a digit string never shrinks when a digit is appended.
proof fn lemma_digits_value_grows(d: Seq<u8>, b: u8)
    requires
        is_digit(b),
    ensures
        digits_value(d.push(b)) >= digits_value(d),
{
    lemma_digits_value_push(d, b);
    assert(digits_value(d) * 10 >= digits_value(d)) by (nonlinear_arith);
}

/// What one more byte does to the significant bytes read so far.
proof fn lemma_significant_step(s: Seq<u8>, i: int, skip_colons: bool)
    requires
        0 <= i < s.len(),
    ensures
        significant(s.take(i + 1), skip_colons) == if skip_colons && s[i] == 58 {
            significant(s.take(i), skip_colons)
        } else {
            significant(s.take(i), skip_colons).push(s[i])
        },
{
    assert(s.take(i + 1).drop_last() =~= s.take(i));
    assert(s.take(i + 1).last() == s[i]);
    if !skip_colons {
        assert(s.take(i + 1) =~= s.take(i).push(s[i]));
    }
}

/// Reads the significant bytes of `bytes` as a decimal integer in `lo..=hi`.
fn scan_decimal(bytes: &[u8], skip_colons: bool, signed: bool, lo: i64, hi: i64) -> (r: Option<i64>)
    requires
        -MAGNITUDE_CAP <= lo,
        hi <= MAGNITUDE_CAP,
    ensures
        r is Some == parse_decimal(significant(bytes@, skip_colons), signed, lo as int, hi as int)
            is Some,
        r matches Some(v) ==> parse_decimal(
            significant(bytes@, skip_colons),
            signed,
            lo as int,
            hi as int,
        ) == Some(v as int),
{
    let mut started = false;
    let mut negative = false;
    let mut any_digit = false;
    let mut clean = true;
    let mut too_big = false;
    let mut acc: i64 = 0;
    let ghost mut seen: Seq<u8> = Seq::empty();
    let ghost mut digits: Seq<u8> = Seq::empty();
    let mut i: usize = 0;
    proof {
        assert(bytes@.take(0) =~= Seq::<u8>::empty());
        assert(seen.skip(0) =~= digits);
    }
    while i < bytes.len()
        invariant
            i <= bytes@.len(),
            seen == significant(bytes@.take(i as int), skip_colons),
            digits == seen.skip(sign_len(seen, signed)),
            started == (seen.len() > 0),
            negative == (signed && seen.len() > 0 && seen[0] == 45),
            any_digit == (digits.len() > 0),
            clean == all_digits(digits),
            0 <= acc <= MAGNITUDE_CAP,
            clean && !too_big ==> acc == digits_value(digits),
            clean && too_big ==> digits_value(digits) > MAGNITUDE_CAP,
        decreases bytes@.len() - i,
    {
        let b = bytes[i];
        proof {
            lemma_significant_step(bytes@, i as int, skip_colons);
        }
        if skip_colons && b == COLON {
        } else if !started && (b == PLUS || (signed && b == MINUS)) {
            started = true;
            negative = b == MINUS;
            proof {
                seen = seen.push(b);
                assert(seen.skip(1) =~= digits);
            }
        } else {
            let ghost before = digits;
            proof {
                assert(seen.push(b).skip(sign_len(seen.push(b), signed)) =~= digits.push(b));
                seen = seen.push(b);
                digits = digits.push(b);
                lemma_digits_value_push(before, b);
                assert(all_digits(digits) == (all_digits(before) && is_digit(b))) by {
                    if all_digits(before) && is_digit(b) {
                        assert forall|j: int| 0 <= j < digits.len() implies is_digit(
                            #[trigger] digits[j],
                        ) by {
                            if j < before.len() {
                                assert(digits[j] == before[j]);
                            }
                        }
                    }
                    if all_digits(digits) {
                        assert(is_digit(digits[before.len() as int]));
                        assert forall|j: int| 0 <= j < before.len() implies is_digit(
                            #[trigger] before[j],
                        ) by {
                            assert(digits[j] == before[j]);
                        }
                    }
                }
            }
            started = true;
            any_digit = true;
            if b < ZERO || b > 57 {
                clean = false;
            } else if clean {
                if !too_big {
                    let next = acc * 10 + (b - ZERO) as i64;
                    if next > MAGNITUDE_CAP {
                        too_big = true;
                    } else {
                        acc = next;
                    }
                } else {
                    proof {
                        lemma_digits_value_grows(before, b);
                    }
                }
            }
        }
        i = i + 1;
    }
    proof {
        assert(bytes@.take(i as int) =~= bytes@);
    }
    if !any_digit || !clean || too_big {
        None
    } else {
        let value = if negative {
            -acc
        } else {
            acc
        };
        if lo <= value && value <= hi {
            Some(value)
        } else {
            None
        }
    }
}

/// The integer by which a clock time is ordered; see [`spec_time_key`].
pub fn time_key(time: &str) -> (k: i32)
    ensures
        k == time_key_of(time@),
{
    match scan_decimal(time.as_bytes(), true, true, -2147483648, 2147483647) {
        Some(v) => v as i32,
        None => 0,
    }
}

/// Reads `text` as a 16-bit unsigned integer.
pub fn parse_u16(text: &str) -> (r: Option<u16>)
    ensures
        r is Some == u16_of(text@) is Some,
        r matches Some(v) ==> u16_of(text@) == Some(v as int),
{
    match scan_decimal(text.as_bytes(), false, false, 0, 65535) {
        Some(v) => Some(v as u16),
        None => None,
    }
}

/// The character that writes the digit `d`.
pub open spec fn digit_char(d: nat) -> char {
    seq!['0', '1', '2', '3', '4', '5', '6', '7', '8', '9'][d as int]
}

/// The decimal writing of `n`, without sign or leading zeros.
pub open spec fn decimal_text(n: nat) -> Seq<char>
    decreases n,
{
    if n < 10 {
        seq![digit_char(n)]
    } else {
        decimal_text(n / 10).push(digit_char(n % 10))
    }
}

/// The one-character string of the digit `d`.
fn digit_str(d: u16) -> (r: &'static str)
    requires
        d < 10,
    ensures
        r@ == seq![digit_char(d as nat)],
{
    proof {
        reveal_strlit("0");
        reveal_strlit("1");
        reveal_strlit("2");
        reveal_strlit("3");
        reveal_strlit("4");
        reveal_strlit("5");
        reveal_strlit("6");
        reveal_strlit("7");
        reveal_strlit("8");
        reveal_strlit("9");
    }
    let r = if d == 0 {
        "0"
    } else if d == 1 {
        "1"
    } else if d == 2 {
        "2"
    } else if d == 3 {
        "3"
    } else if d == 4 {
        "4"
    } else if d == 5 {
        "5"
    } else if d == 6 {
        "6"
    } else if d == 7 {
        "7"
    } else if d == 8 {
        "8"
    } else {
        "9"
    };
    assert(r@ =~= seq![digit_char(d as nat)]);
    r
}

/// Writes `n` in decimal.
pub fn u16_to_text(n: u16) -> (r: String)
    ensures
        r@ == decimal_text(n as nat),
    decreases n,
{
    if n < 10 {
        String::from_str(digit_str(n))
    } else {
        let mut out = u16_to_text(n / 10);
        out.append(digit_str(n % 10));
        assert(out@ =~= decimal_text((n / 10) as nat).push(digit_char((n % 10) as nat)));
        out
    }
}

} // verus!
