//! Text on the wire: UTF-8 decoding, byte comparison and decimal numbers.

use vstd::prelude::*;
use vstd::utf8::decode_utf8;
use vstd::utf8::encode_utf8;
use vstd::utf8::valid_utf8;

verus! {

/// `std::str::from_utf8`: the bytes seen as text, where they are valid UTF-8,
/// and nothing where they are not. The text holds the characters that the
/// bytes encode.
#[verifier::external_body]
fn str_from_utf8<'a>(bytes: &'a [u8]) -> (text: Option<&'a str>)
    ensures
        text is Some <==> valid_utf8(bytes@),
        text is Some ==> text->Some_0@ == decode_utf8(bytes@),
{
    std::str::from_utf8(bytes).ok()
}

/// The text that `bytes` encode, if they are valid UTF-8.
pub open spec fn text_of(bytes: Seq<u8>) -> Option<Seq<char>> {
    if valid_utf8(bytes) {
        Some(decode_utf8(bytes))
    } else {
        None
    }
}

/// Decodes UTF-8 bytes into an owned string.
pub fn bytes_to_string(bytes: &[u8]) -> (text: Option<String>)
    ensures
        text is Some <==> text_of(bytes@) is Some,
        text is Some ==> text->Some_0@ == text_of(bytes@)->Some_0,
{
    match str_from_utf8(bytes) {
        Some(s) => Some(s.to_owned()),
        None => None,
    }
}

/// Whether two byte strings hold the same bytes.
pub fn bytes_equal(a: &[u8], b: &[u8]) -> (same: bool)
    ensures
        same == (a@ == b@),
{
    if a.len() != b.len() {
        return false;
    }
    let mut i: usize = 0;
    while i < a.len()
        invariant
            a@.len() == b@.len(),
            i <= a@.len(),
            forall|k: int| 0 <= k < i ==> a@[k] == b@[k],
        decreases a@.len() - i,
    {
        if a[i] != b[i] {
            return false;
        }
        i += 1;
    }
    assert(a@ =~= b@);
    true
}

/// Two strings with the same UTF-8 bytes hold the same characters.
pub proof fn lemma_utf8_injective(a: Seq<char>, b: Seq<char>)
    requires
        encode_utf8(a) == encode_utf8(b),
    ensures
        a == b,
{
    vstd::utf8::encode_utf8_decode_utf8(a);
    vstd::utf8::encode_utf8_decode_utf8(b);
}

/// Whether two strings hold the same characters.
pub fn str_equal(a: &str, b: &str) -> (same: bool)
    ensures
        same == (a@ == b@),
{
    let same = bytes_equal(a.as_bytes(), b.as_bytes());
    proof {
        if same {
            lemma_utf8_injective(a@, b@);
        }
    }
    same
}

/// Whether `b` is an ASCII decimal digit.
pub open spec fn is_digit(b: u8) -> bool {
    0x30 <= b <= 0x39
}

/// Whether every byte of `s` is a decimal digit.
pub open spec fn all_digits(s: Seq<u8>) -> bool {
    forall|i: int| 0 <= i < s.len() ==> is_digit(#[trigger] s[i])
}

/// The number that a string of decimal digits denotes.
pub open spec fn digits_value(s: Seq<u8>) -> int
    decreases s.len(),
{
    if s.len() == 0 {
        0
    } else {
        digits_value(s.drop_last()) * 10 + (s.last() as int - 0x30)
    }
}

/// The digits of a decimal number: what follows its sign, if it has one.
pub open spec fn digits_part(s: Seq<u8>) -> Seq<u8> {
    if s.len() > 0 && (s[0] == 0x2d || s[0] == 0x2b) {
        s.subrange(1, s.len() as int)
    } else {
        s
    }
}

/// The integer that `s` denotes: an optional `+` or `-`, then one or more
/// decimal digits and nothing else.
pub open spec fn decimal(s: Seq<u8>) -> Option<int> {
    let digits = digits_part(s);
    if digits.len() == 0 || !all_digits(digits) {
        None
    } else if s[0] == 0x2d {
        Some(-digits_value(digits))
    } else {
        Some(digits_value(digits))
    }
}

/// The integer that `s` denotes, if it lies between `min` and `max`.
pub open spec fn decimal_within(s: Seq<u8>, min: int, max: int) -> Option<int> {
    match decimal(s) {
        Some(v) => if min <= v <= max {
            Some(v)
        } else {
            None
        },
        None => None,
    }
}

/// A longer string of digits denotes no smaller number than its beginning.
pub proof fn lemma_digits_value_grows(s: Seq<u8>, n: int)
    requires
        all_digits(s),
        0 <= n <= s.len(),
    ensures
        0 <= digits_value(s.take(n)) <= digits_value(s),
    decreases s.len() - n,
{
    if n == s.len() {
        assert(s.take(n) =~= s);
        lemma_digits_value_nonnegative(s);
    } else {
        lemma_digits_value_grows(s, n + 1);
        assert(s.take(n + 1).drop_last() =~= s.take(n));
        lemma_digits_value_nonnegative(s.take(n));
        assert(is_digit(s.take(n + 1).last()));
    }
}

/// A string of digits denotes no negative number.
pub proof fn lemma_digits_value_nonnegative(s: Seq<u8>)
    requires
        all_digits(s),
    ensures
        0 <= digits_value(s),
    decreases s.len(),
{
    if s.len() > 0 {
        lemma_digits_value_nonnegative(s.drop_last());
        assert(is_digit(s.last()));
    }
}

/// Reads a decimal 64-bit integer.
pub fn parse_i64(bytes: &[u8]) -> (number: Option<i64>)
    ensures
        number is Some <==> decimal_within(bytes@, i64::MIN as int, i64::MAX as int) is Some,
        number is Some ==> number->Some_0 as int == decimal_within(
            bytes@,
            i64::MIN as int,
            i64::MAX as int,
        )->Some_0,
{
    let n: usize = bytes.len();
    let negative: bool = n > 0 && bytes[0] == 0x2d;
    let start: usize = if n > 0 && (bytes[0] == 0x2d || bytes[0] == 0x2b) { 1 } else { 0 };
    if start == n {
        return None;
    }
    let ghost digits = digits_part(bytes@);
    assert(digits =~= bytes@.subrange(start as int, n as int));
    let mut acc: i128 = 0;
    let mut i: usize = start;
    while i < n
        invariant
            start <= i <= n,
            n == bytes@.len(),
            digits == bytes@.subrange(start as int, n as int),
            digits == digits_part(bytes@),
            negative == (bytes@[0] == 0x2d),
            all_digits(digits.take(i - start)),
            acc as int == digits_value(digits.take(i - start)),
            0 <= acc <= 0x8000_0000_0000_0000,
        decreases n - i,
    {
        let b: u8 = bytes[i];
        if b < 0x30 || b > 0x39 {
            assert(!is_digit(digits[i - start]));
            return None;
        }
        let next: i128 = acc * 10 + (b - 0x30) as i128;
        proof {
            let grown = digits.take(i - start + 1);
            assert(grown.drop_last() =~= digits.take(i - start));
            assert(grown.last() == b);
            assert(all_digits(grown)) by {
                assert forall|k: int| 0 <= k < grown.len() implies is_digit(#[trigger] grown[k]) by {
                    if k < i - start {
                        assert(grown[k] == digits.take(i - start)[k]);
                    }
                }
            }
            assert(next as int == digits_value(grown));
        }
        if next > 0x8000_0000_0000_0000 {
            proof {
                if all_digits(digits) {
                    lemma_digits_value_grows(digits, i - start + 1);
                }
            }
            return None;
        }
        acc = next;
        i += 1;
    }
    assert(digits.take(n - start) =~= digits);
    if negative {
        Some((-acc) as i64)
    } else if acc > 0x7fff_ffff_ffff_ffff {
        None
    } else {
        Some(acc as i64)
    }
}

/// Reads a decimal 32-bit integer.
pub fn parse_i32(bytes: &[u8]) -> (number: Option<i32>)
    ensures
        number is Some <==> decimal_within(bytes@, i32::MIN as int, i32::MAX as int) is Some,
        number is Some ==> number->Some_0 as int == decimal_within(
            bytes@,
            i32::MIN as int,
            i32::MAX as int,
        )->Some_0,
{
    match parse_i64(bytes) {
        Some(v) => if v < -0x8000_0000 || v > 0x7fff_ffff {
            None
        } else {
            Some(v as i32)
        },
        None => None,
    }
}

/// The digits of a number without a sign: what follows its `+`, if it has one.
pub open spec fn unsigned_digits(s: Seq<u8>) -> Seq<u8> {
    if s.len() > 0 && s[0] == 0x2b {
        s.subrange(1, s.len() as int)
    } else {
        s
    }
}

/// The natural number up to `max` that `s` denotes: an optional `+`, then one
/// or more decimal digits and nothing else.
pub open spec fn natural_within(s: Seq<u8>, max: int) -> Option<int> {
    let digits = unsigned_digits(s);
    if digits.len() == 0 || !all_digits(digits) || digits_value(digits) > max {
        None
    } else {
        Some(digits_value(digits))
    }
}

/// Reads a decimal number of the size of a length.
pub fn parse_usize(bytes: &[u8]) -> (number: Option<usize>)
    ensures
        number is Some <==> natural_within(bytes@, usize::MAX as int) is Some,
        number is Some ==> number->Some_0 as int == natural_within(
            bytes@,
            usize::MAX as int,
        )->Some_0,
{
    let n: usize = bytes.len();
    let start: usize = if n > 0 && bytes[0] == 0x2b { 1 } else { 0 };
    if start == n {
        return None;
    }
    let ghost digits = unsigned_digits(bytes@);
    assert(digits =~= bytes@.subrange(start as int, n as int));
    let mut acc: usize = 0;
    let mut i: usize = start;
    while i < n
        invariant
            start <= i <= n,
            n == bytes@.len(),
            digits == bytes@.subrange(start as int, n as int),
            digits == unsigned_digits(bytes@),
            all_digits(digits.take(i - start)),
            acc as int == digits_value(digits.take(i - start)),
        decreases n - i,
    {
        let b: u8 = bytes[i];
        if b < 0x30 || b > 0x39 {
            assert(!is_digit(digits[i - start]));
            return None;
        }
        let next: u128 = acc as u128 * 10 + (b - 0x30) as u128;
        proof {
            let grown = digits.take(i - start + 1);
            assert(grown.drop_last() =~= digits.take(i - start));
            assert(grown.last() == b);
            assert(all_digits(grown)) by {
                assert forall|k: int| 0 <= k < grown.len() implies is_digit(#[trigger] grown[k]) by {
                    if k < i - start {
                        assert(grown[k] == digits.take(i - start)[k]);
                    }
                }
            }
            assert(next as int == digits_value(grown));
        }
        if next > usize::MAX as u128 {
            proof {
                if all_digits(digits) {
                    lemma_digits_value_grows(digits, i - start + 1);
                }
            }
            return None;
        }
        acc = next as usize;
        i += 1;
    }
    assert(digits.take(n - start) =~= digits);
    Some(acc)
}

} // verus!
