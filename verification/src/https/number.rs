//! Unsigned numbers as text: parsing and writing in decimal and hexadecimal.

use vstd::prelude::*;

verus! {

/// The value of one digit in the given radix (10 or 16), if it is one.
pub open spec fn digit_value(b: u8, radix: int) -> Option<int> {
    if 48 <= b <= 57 {
        Some(b - 48)
    } else if radix == 16 && 97 <= b <= 102 {
        Some(b - 97 + 10)
    } else if radix == 16 && 65 <= b <= 70 {
        Some(b - 65 + 10)
    } else {
        None
    }
}

/// Whether every byte of `s` is a digit in the given radix.
pub open spec fn all_digits(s: Seq<u8>, radix: int) -> bool {
    forall|i: int| 0 <= i < s.len() ==> (#[trigger] digit_value(s[i], radix)) is Some
}

/// The number that a run of digits denotes, most significant digit first.
pub open spec fn digits_value(s: Seq<u8>, radix: int) -> int
    decreases s.len(),
{
    if s.len() == 0 {
        0
    } else {
        digits_value(s.drop_last(), radix) * radix + digit_value(s.last(), radix).unwrap_or(0)
    }
}

/// The digits of a number text: the text without one leading plus sign.
pub open spec fn unsigned_digits(s: Seq<u8>) -> Seq<u8> {
    if s.len() > 0 && s[0] == 43u8 {
        s.skip(1)
    } else {
        s
    }
}

/// The number that `s` denotes, if it is an optional plus sign followed by
/// at least one digit and the value is at most `max`.
pub open spec fn parse_unsigned(s: Seq<u8>, radix: int, max: int) -> Option<int> {
    let digits = unsigned_digits(s);
    if digits.len() > 0 && all_digits(digits, radix) && digits_value(digits, radix) <= max {
        Some(digits_value(digits, radix))
    } else {
        None
    }
}

/// The value of a run of digits never shrinks when a digit is appended.
pub proof fn lemma_digits_value_grows(s: Seq<u8>, radix: int, k: int)
    requires
        radix == 10 || radix == 16,
        0 <= k <= s.len(),
    ensures
        0 <= digits_value(s.take(k), radix) <= digits_value(s, radix),
    decreases s.len() - k,
{
    lemma_digits_value_nonneg(s.take(k), radix);
    if k < s.len() {
        lemma_digits_value_grows(s, radix, k + 1);
        let t = s.take(k + 1);
        assert(t.drop_last() =~= s.take(k));
        lemma_digits_value_nonneg(s.take(k), radix);
        let v = digits_value(s.take(k), radix);
        assert(v * radix >= v) by (nonlinear_arith)
            requires
                v >= 0,
                radix >= 1,
        ;
    } else {
        assert(s.take(k) =~= s);
    }
}

/// The value of a run of digits is not negative.
pub proof fn lemma_digits_value_nonneg(s: Seq<u8>, radix: int)
    requires
        radix == 10 || radix == 16,
    ensures
        0 <= digits_value(s, radix),
    decreases s.len(),
{
    if s.len() > 0 {
        lemma_digits_value_nonneg(s.drop_last(), radix);
        let v = digits_value(s.drop_last(), radix);
        assert(v * radix >= 0) by (nonlinear_arith)
            requires
                v >= 0,
                radix >= 1,
        ;
    }
}

/// The value of one digit in the given radix, if it is one.
fn digit_of(b: u8, radix: u64) -> (r: Option<u64>)
    requires
        radix == 10 || radix == 16,
    ensures
        match r {
            Some(v) => digit_value(b, radix as int) == Some(v as int) && v < radix,
            None => digit_value(b, radix as int) is None,
        },
{
    if 48 <= b && b <= 57 {
        Some((b - 48) as u64)
    } else if radix == 16 && 97 <= b && b <= 102 {
        Some((b - 97 + 10) as u64)
    } else if radix == 16 && 65 <= b && b <= 70 {
        Some((b - 65 + 10) as u64)
    } else {
        None
    }
}

/// Parses an unsigned decimal number that must not exceed `max`.
pub fn parse_decimal(s: &[u8], max: u64) -> (r: Option<u64>)
    ensures
        match r {
            Some(v) => parse_unsigned(s@, 10, max as int) == Some(v as int),
            None => parse_unsigned(s@, 10, max as int) is None,
        },
{
    parse_unsigned_bytes(s, 10, max)
}

/// Parses an unsigned hexadecimal number that must not exceed `max`.
pub fn parse_hex(s: &[u8], max: u64) -> (r: Option<u64>)
    ensures
        match r {
            Some(v) => parse_unsigned(s@, 16, max as int) == Some(v as int),
            None => parse_unsigned(s@, 16, max as int) is None,
        },
{
    parse_unsigned_bytes(s, 16, max)
}

/// Parses an unsigned number in radix 10 or 16 that must not exceed `max`.
fn parse_unsigned_bytes(s: &[u8], radix: u64, max: u64) -> (r: Option<u64>)
    requires
        radix == 10 || radix == 16,
    ensures
        match r {
            Some(v) => parse_unsigned(s@, radix as int, max as int) == Some(v as int),
            None => parse_unsigned(s@, radix as int, max as int) is None,
        },
{
    let n: usize = s.len();
    let start: usize = if n > 0 && s[0] == 43 { 1 } else { 0 };
    let ghost digits = unsigned_digits(s@);
    assert(digits =~= s@.skip(start as int));
    if start >= n {
        return None;
    }
    let mut value: u64 = 0;
    let mut i: usize = start;
    while i < n
        invariant
            radix == 10 || radix == 16,
            start <= i <= n,
            n == s@.len(),
            digits == unsigned_digits(s@),
            digits == s@.skip(start as int),
            all_digits(digits.take(i - start), radix as int),
            value == digits_value(digits.take(i - start), radix as int),
            value <= max,
        decreases n - i,
    {
        let ghost before = digits.take(i - start);
        let ghost after = digits.take(i - start + 1);
        assert(after.drop_last() =~= before);
        assert(after.last() == s@[i as int]);
        match digit_of(s[i], radix) {
            None => {
                assert(digit_value(digits[i - start], radix as int) is None);
                return None;
            },
            Some(v) => {
                assert(all_digits(after, radix as int)) by {
                    assert forall|j: int| 0 <= j < after.len() implies (#[trigger] digit_value(
                        after[j],
                        radix as int,
                    )) is Some by {
                        if j < before.len() {
                            assert(after[j] == before[j]);
                        }
                    }
                }
                let ghost next = value as int * radix as int + v as int;
                assert(next == digits_value(after, radix as int));
                if max < v || value > (max - v) / radix {
                    proof {
                        assert(next > max) by (nonlinear_arith)
                            requires
                                value as int > (max as int - v as int) / (radix as int) || (max
                                    as int) < v as int,
                                next == value as int * radix as int + v as int,
                                radix as int >= 1,
                                v as int >= 0,
                                value as int >= 0,
                        ;
                        lemma_digits_value_grows(digits, radix as int, i - start + 1);
                    }
                    return None;
                }
                assert(next <= max) by (nonlinear_arith)
                    requires
                        value as int <= (max as int - v as int) / (radix as int),
                        max as int >= v as int,
                        next == value as int * radix as int + v as int,
                        radix as int >= 1,
                        v as int >= 0,
                        value as int >= 0,
                ;
                value = value * radix + v;
                i += 1;
            },
        }
    }
    assert(digits.take(i - start) =~= digits);
    Some(value)
}

/// The byte that writes the digit `v` (lower case above nine).
pub open spec fn digit_byte(v: int) -> u8 {
    if v < 10 {
        (48 + v) as u8
    } else {
        (97 + v - 10) as u8
    }
}

/// The digits of `n`, most significant first and without leading zeros:
/// hexadecimal where `radix` is 16, decimal otherwise.
pub open spec fn number_digits(n: nat, radix: int) -> Seq<u8>
    decreases n,
{
    if radix == 16 {
        if n < 16 {
            seq![digit_byte(n as int)]
        } else {
            number_digits(n / 16, radix).push(digit_byte((n % 16) as int))
        }
    } else {
        if n < 10 {
            seq![digit_byte(n as int)]
        } else {
            number_digits(n / 10, radix).push(digit_byte((n % 10) as int))
        }
    }
}

/// What `number_digits` writes is a non-empty run of digits whose value is the
/// number.
pub proof fn lemma_number_digits(n: nat, radix: int)
    requires
        radix == 10 || radix == 16,
    ensures
        number_digits(n, radix).len() > 0,
        all_digits(number_digits(n, radix), radix),
        digits_value(number_digits(n, radix), radix) == n,
    decreases n,
{
    let s = number_digits(n, radix);
    if n < radix {
        assert(s.drop_last() =~= Seq::<u8>::empty());
        assert(digits_value(s.drop_last(), radix) == 0);
    } else {
        let q: nat = if radix == 16 { n / 16 } else { n / 10 };
        let r: int = if radix == 16 { (n % 16) as int } else { (n % 10) as int };
        lemma_number_digits(q, radix);
        assert(s.drop_last() =~= number_digits(q, radix));
        assert(s.last() == digit_byte(r));
        assert forall|i: int| 0 <= i < s.len() implies (#[trigger] digit_value(s[i], radix)) is Some by {
            if i < s.len() - 1 {
                assert(s[i] == number_digits(q, radix)[i]);
            }
        }
        assert(q * radix + r == n);
    }
}

/// A number that was written with `number_digits` parses back to itself.
pub proof fn lemma_parse_number_digits(n: nat, radix: int, max: int)
    requires
        radix == 10 || radix == 16,
        n <= max,
    ensures
        parse_unsigned(number_digits(n, radix), radix, max) == Some(n as int),
{
    lemma_number_digits(n, radix);
    let s = number_digits(n, radix);
    assert(digit_value(s[0], radix) is Some);
}

/// Appends the decimal digits of `n` to `buf`.
pub fn push_decimal(buf: &mut Vec<u8>, n: u64)
    ensures
        final(buf)@ == old(buf)@ + number_digits(n as nat, 10),
    decreases n,
{
    if n >= 10 {
        push_decimal(buf, n / 10);
    }
    let d: u8 = (n % 10) as u8;
    buf.push(48 + d);
    assert(final(buf)@ =~= old(buf)@ + number_digits(n as nat, 10));
}

/// The digits of a number are ASCII, hence valid UTF-8.
pub proof fn lemma_digits_are_text(n: nat)
    ensures
        vstd::utf8::valid_utf8(number_digits(n, 10)),
{
    let s = number_digits(n, 10);
    lemma_number_digits(n, 10);
    assert forall|i: int| 0 <= i < s.len() implies #[trigger] s[i] < 128 by {
        assert(digit_value(s[i], 10) is Some);
    }
    lemma_ascii_is_text(s);
}

/// Bytes below 128 are valid UTF-8.
pub proof fn lemma_ascii_is_text(s: Seq<u8>)
    requires
        forall|i: int| 0 <= i < s.len() ==> #[trigger] s[i] < 128,
    ensures
        vstd::utf8::valid_utf8(s),
    decreases s.len(),
{
    if s.len() > 0 {
        let b = s[0];
        assert(vstd::utf8::is_leading_byte_width_1(b)) by (bit_vector)
            requires
                b < 128,
        ;
        let rest = vstd::utf8::pop_first_scalar(s);
        assert(rest =~= s.subrange(1, s.len() as int));
        assert forall|i: int| 0 <= i < rest.len() implies #[trigger] rest[i] < 128 by {
            assert(rest[i] == s[i + 1]);
        }
        lemma_ascii_is_text(rest);
    }
}

/// The decimal text of a number.
pub open spec fn decimal_text(n: nat) -> Seq<char> {
    vstd::utf8::decode_utf8(number_digits(n, 10))
}

} // verus!
