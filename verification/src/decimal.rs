//! Reading an unsigned decimal number, as `u64::from_str` reads it.
use vstd::prelude::*;
use vstd::string::is_ascii_spec_bytes;
use vstd::utf8::is_ascii_chars;

verus! {

/// Whether `c` is one of `0` to `9`.
pub open spec fn is_decimal_digit(c: char) -> bool {
    '0' <= c && c <= '9'
}

/// What the digit `c` counts for.
pub open spec fn digit_value(c: char) -> nat {
    (c as nat - '0' as nat) as nat
}

/// Whether `text` holds nothing but digits.
pub open spec fn all_decimal_digits(text: Seq<char>) -> bool {
    forall|i: int| 0 <= i < text.len() ==> is_decimal_digit(#[trigger] text[i])
}

/// The number that the digits of `digits` write in base ten.
pub open spec fn decimal_value(digits: Seq<char>) -> nat
    decreases digits.len(),
{
    if digits.len() == 0 {
        0
    } else {
        decimal_value(digits.drop_last()) * 10 + digit_value(digits.last())
    }
}

/// `text` without the `+` that it may start with.
pub open spec fn without_plus(text: Seq<char>) -> Seq<char> {
    if text.len() > 0 && text[0] == '+' {
        text.subrange(1, text.len() as int)
    } else {
        text
    }
}

/// The number that `text` stands for: `text` is one or more digits, with
/// nothing around them but at most a `+` in front, and the number they write
/// fits into 64 bits. Anything else stands for no number.
pub open spec fn parse_u64(text: Seq<char>) -> Option<u64> {
    let digits = without_plus(text);
    if digits.len() > 0 && all_decimal_digits(digits) && decimal_value(digits) <= u64::MAX {
        Some(decimal_value(digits) as u64)
    } else {
        None
    }
}

/// A number is at least as large as what any of its leading digits write.
proof fn lemma_decimal_value_grows(digits: Seq<char>, taken: int)
    requires
        0 <= taken <= digits.len(),
        all_decimal_digits(digits),
    ensures
        decimal_value(digits.take(taken)) <= decimal_value(digits),
    decreases digits.len() - taken,
{
    if taken == digits.len() {
        assert(digits.take(taken) =~= digits);
    } else {
        let longer = digits.take(taken + 1);
        assert(longer.drop_last() =~= digits.take(taken));
        assert(is_decimal_digit(digits[taken]));
        assert(longer.last() == digits[taken]);
        lemma_decimal_value_grows(digits, taken + 1);
    }
}

/// Reads `text` as an unsigned decimal number.
pub fn parse_decimal_u64(text: &str) -> (parsed: Option<u64>)
    ensures
        parsed == parse_u64(text@),
{
    if !text.is_ascii() {
        proof {
            let at = choose|i: int|
                0 <= i < text@.len() && !('\0' <= #[trigger] text@[i] <= '\u{7f}');
            let digits = without_plus(text@);
            if at == 0 {
                assert(!is_decimal_digit(digits[0]));
            } else if digits.len() == text@.len() {
                assert(!is_decimal_digit(digits[at]));
            } else {
                assert(!is_decimal_digit(digits[at - 1]));
            }
        }
        return None;
    }
    let bytes = text.as_bytes();
    let len: usize = bytes.len();
    proof {
        is_ascii_spec_bytes(text);
    }
    assert(len == text@.len());
    assert(forall|i: int| 0 <= i < len ==> bytes@[i] == text@[i] as u8);
    let start: usize = if len > 0 && bytes[0] == 43u8 {
        1
    } else {
        0
    };
    let ghost digits = without_plus(text@);
    assert(digits =~= text@.subrange(start as int, len as int)) by {
        if len > 0 {
            assert('\0' <= text@[0] <= '\u{7f}');
        }
    }
    if start == len {
        return None;
    }
    let mut value: u64 = 0;
    let mut i: usize = start;
    while i < len
        invariant
            start <= i <= len,
            len == bytes@.len(),
            len == text@.len(),
            digits == text@.subrange(start as int, len as int),
            digits == without_plus(text@),
            is_ascii_chars(text@),
            forall|k: int| 0 <= k < len ==> bytes@[k] == text@[k] as u8,
            all_decimal_digits(digits.take(i - start)),
            value == decimal_value(digits.take(i - start)),
        decreases len - i,
    {
        let byte: u8 = bytes[i];
        assert('\0' <= text@[i as int] <= '\u{7f}');
        assert(digits[i - start] == text@[i as int]);
        if byte < 48u8 || byte > 57u8 {
            assert(!is_decimal_digit(digits[i - start]));
            return None;
        }
        assert(is_decimal_digit(digits[i - start]));
        let digit: u64 = (byte - 48u8) as u64;
        assert(digit == digit_value(digits[i - start]));
        let ghost longer = digits.take(i - start + 1);
        assert(longer.drop_last() =~= digits.take(i - start));
        assert(longer.last() == digits[i - start]);
        assert(all_decimal_digits(longer));
        if value > (u64::MAX - digit) / 10 {
            proof {
                assert(decimal_value(longer) > u64::MAX);
                if all_decimal_digits(digits) {
                    lemma_decimal_value_grows(digits, i - start + 1);
                }
            }
            return None;
        }
        value = value * 10 + digit;
        i += 1;
    }
    assert(digits.take(i - start) =~= digits);
    Some(value)
}

} // verus!
