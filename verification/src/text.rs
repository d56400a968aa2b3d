use vstd::prelude::*;
use vstd::string::StrSliceExecFns;

verus! {

/// One of the ten decimal digits.
pub open spec fn is_digit(c: char) -> bool {
    '0' <= c <= '9'
}

/// Every character is a decimal digit.
pub open spec fn all_digits(text: Seq<char>) -> bool {
    forall|i: int| 0 <= i < text.len() ==> is_digit(#[trigger] text[i])
}

/// The number that a run of decimal digits stands for; 0 for none.
pub open spec fn digits_value(text: Seq<char>) -> int
    decreases text.len(),
{
    if text.len() == 0 {
        0
    } else {
        digits_value(text.drop_last()) * 10 + (text.last() as u32 - '0' as u32)
    }
}

/// The whole number that a text stands for: an optional `+` or `-`, then one
/// or more decimal digits, and nothing else.
pub open spec fn spec_parse_int(text: Seq<char>) -> Option<int> {
    if text.len() > 0 && text[0] == '-' {
        if text.len() > 1 && all_digits(text.skip(1)) {
            Some(-digits_value(text.skip(1)))
        } else {
            None
        }
    } else if text.len() > 0 && text[0] == '+' {
        if text.len() > 1 && all_digits(text.skip(1)) {
            Some(digits_value(text.skip(1)))
        } else {
            None
        }
    } else if text.len() > 0 && all_digits(text) {
        Some(digits_value(text))
    } else {
        None
    }
}

/// The 16-bit number that a text stands for, if it stands for one.
pub open spec fn spec_parse_i16(text: Seq<char>) -> Option<i16> {
    match spec_parse_int(text) {
        Some(value) => if i16::MIN <= value <= i16::MAX {
            Some(value as i16)
        } else {
            None
        },
        None => None,
    }
}

/// The 32-bit number that a text stands for, if it stands for one.
pub open spec fn spec_parse_i32(text: Seq<char>) -> Option<i32> {
    match spec_parse_int(text) {
        Some(value) => if i32::MIN <= value <= i32::MAX {
            Some(value as i32)
        } else {
            None
        },
        None => None,
    }
}

/// A run of decimal digits stands for no negative number.
pub proof fn lemma_digits_value_is_no_less_than_zero(text: Seq<char>)
    requires
        all_digits(text),
    ensures
        0 <= digits_value(text),
    decreases text.len(),
{
    if text.len() > 0 {
        assert(is_digit(text[text.len() - 1]));
        lemma_digits_value_is_no_less_than_zero(text.drop_last());
    }
}

/// The number that a run of decimal digits stands for is no less than the
/// number that its first digits stand for.
pub proof fn lemma_digits_value_grows(text: Seq<char>, n: int)
    requires
        all_digits(text),
        0 <= n <= text.len(),
    ensures
        0 <= digits_value(text.take(n)) <= digits_value(text),
    decreases text.len() - n,
{
    lemma_digits_value_is_no_less_than_zero(text.take(n));
    if n < text.len() {
        lemma_digits_value_grows(text, n + 1);
        assert(text.take(n + 1).drop_last() =~= text.take(n));
        assert(is_digit(text[n]));
    } else {
        assert(text.take(n) =~= text);
    }
}

/// The number that a text stands for, where it stands for one from `lowest`
/// to `highest`.
pub open spec fn spec_parse_within(text: Seq<char>, lowest: int, highest: int) -> Option<i64> {
    match spec_parse_int(text) {
        Some(value) => if lowest <= value <= highest {
            Some(value as i64)
        } else {
            None
        },
        None => None,
    }
}

/// The characters that a number is made of, as they stand in a text of
/// ASCII characters.
const MINUS: u8 = 45;

const PLUS: u8 = 43;

const DIGIT_ZERO: u8 = 48;

const DIGIT_NINE: u8 = 57;

/// Reads a number from `lowest` to `highest`: the sign, then digit by digit,
/// giving up at the first character that is no digit and as soon as the
/// digits read so far stand for a number beyond the bounds.
fn parse_within(text: &str, lowest: i64, highest: i64) -> (number: Option<i64>)
    requires
        -0x8000_0000 <= lowest <= 0 <= highest <= 0x7fff_ffff,
    ensures
        number == spec_parse_within(text@, lowest as int, highest as int),
{
    if !text.is_ascii() {
        proof {
            assert(!vstd::utf8::is_ascii_chars(text@));
            assert(exists|k: int|
                0 <= k < text@.len() && !('\0' <= #[trigger] text@[k] <= '\u{7f}'));
            let k = choose|k: int|
                0 <= k < text@.len() && !('\0' <= #[trigger] text@[k] <= '\u{7f}');
            assert(!is_digit(text@[k]));
            if k > 0 {
                assert(text@.skip(1)[k - 1] == text@[k]);
            }
        }
        return None;
    }
    let n = text.unicode_len();
    if n == 0 {
        return None;
    }
    let first = text.get_ascii(0);
    let negative = first == MINUS;
    let start: usize = if first == MINUS || first == PLUS {
        1
    } else {
        0
    };
    if start == n {
        return None;
    }
    let limit: i64 = if negative {
        -lowest
    } else {
        highest
    };
    let ghost digits = text@.skip(start as int);
    let mut value: i64 = 0;
    let mut i: usize = start;
    proof {
        assert(text@[0] == '-' <==> first == MINUS);
        assert(text@[0] == '+' <==> first == PLUS);
    }
    while i < n
        invariant
            text.is_ascii(),
            n == text@.len(),
            start <= i <= n,
            negative == (text@[0] == '-'),
            start == (if text@[0] == '-' || text@[0] == '+' {
                1int
            } else {
                0int
            }),
            limit == (if negative {
                -lowest
            } else {
                highest as int
            }),
            -0x8000_0000 <= lowest <= 0 <= highest <= 0x7fff_ffff,
            digits == text@.skip(start as int),
            all_digits(digits.take(i - start)),
            value == digits_value(digits.take(i - start)),
            0 <= value <= limit <= 0x8000_0000,
        decreases n - i,
    {
        let byte = text.get_ascii(i);
        proof {
            assert(digits[i - start] == text@[i as int]);
            assert(digits.take(i - start + 1).drop_last() =~= digits.take(i - start));
        }
        if byte < DIGIT_ZERO || byte > DIGIT_NINE {
            proof {
                assert(!is_digit(digits[i - start]));
            }
            return None;
        }
        value = value * 10 + (byte - DIGIT_ZERO) as i64;
        proof {
            assert(is_digit(digits[i - start]));
            assert(all_digits(digits.take(i - start + 1))) by {
                assert forall|k: int| 0 <= k < i - start + 1 implies is_digit(
                    #[trigger] digits.take(i - start + 1)[k],
                ) by {
                    if k < i - start {
                        assert(digits.take(i - start)[k] == digits.take(i - start + 1)[k]);
                    }
                }
            }
        }
        proof {
            assert(digits.take(i - start + 1).last() == text@[i as int]);
            assert(value == digits_value(digits.take(i - start + 1)));
        }
        if value > limit {
            proof {
                if start == 0 {
                    assert(digits =~= text@);
                }
                if all_digits(digits) {
                    lemma_digits_value_grows(digits, i - start + 1);
                }
            }
            return None;
        }
        i += 1;
    }
    proof {
        assert(digits.take(i - start) =~= digits);
        if start == 0 {
            assert(digits =~= text@);
        }
    }
    if negative {
        Some(-value)
    } else {
        Some(value)
    }
}

/// Reads a 16-bit number: see `spec_parse_i16`.
pub fn parse_i16(text: &str) -> (number: Option<i16>)
    ensures
        number == spec_parse_i16(text@),
{
    match parse_within(text, -0x8000, 0x7fff) {
        Some(value) => Some(value as i16),
        None => None,
    }
}

/// Reads a 32-bit number: see `spec_parse_i32`.
pub fn parse_i32(text: &str) -> (number: Option<i32>)
    ensures
        number == spec_parse_i32(text@),
{
    match parse_within(text, -0x8000_0000, 0x7fff_ffff) {
        Some(value) => Some(value as i32),
        None => None,
    }
}

/// Whether two texts hold the same characters.
pub fn same_text(a: &str, b: &str) -> (same: bool)
    ensures
        same == (a@ == b@),
{
    a.to_owned() == b.to_owned()
}

} // verus!
