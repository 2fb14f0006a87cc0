//! Strings as sequences of characters: taking them apart and putting
//! them together.

use vstd::prelude::*;

verus! {

/// The characters of a string.
pub fn chars_of(text: &str) -> (chars: Vec<char>)
    ensures
        chars@ == text@,
{
    let mut chars: Vec<char> = Vec::new();
    for ch in iter: text.chars()
        invariant
            iter.seq() == text@,
            chars@ == iter.seq().take(iter.index() as int),
    {
        chars.push(ch);
        assert(chars@ =~= iter.seq().take(iter.index() + 1));
    }
    assert(chars@ =~= text@);
    chars
}

/// The string made of the characters from position `from` up to, but
/// without, position `to`.
pub fn text_between(chars: &Vec<char>, from: usize, to: usize) -> (text: String)
    requires
        from <= to <= chars.len(),
    ensures
        text@ == chars@.subrange(from as int, to as int),
{
    let mut text = String::new();
    let mut i: usize = from;
    while i < to
        invariant
            from <= i <= to,
            to <= chars.len(),
            text@ == chars@.subrange(from as int, i as int),
        decreases to - i,
    {
        text.push(chars[i]);
        i = i + 1;
        assert(text@ =~= chars@.subrange(from as int, i as int));
    }
    text
}

/// The first position at or after `from` that holds no double quote.
pub open spec fn skip_quotes(text: Seq<char>, from: int) -> int
    decreases text.len() - from,
{
    if 0 <= from < text.len() && text[from] == '"' {
        skip_quotes(text, from + 1)
    } else {
        from
    }
}

/// The end of the text before `to` once the double quotes at its end
/// are dropped, but no character before `from`.
pub open spec fn drop_quotes(text: Seq<char>, from: int, to: int) -> int
    decreases to - from,
{
    if 0 <= from < to <= text.len() && text[to - 1] == '"' {
        drop_quotes(text, from, to - 1)
    } else {
        to
    }
}

/// A text without the double quotes at its beginning and at its end.
pub open spec fn trim_quotes(text: Seq<char>) -> Seq<char> {
    let start = skip_quotes(text, 0);
    text.subrange(start, drop_quotes(text, start, text.len() as int))
}

/// Takes the double quotes off the beginning and the end of a text.
pub fn without_quotes(text: &str) -> (trimmed: String)
    ensures
        trimmed@ == trim_quotes(text@),
{
    let chars = chars_of(text);
    let mut start: usize = 0;
    while start < chars.len() && chars[start] == '"'
        invariant
            start <= chars.len(),
            skip_quotes(chars@, 0) == skip_quotes(chars@, start as int),
        decreases chars.len() - start,
    {
        start = start + 1;
    }
    let mut end: usize = chars.len();
    while start < end && chars[end - 1] == '"'
        invariant
            start <= end <= chars.len(),
            drop_quotes(chars@, start as int, chars.len() as int) == drop_quotes(
                chars@,
                start as int,
                end as int,
            ),
        decreases end - start,
    {
        end = end - 1;
    }
    text_between(&chars, start, end)
}

/// Whether a character is a decimal digit.
pub open spec fn is_digit(ch: char) -> bool {
    '0' <= ch <= '9'
}

/// Whether all characters of a text are decimal digits.
pub open spec fn all_digits(text: Seq<char>) -> bool {
    forall|i: int| 0 <= i < text.len() ==> is_digit(#[trigger] text[i])
}

/// The number that a text of decimal digits denotes.
pub open spec fn digits_value(digits: Seq<char>) -> int
    decreases digits.len(),
{
    if digits.len() == 0 {
        0
    } else {
        digits_value(digits.drop_last()) * 10 + (digits.last() as int - 48)
    }
}

/// The 64-bit signed number that a text denotes: an optional sign, `+`
/// or `-`, followed by at least one decimal digit and nothing else,
/// where the number fits in 64 bits.
pub open spec fn parse_number(text: Seq<char>) -> Option<i64> {
    let signed = text.len() > 0 && (text[0] == '-' || text[0] == '+');
    let negative = text.len() > 0 && text[0] == '-';
    let digits = if signed {
        text.skip(1)
    } else {
        text
    };
    let value = if negative {
        -digits_value(digits)
    } else {
        digits_value(digits)
    };
    if digits.len() == 0 || !all_digits(digits) {
        None
    } else if i64::MIN <= value <= i64::MAX {
        Some(value as i64)
    } else {
        None
    }
}

/// The number that the first digits of a text of digits denote is no
/// larger than the number that the whole text denotes, and neither is
/// negative.
proof fn lemma_digits_value_grows(digits: Seq<char>, count: int)
    requires
        all_digits(digits),
        0 <= count <= digits.len(),
    ensures
        0 <= digits_value(digits.take(count)) <= digits_value(digits),
    decreases digits.len(),
{
    if count == digits.len() {
        assert(digits.take(count) =~= digits);
        if digits.len() > 0 {
            assert(is_digit(digits[digits.len() - 1]));
            lemma_digits_value_grows(digits.drop_last(), count - 1);
        }
    } else {
        assert(is_digit(digits[digits.len() - 1]));
        assert(digits.drop_last().take(count) =~= digits.take(count));
        lemma_digits_value_grows(digits.drop_last(), count);
    }
}

/// Reads a 64-bit signed number.
#[verifier::loop_isolation(false)]
pub fn read_number(text: &str) -> (number: Option<i64>)
    ensures
        number == parse_number(text@),
{
    let chars = chars_of(text);
    let length = chars.len();
    let mut negative = false;
    let mut start: usize = 0;
    if length > 0 && (chars[0] == '-' || chars[0] == '+') {
        negative = chars[0] == '-';
        start = 1;
    }
    let ghost digits = chars@.skip(start as int);
    assert(start == 0 ==> digits =~= chars@);
    if start == length {
        return None;
    }
    let mut magnitude: u64 = 0;
    let mut i: usize = start;
    while i < length
        invariant
            start <= i <= length,
            length == chars.len(),
            digits == chars@.skip(start as int),
            all_digits(digits.take(i - start)),
            magnitude == digits_value(digits.take(i - start)),
            magnitude <= 0x8000_0000_0000_0000,
        decreases length - i,
    {
        let ch = chars[i];
        if !(ch >= '0' && ch <= '9') {
            assert(!is_digit(digits[i - start]));
            return None;
        }
        let digit: u64 = (ch as u32 - 48) as u64;
        let grown: u128 = magnitude as u128 * 10 + digit as u128;
        proof {
            let longer = digits.take(i - start + 1);
            assert(longer.drop_last() =~= digits.take(i - start));
            assert(longer.last() == ch);
            assert(digits_value(longer) == grown);
            assert(all_digits(longer)) by {
                assert forall|k: int| 0 <= k < longer.len() implies is_digit(
                    #[trigger] longer[k],
                ) by {
                    if k < i - start {
                        assert(digits.take(i - start)[k] == longer[k]);
                    }
                }
            }
        }
        if grown > 0x8000_0000_0000_0000 {
            proof {
                if all_digits(digits) {
                    lemma_digits_value_grows(digits, i - start + 1);
                }
            }
            return None;
        }
        magnitude = grown as u64;
        i = i + 1;
    }
    assert(digits.take(i - start) =~= digits);
    if negative {
        if magnitude == 0x8000_0000_0000_0000 {
            Some(i64::MIN)
        } else {
            Some(-(magnitude as i64))
        }
    } else if magnitude == 0x8000_0000_0000_0000 {
        None
    } else {
        Some(magnitude as i64)
    }
}

/// The texts joined, with `::` between each two.
pub open spec fn joined_path(segments: Seq<Seq<char>>) -> Seq<char>
    decreases segments.len(),
{
    if segments.len() == 0 {
        Seq::empty()
    } else if segments.len() == 1 {
        segments[0]
    } else {
        joined_path(segments.drop_last()) + "::"@ + segments.last()
    }
}

} // verus!
