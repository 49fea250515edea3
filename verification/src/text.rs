//! Small operations on text which the settings files, the lists and the
//! request parameters share.

use vstd::prelude::*;
use vstd::string::StringSliceAdditionalSpecFns;

verus! {

/// The texts of a sequence of strings.
pub open spec fn texts(strings: Seq<String>) -> Seq<Seq<char>> {
    Seq::new(strings.len(), |i: int| strings[i]@)
}

/// The index of the first `mark` in `text`, or the length of `text` if it holds none.
pub open spec fn position(text: Seq<char>, mark: char) -> int
    decreases text.len(),
{
    if text.len() == 0 || text[0] == mark {
        0
    } else {
        1 + position(text.skip(1), mark)
    }
}

/// The fields of `text` between the occurrences of `mark`. There is always
/// at least one field; a field may be empty.
pub open spec fn fields(text: Seq<char>, mark: char) -> Seq<Seq<char>>
    decreases text.len(),
{
    let first = position(text, mark);
    if 0 <= first < text.len() {
        seq![text.take(first)] + fields(text.skip(first + 1), mark)
    } else {
        seq![text]
    }
}

/// A line without the carriage return at its end, if it has one there.
pub open spec fn without_return(line: Seq<char>) -> Seq<char> {
    if line.len() > 0 && line.last() == '\r' {
        line.drop_last()
    } else {
        line
    }
}

/// The lines of `text`. A line ends with a line feed, or with a carriage
/// return and a line feed, which are no part of it. What stands behind the
/// last line feed is a line too, unless nothing stands there.
pub open spec fn lines_of(text: Seq<char>) -> Seq<Seq<char>> {
    let all = fields(text, '\n');
    let ended = all.drop_last().map_values(|line: Seq<char>| without_return(line));
    if all.last().len() == 0 {
        ended
    } else {
        ended.push(all.last())
    }
}

/// `position` is the one index before which no `mark` stands and at which
/// one does, or the text ends.
pub proof fn lemma_position(text: Seq<char>, mark: char, at: int)
    requires
        0 <= at <= text.len(),
        forall|j: int| 0 <= j < at ==> text[j] != mark,
        at == text.len() || text[at] == mark,
    ensures
        position(text, mark) == at,
    decreases at,
{
    if at > 0 {
        let rest = text.skip(1);
        assert forall|j: int| 0 <= j < at - 1 implies rest[j] != mark by {
            assert(rest[j] == text[j + 1]);
        }
        lemma_position(rest, mark, at - 1);
    }
}

/// Whether two texts are the same.
pub fn text_equal(a: &str, b: &str) -> (same: bool)
    ensures
        same == (a@ == b@),
{
    broadcast use vstd::utf8::encode_utf8_decode_utf8;

    let left = a.as_bytes();
    let right = b.as_bytes();
    assert(left@ == vstd::utf8::encode_utf8(a@));
    assert(right@ == vstd::utf8::encode_utf8(b@));
    if left.len() != right.len() {
        return false;
    }
    let mut i: usize = 0;
    while i < left.len()
        invariant
            i <= left.len(),
            left.len() == right.len(),
            left@ == vstd::utf8::encode_utf8(a@),
            right@ == vstd::utf8::encode_utf8(b@),
            forall|j: int| 0 <= j < i ==> left@[j] == right@[j],
        decreases left.len() - i,
    {
        if left[i] != right[i] {
            assert(a@ != b@) by {
                if a@ == b@ {
                    assert(left@[i as int] == right@[i as int]);
                }
            }
            return false;
        }
        i = i + 1;
    }
    assert(left@ =~= right@);
    assert(vstd::utf8::decode_utf8(vstd::utf8::encode_utf8(a@)) == a@);
    assert(vstd::utf8::decode_utf8(vstd::utf8::encode_utf8(b@)) == b@);
    true
}

/// Split `text` at every `mark`.
pub fn split_text(text: &str, mark: char) -> (parts: Vec<String>)
    ensures
        texts(parts@) == fields(text@, mark),
{
    let len = text.unicode_len();
    let mut parts: Vec<String> = Vec::new();
    let mut start: usize = 0;
    let mut i: usize = 0;
    proof {
        assert(text@.skip(0) == text@);
        assert(texts(parts@) + fields(text@, mark) == fields(text@, mark));
    }
    while i < len
        invariant
            len == text@.len(),
            start <= i <= len,
            forall|j: int| start <= j < i ==> text@[j] != mark,
            fields(text@, mark) == texts(parts@) + fields(text@.skip(start as int), mark),
        decreases len - i,
    {
        if text.get_char(i) == mark {
            let part = text.substring_char(start, i).to_owned();
            proof {
                let rest = text@.skip(start as int);
                assert forall|j: int| 0 <= j < i - start implies rest[j] != mark by {
                    assert(rest[j] == text@[start + j]);
                }
                lemma_position(rest, mark, i - start);
                assert(rest.take(i - start) == text@.subrange(start as int, i as int));
                assert(rest.skip(i - start + 1) == text@.skip(i + 1));
                assert(texts(parts@.push(part)) == texts(parts@) + seq![part@]);
            }
            parts.push(part);
            start = i + 1;
        }
        i = i + 1;
    }
    let part = text.substring_char(start, len).to_owned();
    proof {
        let rest = text@.skip(start as int);
        assert forall|j: int| 0 <= j < len - start implies rest[j] != mark by {
            assert(rest[j] == text@[start + j]);
        }
        lemma_position(rest, mark, len - start);
        assert(rest == text@.subrange(start as int, len as int));
        assert(texts(parts@.push(part)) == texts(parts@) + seq![part@]);
    }
    parts.push(part);
    parts
}

/// The lines of `text`.
pub fn split_lines(text: &str) -> (lines: Vec<String>)
    ensures
        texts(lines@) == lines_of(text@),
{
    let parts = split_text(text, '\n');
    proof {
        lemma_fields_not_empty(text@, '\n');
    }
    let ghost all = texts(parts@);
    let ghost strip = |line: Seq<char>| without_return(line);
    let count = parts.len();
    let mut lines: Vec<String> = Vec::new();
    let mut i: usize = 0;
    assert(all.len() == count);
    assert(texts(lines@) == all.take(0).map_values(strip));
    while i < count - 1
        invariant
            count == parts.len(),
            count >= 1,
            i <= count - 1,
            all == texts(parts@),
            strip == |line: Seq<char>| without_return(line),
            texts(lines@) == all.take(i as int).map_values(strip),
        decreases count - i,
    {
        let part = parts[i].as_str();
        let len = part.unicode_len();
        let line = if len > 0 && part.get_char(len - 1) == '\r' {
            part.substring_char(0, len - 1).to_owned()
        } else {
            part.to_owned()
        };
        proof {
            assert(all[i as int] == part@);
            assert(line@ == without_return(part@));
            assert(all.take(i + 1) == all.take(i as int).push(all[i as int]));
            assert(texts(lines@.push(line)) == texts(lines@).push(line@));
            assert(all.take(i + 1).map_values(strip) == all.take(i as int).map_values(strip).push(
                strip(all[i as int]),
            ));
        }
        lines.push(line);
        i = i + 1;
    }
    proof {
        assert(all.take(count - 1) == all.drop_last());
        assert(all.last() == parts@[count - 1]@);
    }
    if parts[count - 1].as_str().unicode_len() > 0 {
        let last = parts[count - 1].clone();
        assert(texts(lines@.push(last)) == texts(lines@).push(last@));
        lines.push(last);
    }
    lines
}

/// A text has at least one field.
pub proof fn lemma_fields_not_empty(text: Seq<char>, mark: char)
    ensures
        fields(text, mark).len() >= 1,
    decreases text.len(),
{
    let first = position(text, mark);
    if 0 <= first < text.len() {
        lemma_fields_not_empty(text.skip(first + 1), mark);
    }
}

/// The value of a decimal digit, if the character is one.
pub open spec fn digit_value(c: char) -> Option<int> {
    if '0' <= c <= '9' {
        Some(c as int - '0' as int)
    } else {
        None
    }
}

/// The number that a text of decimal digits spells.
pub open spec fn digits_value(text: Seq<char>) -> int
    decreases text.len(),
{
    if text.len() == 0 {
        0
    } else {
        digits_value(text.drop_last()) * 10 + digit_value(text.last()).unwrap_or(0)
    }
}

/// Whether the text holds decimal digits only.
pub open spec fn all_digits(text: Seq<char>) -> bool {
    forall|i: int| 0 <= i < text.len() ==> digit_value(#[trigger] text[i]) is Some
}

/// The digits of a number that may have a plus sign before it.
pub open spec fn after_plus(text: Seq<char>) -> Seq<char> {
    if text.len() > 0 && text[0] == '+' {
        text.skip(1)
    } else {
        text
    }
}

/// The number that a text of digits spells, where it has at least one digit
/// and nothing but digits.
pub open spec fn number_of_digits(digits: Seq<char>) -> Option<int> {
    if digits.len() > 0 && all_digits(digits) {
        Some(digits_value(digits))
    } else {
        None
    }
}

/// The number from zero on that a text spells: decimal digits, at least
/// one, which one plus sign may precede. Zeros may lead; a minus sign, a
/// blank or a second sign may not stand anywhere.
pub open spec fn natural_of_text(text: Seq<char>) -> Option<int> {
    number_of_digits(after_plus(text))
}

/// The whole number that a text spells: a number from zero on, or a minus
/// sign and at least one decimal digit.
pub open spec fn whole_of_text(text: Seq<char>) -> Option<int> {
    if text.len() > 0 && text[0] == '-' {
        match number_of_digits(text.skip(1)) {
            Some(n) => Some(-n),
            None => None,
        }
    } else {
        natural_of_text(text)
    }
}

/// The byte that a text spells: a number from zero on, below 256.
pub open spec fn byte_of_text(text: Seq<char>) -> Option<u8> {
    match natural_of_text(text) {
        Some(n) => if n <= u8::MAX {
            Some(n as u8)
        } else {
            None
        },
        None => None,
    }
}

/// The number from zero on that a text spells, where a `u64` holds it.
pub open spec fn unsigned_of_text(text: Seq<char>) -> Option<u64> {
    match natural_of_text(text) {
        Some(n) => if n <= u64::MAX {
            Some(n as u64)
        } else {
            None
        },
        None => None,
    }
}

/// The whole number that a text spells, where an `i64` holds it.
pub open spec fn integer_of_text(text: Seq<char>) -> Option<i64> {
    match whole_of_text(text) {
        Some(n) => if i64::MIN <= n <= i64::MAX {
            Some(n as i64)
        } else {
            None
        },
        None => None,
    }
}

/// The number only grows with further digits.
pub proof fn lemma_digits_grow(text: Seq<char>, shorter: int)
    requires
        0 <= shorter <= text.len(),
    ensures
        0 <= digits_value(text.take(shorter)) <= digits_value(text),
    decreases text.len() - shorter,
{
    if shorter < text.len() {
        lemma_digits_grow(text, shorter + 1);
        assert(text.take(shorter + 1).drop_last() == text.take(shorter));
        lemma_digits_nonnegative(text.take(shorter));
    } else {
        assert(text.take(shorter) == text);
        lemma_digits_nonnegative(text);
    }
}

/// A number spelled in digits is not negative.
pub proof fn lemma_digits_nonnegative(text: Seq<char>)
    ensures
        digits_value(text) >= 0,
    decreases text.len(),
{
    if text.len() > 0 {
        lemma_digits_nonnegative(text.drop_last());
    }
}

/// Read the digits that a text holds from a place on, up to its end.
fn parse_digits(text: &str, start: usize) -> (value: Option<u64>)
    requires
        start <= text@.len(),
    ensures
        match number_of_digits(text@.skip(start as int)) {
            Some(n) => if n <= u64::MAX {
                value == Some(n as u64)
            } else {
                value is None
            },
            None => value is None,
        },
{
    let len = text.unicode_len();
    let ghost digits = text@.skip(start as int);
    if start == len {
        return None;
    }
    let mut value: u64 = 0;
    let mut i: usize = start;
    assert(digits.take(0) == Seq::<char>::empty());
    while i < len
        invariant
            len == text@.len(),
            start <= i <= len,
            digits == text@.skip(start as int),
            all_digits(digits.take(i - start)),
            value == digits_value(digits.take(i - start)),
        decreases len - i,
    {
        let c = text.get_char(i);
        proof {
            assert(digits[i - start] == c);
            assert(digits.take(i - start + 1).drop_last() == digits.take(i - start));
            assert(digits.take(i - start + 1).last() == c);
        }
        if c < '0' || c > '9' {
            assert(digit_value(digits[i - start]) is None);
            assert(!all_digits(digits));
            return None;
        }
        let digit = (c as u32 - '0' as u32) as u64;
        assert(digit_value(c) == Some(digit as int));
        if value > (u64::MAX - digit) / 10 {
            proof {
                lemma_digits_grow(digits, i - start + 1);
                assert(digits_value(digits.take(i - start + 1)) == value * 10 + digit);
                assert(digits_value(digits) > u64::MAX);
            }
            return None;
        }
        value = value * 10 + digit;
        proof {
            assert forall|j: int| 0 <= j < i - start + 1 implies digit_value(
                #[trigger] digits.take(i - start + 1)[j],
            ) is Some by {
                if j < i - start {
                    assert(digits.take(i - start)[j] == digits.take(i - start + 1)[j]);
                }
            }
        }
        i = i + 1;
    }
    assert(digits.take(len - start) == digits);
    Some(value)
}

/// Read a number from zero on, written in decimal digits, which a plus sign
/// may precede.
pub fn parse_unsigned(text: &str) -> (value: Option<u64>)
    ensures
        value == unsigned_of_text(text@),
{
    let len = text.unicode_len();
    let start: usize = if len > 0 && text.get_char(0) == '+' {
        1
    } else {
        0
    };
    assert(after_plus(text@) == text@.skip(start as int));
    parse_digits(text, start)
}

/// Read a byte written in decimal digits, which a plus sign may precede.
pub fn parse_byte(text: &str) -> (value: Option<u8>)
    ensures
        value == byte_of_text(text@),
{
    proof {
        lemma_digits_nonnegative(after_plus(text@));
    }
    match parse_unsigned(text) {
        Some(n) => {
            if n <= 255 {
                Some(n as u8)
            } else {
                None
            }
        },
        None => None,
    }
}

/// Read a whole number written in decimal digits, which a plus or a minus
/// sign may precede.
pub fn parse_integer(text: &str) -> (value: Option<i64>)
    ensures
        value == integer_of_text(text@),
{
    let len = text.unicode_len();
    proof {
        lemma_digits_nonnegative(after_plus(text@));
        lemma_digits_nonnegative(text@.skip(1));
    }
    if len > 0 && text.get_char(0) == '-' {
        match parse_digits(text, 1) {
            Some(n) => {
                if n == 0x8000_0000_0000_0000 {
                    Some(i64::MIN)
                } else if n < 0x8000_0000_0000_0000 {
                    Some(-(n as i64))
                } else {
                    None
                }
            },
            None => None,
        }
    } else {
        match parse_unsigned(text) {
            Some(n) => {
                if n <= 0x7fff_ffff_ffff_ffff {
                    Some(n as i64)
                } else {
                    None
                }
            },
            None => None,
        }
    }
}

} // verus!
