//! The cursor of the history: where the next page begins.
//!
//! To its holder a cursor is a text without meaning. It is the Base64 of a
//! JSON object with the two numbers of the cursor, `id` and `db_id`, each of
//! which may be `null`.
//!
//! The library writes that JSON in one spelling, and reads that spelling
//! back. JSON has others for the same object: with blanks, with the keys in
//! another order, with a key left out. To read those takes a JSON reader,
//! which who runs the API brings: the library hands it the bytes, and takes
//! the two numbers from it.

use crate::util::{is_error, Error, ErrorKind};
use vstd::prelude::*;

verus! {

/// The cursor object used for history pagination
#[derive(Clone, Copy, Debug, PartialEq, Eq, Structural)]
pub struct HistoryCursor {
    /// The place in memory of the query which the cursor names.
    pub id: Option<i32>,
    /// The row in the archive of the query which the cursor names.
    pub db_id: Option<i64>,
}

/// What the text of a request holds in the place of a cursor.
#[derive(Debug, PartialEq, Eq)]
pub enum CursorText {
    /// The text that the library writes for this cursor.
    Cursor(HistoryCursor),
    /// The Base64 of these bytes, which are not the JSON that the library
    /// writes for any cursor. They may still be JSON that names a cursor in
    /// another spelling: a JSON reader has to tell.
    Other(Vec<u8>),
    /// No Base64: a bad request.
    Malformed,
}

/// What a text holds in the place of a cursor, by its Base64 reading.
pub open spec fn cursor_text_holds(text: Seq<char>, held: CursorText) -> bool {
    match base64_decoding(text) {
        Some(bytes) => match HistoryCursor::of_own_json(bytes) {
            Some(cursor) => held == CursorText::Cursor(cursor),
            None => held matches CursorText::Other(other) && other@ == bytes,
        },
        None => held is Malformed,
    }
}

/// The Base64 text of the bytes, as `base64` writes it.
pub uninterp spec fn base64_encoding(bytes: Seq<u8>) -> Seq<char>;

/// The bytes of a Base64 text, as `base64` reads it, if it is one.
pub uninterp spec fn base64_decoding(text: Seq<char>) -> Option<Seq<u8>>;

/// The bytes of `{"id":`.
pub open spec fn json_head() -> Seq<u8> {
    seq![0x7bu8, 0x22u8, 0x69u8, 0x64u8, 0x22u8, 0x3au8]
}

/// The bytes of `,"db_id":`.
pub open spec fn json_middle() -> Seq<u8> {
    seq![0x2cu8, 0x22u8, 0x64u8, 0x62u8, 0x5fu8, 0x69u8, 0x64u8, 0x22u8, 0x3au8]
}

/// The bytes of `null`.
pub open spec fn json_null() -> Seq<u8> {
    seq![0x6eu8, 0x75u8, 0x6cu8, 0x6cu8]
}

/// The decimal digits of a number, the highest first.
pub open spec fn digits(n: nat) -> Seq<u8>
    decreases n,
{
    if n < 10 {
        seq![(0x30 + n) as u8]
    } else {
        digits(n / 10).push((0x30 + n % 10) as u8)
    }
}

/// A number in decimal digits, with a minus sign before it where it is below zero.
pub open spec fn decimal(n: int) -> Seq<u8> {
    if n < 0 {
        seq![0x2du8] + digits((-n) as nat)
    } else {
        digits(n as nat)
    }
}

/// A number in decimal digits, or `null` where there is none.
pub open spec fn optional(n: Option<int>) -> Seq<u8> {
    match n {
        Some(n) => decimal(n),
        None => json_null(),
    }
}

/// The number that decimal digits spell.
pub open spec fn value_of(text: Seq<u8>) -> int
    decreases text.len(),
{
    if text.len() == 0 {
        0
    } else {
        value_of(text.drop_last()) * 10 + (text.last() - 0x30)
    }
}

/// Whether the text is one or more decimal digits.
pub open spec fn is_digits(text: Seq<u8>) -> bool {
    text.len() > 0 && forall|i: int| 0 <= i < text.len() ==> 0x30 <= #[trigger] text[i] <= 0x39
}

/// The number that a text spells: digits, or a minus sign and digits.
pub open spec fn number_of(text: Seq<u8>) -> Option<int> {
    if is_digits(text) {
        Some(value_of(text))
    } else if text.len() > 0 && text[0] == 0x2d && is_digits(text.skip(1)) {
        Some(-value_of(text.skip(1)))
    } else {
        None
    }
}

/// What a text gives a field: nothing for `null`, a number for a number.
/// Other texts give no field.
pub open spec fn field_of(text: Seq<u8>) -> Option<Option<int>> {
    if text == json_null() {
        Some(None)
    } else {
        match number_of(text) {
            Some(n) => Some(Some(n)),
            None => None,
        }
    }
}

/// The index of the first comma, or the length of the text where it has none.
pub open spec fn first_comma(text: Seq<u8>) -> int
    decreases text.len(),
{
    if text.len() == 0 || text[0] == 0x2c {
        0
    } else {
        1 + first_comma(text.skip(1))
    }
}

impl HistoryCursor {
    /// The JSON of the cursor.
    pub open spec fn json(self) -> Seq<u8> {
        json_head() + optional(
            match self.id {
                Some(id) => Some(id as int),
                None => None,
            },
        ) + json_middle() + optional(
            match self.db_id {
                Some(id) => Some(id as int),
                None => None,
            },
        ) + seq![0x7du8]
    }

    /// The text of the cursor: the Base64 of its JSON.
    pub open spec fn encoded(self) -> Seq<char> {
        base64_encoding(self.json())
    }

    /// The cursor that a JSON of the shape of a cursor's holds: after
    /// `{"id":` a field up to the first comma, then `"db_id":` and a field up
    /// to the closing brace, which is the last byte.
    pub open spec fn read(bytes: Seq<u8>) -> Option<HistoryCursor> {
        if bytes.len() >= 7 && bytes.take(6) == json_head() && bytes.last() == 0x7d {
            let body = bytes.subrange(6, bytes.len() - 1);
            let comma = first_comma(body);
            if comma + 9 <= body.len() && body.subrange(comma, comma + 9) == json_middle() {
                match (field_of(body.take(comma)), field_of(body.skip(comma + 9))) {
                    (Some(id), Some(db_id)) => {
                        let id_fits = match id {
                            Some(n) => i32::MIN <= n <= i32::MAX,
                            None => true,
                        };
                        let db_id_fits = match db_id {
                            Some(n) => i64::MIN <= n <= i64::MAX,
                            None => true,
                        };
                        if id_fits && db_id_fits {
                            Some(
                                HistoryCursor {
                                    id: match id {
                                        Some(n) => Some(n as i32),
                                        None => None,
                                    },
                                    db_id: match db_id {
                                        Some(n) => Some(n as i64),
                                        None => None,
                                    },
                                },
                            )
                        } else {
                            None
                        }
                    },
                    _ => None,
                }
            } else {
                None
            }
        } else {
            None
        }
    }

    /// The cursor whose JSON, in the spelling of `json`, the bytes are, if
    /// they are one's. Bytes that spell a cursor otherwise have none here.
    pub open spec fn of_own_json(bytes: Seq<u8>) -> Option<HistoryCursor> {
        match HistoryCursor::read(bytes) {
            Some(cursor) => if cursor.json() == bytes {
                Some(cursor)
            } else {
                None
            },
            None => None,
        }
    }
}

/// The digits of a number are digits.
pub proof fn lemma_digits_are_digits(n: nat)
    ensures
        is_digits(digits(n)),
    decreases n,
{
    if n >= 10 {
        lemma_digits_are_digits(n / 10);
        let front = digits(n / 10);
        let all = digits(n);
        assert forall|i: int| 0 <= i < all.len() implies 0x30 <= #[trigger] all[i] <= 0x39 by {
            if i < front.len() {
                assert(all[i] == front[i]);
            }
        }
    }
}

/// The digits of a number spell the number.
pub proof fn lemma_digits_spell(n: nat)
    ensures
        value_of(digits(n)) == n,
    decreases n,
{
    if n >= 10 {
        lemma_digits_spell(n / 10);
        assert(digits(n).drop_last() == digits(n / 10));
        assert(digits(n).last() == (0x30 + n % 10) as u8);
        assert(n == (n / 10) * 10 + n % 10);
    } else {
        assert(digits(n).drop_last() == Seq::<u8>::empty());
        assert(digits(n).last() == (0x30 + n) as u8);
        assert(value_of(Seq::<u8>::empty()) == 0);
    }
}

/// A field's text gives the field back.
pub proof fn lemma_field_round_trip(n: Option<int>)
    ensures
        field_of(optional(n)) == Some(n),
{
    match n {
        Some(n) => {
            if n < 0 {
                let text = decimal(n);
                lemma_digits_are_digits((-n) as nat);
                lemma_digits_spell((-n) as nat);
                assert(text.skip(1) == digits((-n) as nat));
                assert(text[0] == 0x2d);
                assert(!is_digits(text));
                assert(text != json_null());
            } else {
                lemma_digits_are_digits(n as nat);
                lemma_digits_spell(n as nat);
                let text = decimal(n);
                assert(0x30 <= text[0] <= 0x39);
                assert(json_null()[0] == 0x6e);
            }
        },
        None => {},
    }
}

/// The text of a field holds no comma: the first comma of what begins with
/// such a text and goes on with a comma stands right behind the text.
pub proof fn lemma_comma_after_field(n: Option<int>, rest: Seq<u8>)
    requires
        rest.len() > 0,
        rest[0] == 0x2c,
    ensures
        first_comma(optional(n) + rest) == optional(n).len(),
{
    let text = optional(n);
    match n {
        Some(n) => {
            if n < 0 {
                lemma_digits_are_digits((-n) as nat);
                let d = digits((-n) as nat);
                assert forall|i: int| 0 <= i < text.len() implies text[i] != 0x2c by {
                    if i > 0 {
                        assert(text[i] == d[i - 1]);
                    }
                }
            } else {
                lemma_digits_are_digits(n as nat);
            }
        },
        None => {},
    }
    lemma_first_comma(text + rest, text.len() as int);
}

/// The first comma is the one index before which no comma stands and at
/// which one does, or the text ends.
pub proof fn lemma_first_comma(text: Seq<u8>, at: int)
    requires
        0 <= at <= text.len(),
        forall|j: int| 0 <= j < at ==> text[j] != 0x2c,
        at == text.len() || text[at] == 0x2c,
    ensures
        first_comma(text) == at,
    decreases at,
{
    if at > 0 {
        let rest = text.skip(1);
        assert forall|j: int| 0 <= j < at - 1 implies rest[j] != 0x2c by {
            assert(rest[j] == text[j + 1]);
        }
        lemma_first_comma(rest, at - 1);
    }
}

/// The JSON of a cursor gives the cursor back.
pub proof fn lemma_json_round_trip(cursor: HistoryCursor)
    ensures
        HistoryCursor::read(cursor.json()) == Some(cursor),
        HistoryCursor::of_own_json(cursor.json()) == Some(cursor),
{
    let id: Option<int> = match cursor.id {
        Some(id) => Some(id as int),
        None => None,
    };
    let db_id: Option<int> = match cursor.db_id {
        Some(id) => Some(id as int),
        None => None,
    };
    let bytes = cursor.json();
    let first = optional(id);
    let second = optional(db_id);
    let body = bytes.subrange(6, bytes.len() - 1);
    assert(bytes.take(6) == json_head());
    assert(body == first + json_middle() + second);
    assert(body == first + (json_middle() + second));
    lemma_comma_after_field(id, json_middle() + second);
    assert(body.subrange(first.len() as int, first.len() as int + 9) == json_middle());
    assert(body.take(first.len() as int) == first);
    assert(body.skip(first.len() as int + 9) == second);
    lemma_field_round_trip(id);
    lemma_field_round_trip(db_id);
}

/// Bytes are read as a cursor if and only if they are the JSON which the
/// library writes for it.
pub proof fn lemma_own_json_is_exact(bytes: Seq<u8>, cursor: HistoryCursor)
    ensures
        HistoryCursor::of_own_json(bytes) == Some(cursor) <==> bytes == cursor.json(),
{
    lemma_json_round_trip(cursor);
}

/// Two cursors with the same JSON are the same cursor.
pub proof fn lemma_json_tells_apart(a: HistoryCursor, b: HistoryCursor)
    requires
        a.json() == b.json(),
    ensures
        a == b,
{
    lemma_json_round_trip(a);
    lemma_json_round_trip(b);
}

/// Writes the bytes as Base64 with `base64::encode`, in the standard
/// alphabet and with padding. The text depends on the bytes alone; the
/// contract gives it its name. The call fails on no slice that can exist: its
/// length in Base64 does not overflow.
#[verifier::external_body]
fn encode_base64(bytes: &[u8]) -> (text: String)
    ensures
        text@ == base64_encoding(bytes@),
{
    base64::encode(bytes)
}

/// Reads a Base64 text with `base64::decode`, which gives the bytes or fails.
/// The outcome depends on the text alone; the contract gives it its name.
/// Of the name it states what `base64` is made for: to read what
/// `base64::encode` wrote gives the bytes that were written.
#[verifier::external_body]
fn decode_base64(text: &str) -> (r: Option<Vec<u8>>)
    ensures
        bytes_of(r) == base64_decoding(text@),
        forall|bytes: Seq<u8>|
            #[trigger] base64_encoding(bytes) == text@ ==> bytes_of(r) == Some(bytes),
{
    base64::decode(text).ok()
}

/// Decoded bytes, as a sequence.
pub open spec fn bytes_of(decoded: Option<Vec<u8>>) -> Option<Seq<u8>> {
    match decoded {
        Some(bytes) => Some(bytes@),
        None => None,
    }
}

/// Write the digits of a number behind the bytes.
fn push_digits(out: &mut Vec<u8>, n: u64)
    ensures
        final(out)@ == old(out)@ + digits(n as nat),
    decreases n,
{
    if n < 10 {
        out.push(0x30 + n as u8);
        assert(out@ == old(out)@ + digits(n as nat));
    } else {
        push_digits(out, n / 10);
        out.push(0x30 + (n % 10) as u8);
        assert(out@ == old(out)@ + digits(n as nat));
    }
}

/// Write a number, or `null`, behind the bytes.
fn push_optional(out: &mut Vec<u8>, n: Option<i64>)
    ensures
        final(out)@ == old(out)@ + optional(
            match n {
                Some(n) => Some(n as int),
                None => None,
            },
        ),
{
    match n {
        Some(n) => {
            if n < 0 {
                out.push(0x2d);
                let magnitude: u64 = if n == i64::MIN {
                    0x8000_0000_0000_0000
                } else {
                    (-n) as u64
                };
                push_digits(out, magnitude);
                assert(out@ == old(out)@ + decimal(n as int));
            } else {
                push_digits(out, n as u64);
            }
        },
        None => {
            out.push(0x6e);
            out.push(0x75);
            out.push(0x6c);
            out.push(0x6c);
            assert(out@ == old(out)@ + json_null());
        },
    }
}

/// Read decimal digits, up to a magnitude of 2^63.
fn read_digits(bytes: &[u8], from: usize, to: usize) -> (r: Option<u64>)
    requires
        from <= to <= bytes.len(),
    ensures
        match r {
            Some(n) => is_digits(bytes@.subrange(from as int, to as int)) && n == value_of(
                bytes@.subrange(from as int, to as int),
            ) && n <= 0x8000_0000_0000_0000,
            None => !is_digits(bytes@.subrange(from as int, to as int)) || value_of(
                bytes@.subrange(from as int, to as int),
            ) > 0x8000_0000_0000_0000,
        },
{
    let ghost text = bytes@.subrange(from as int, to as int);
    if from == to {
        return None;
    }
    let mut value: u64 = 0;
    let mut i: usize = from;
    assert(text.take(0) == Seq::<u8>::empty());
    while i < to
        invariant
            from <= i <= to <= bytes.len(),
            text == bytes@.subrange(from as int, to as int),
            forall|j: int| 0 <= j < i - from ==> 0x30 <= #[trigger] text[j] <= 0x39,
            value == value_of(text.take(i - from)),
            value <= 0x8000_0000_0000_0000,
        decreases to - i,
    {
        let byte = bytes[i];
        proof {
            assert(text[i - from] == byte);
            assert(text.take(i - from + 1).drop_last() == text.take(i - from));
            assert(text.take(i - from + 1).last() == byte);
        }
        if byte < 0x30 || byte > 0x39 {
            return None;
        }
        let digit = (byte - 0x30) as u64;
        if value > (0x8000_0000_0000_0000 - digit) / 10 {
            proof {
                if is_digits(text) {
                    lemma_value_grows(text, i - from + 1);
                }
            }
            return None;
        }
        value = value * 10 + digit;
        i = i + 1;
    }
    assert(text.take(to - from) == text);
    Some(value)
}

/// The number that digits spell only grows with further digits.
pub proof fn lemma_value_grows(text: Seq<u8>, shorter: int)
    requires
        0 <= shorter <= text.len(),
        forall|j: int| 0 <= j < text.len() ==> 0x30 <= #[trigger] text[j],
    ensures
        0 <= value_of(text.take(shorter)) <= value_of(text),
    decreases text.len() - shorter,
{
    if shorter < text.len() {
        lemma_value_grows(text, shorter + 1);
        assert(text.take(shorter + 1).drop_last() == text.take(shorter));
        lemma_value_not_negative(text.take(shorter));
    } else {
        assert(text.take(shorter) == text);
        lemma_value_not_negative(text);
    }
}

/// The number that digits spell is not below zero.
pub proof fn lemma_value_not_negative(text: Seq<u8>)
    requires
        forall|j: int| 0 <= j < text.len() ==> 0x30 <= #[trigger] text[j],
    ensures
        value_of(text) >= 0,
    decreases text.len(),
{
    if text.len() > 0 {
        lemma_value_not_negative(text.drop_last());
    }
}

/// A field as it was read: whether the text gives a field at all, and the
/// number of the field where it has one.
pub open spec fn field_read(text: Seq<u8>) -> Option<Option<i64>> {
    match field_of(text) {
        Some(Some(n)) => if i64::MIN <= n <= i64::MAX {
            Some(Some(n as i64))
        } else {
            None
        },
        Some(None) => Some(None),
        None => None,
    }
}

/// Read a field: `null`, or a number that an `i64` can hold.
fn read_field(bytes: &[u8], from: usize, to: usize) -> (r: Option<Option<i64>>)
    requires
        from <= to <= bytes.len(),
    ensures
        r == field_read(bytes@.subrange(from as int, to as int)),
{
    let ghost text = bytes@.subrange(from as int, to as int);
    if to - from == 4 && bytes[from] == 0x6e && bytes[from + 1] == 0x75 && bytes[from + 2] == 0x6c
        && bytes[from + 3] == 0x6c {
        assert(text == json_null());
        return Some(None);
    }
    assert(text != json_null()) by {
        if text == json_null() {
            assert(text[0] == bytes@[from as int]);
            assert(text[1] == bytes@[from + 1]);
            assert(text[2] == bytes@[from + 2]);
            assert(text[3] == bytes@[from + 3]);
        }
    }
    if from < to && bytes[from] == 0x2d {
        assert(text[0] == 0x2d);
        assert(!is_digits(text));
        assert(text.skip(1) == bytes@.subrange(from + 1, to as int));
        match read_digits(bytes, from + 1, to) {
            Some(magnitude) => {
                if magnitude == 0x8000_0000_0000_0000 {
                    Some(Some(i64::MIN))
                } else {
                    Some(Some(-(magnitude as i64)))
                }
            },
            None => None,
        }
    } else {
        if from < to {
            assert(text[0] == bytes@[from as int]);
        }
        match read_digits(bytes, from, to) {
            Some(value) => {
                if value > 0x7fff_ffff_ffff_ffff {
                    None
                } else {
                    Some(Some(value as i64))
                }
            },
            None => None,
        }
    }
}

/// Whether the bytes from `from` on begin with `part`.
fn begins_with(bytes: &[u8], from: usize, part: &[u8]) -> (r: bool)
    requires
        from <= bytes.len(),
    ensures
        r == (from + part@.len() <= bytes@.len() && bytes@.subrange(
            from as int,
            from + part@.len(),
        ) == part@),
{
    if part.len() > bytes.len() - from {
        return false;
    }
    let mut i: usize = 0;
    while i < part.len()
        invariant
            i <= part.len(),
            from + part.len() <= bytes.len(),
            forall|j: int| 0 <= j < i ==> bytes@[from + j] == part@[j],
        decreases part.len() - i,
    {
        if bytes[from + i] != part[i] {
            assert(bytes@.subrange(from as int, from + part@.len())[i as int] != part@[i as int]);
            return false;
        }
        i = i + 1;
    }
    assert(bytes@.subrange(from as int, from + part@.len()) == part@);
    true
}

impl HistoryCursor {
    /// Get the JSON representation of the cursor
    pub fn to_json(&self) -> (bytes: Vec<u8>)
        ensures
            bytes@ == self.json(),
    {
        let mut out: Vec<u8> = Vec::new();
        out.push(0x7b);
        out.push(0x22);
        out.push(0x69);
        out.push(0x64);
        out.push(0x22);
        out.push(0x3a);
        assert(out@ == json_head());
        push_optional(
            &mut out,
            match self.id {
                Some(id) => Some(id as i64),
                None => None,
            },
        );
        let ghost first = out@;
        out.push(0x2c);
        out.push(0x22);
        out.push(0x64);
        out.push(0x62);
        out.push(0x5f);
        out.push(0x69);
        out.push(0x64);
        out.push(0x22);
        out.push(0x3a);
        assert(out@ == first + json_middle());
        push_optional(&mut out, self.db_id);
        out.push(0x7d);
        out
    }

    /// Read a cursor from the JSON that `to_json` writes for it. Other
    /// bytes give none, whether or not they are JSON.
    pub fn from_own_json(bytes: &[u8]) -> (cursor: Option<HistoryCursor>)
        ensures
            cursor == HistoryCursor::of_own_json(bytes@),
    {
        let head: [u8; 6] = [0x7b, 0x22, 0x69, 0x64, 0x22, 0x3a];
        let middle: [u8; 9] = [0x2c, 0x22, 0x64, 0x62, 0x5f, 0x69, 0x64, 0x22, 0x3a];
        assert(head@ == json_head());
        assert(middle@ == json_middle());
        let len = bytes.len();
        if len < 7 {
            return None;
        }
        assert(bytes@.take(6) == bytes@.subrange(0, 6));
        if !begins_with(bytes, 0, head.as_slice()) || bytes[len - 1] != 0x7d {
            return None;
        }
        let ghost body = bytes@.subrange(6, len - 1);
        let mut comma: usize = 6;
        while comma < len - 1 && bytes[comma] != 0x2c
            invariant
                6 <= comma <= len - 1,
                len == bytes.len(),
                body == bytes@.subrange(6, len - 1),
                forall|j: int| 0 <= j < comma - 6 ==> body[j] != 0x2c,
            decreases len - comma,
        {
            assert(body[comma - 6] == bytes@[comma as int]);
            comma = comma + 1;
        }
        proof {
            if comma < len - 1 {
                assert(body[comma - 6] == bytes@[comma as int]);
            }
            lemma_first_comma(body, comma - 6);
        }
        if len - 1 - comma < 9 {
            return None;
        }
        assert(body.subrange(comma - 6, comma - 6 + 9) == bytes@.subrange(comma as int, comma + 9));
        if !begins_with(bytes, comma, middle.as_slice()) {
            return None;
        }
        proof {
            assert(body.subrange(comma - 6, comma - 6 + 9) == bytes@.subrange(
                comma as int,
                comma + 9,
            ));
            assert(body.take(comma - 6) == bytes@.subrange(6, comma as int));
            assert(body.skip(comma - 6 + 9) == bytes@.subrange(comma + 9, len - 1));
        }
        let id = match read_field(bytes, 6, comma) {
            Some(id) => id,
            None => { return None; },
        };
        let db_id = match read_field(bytes, comma + 9, len - 1) {
            Some(db_id) => db_id,
            None => { return None; },
        };
        let id = match id {
            Some(n) => {
                if n < -0x8000_0000 || n > 0x7fff_ffff {
                    return None;
                }
                Some(n as i32)
            },
            None => None,
        };
        let cursor = HistoryCursor { id, db_id };
        assert(HistoryCursor::read(bytes@) == Some(cursor));
        // Only the JSON of a cursor is taken for one
        let json = cursor.to_json();
        if json.len() == len && begins_with(bytes, 0, json.as_slice()) {
            assert(bytes@.subrange(0, len as int) == bytes@);
            Some(cursor)
        } else {
            assert(bytes@.subrange(0, len as int) == bytes@);
            None
        }
    }

    /// Get the Base64 representation of the cursor
    pub fn as_base64(&self) -> (r: Result<String, Error>)
        ensures
            r matches Ok(text) && text@ == self.encoded(),
    {
        let bytes = self.to_json();
        Ok(encode_base64(bytes.as_slice()))
    }

    /// Read the text which a request gives for a cursor. The text that
    /// `as_base64` gives for a cursor is read as that cursor. A text which is
    /// no Base64 is malformed. The Base64 of other bytes gives the bytes.
    pub fn from_text(text: &str) -> (held: CursorText)
        ensures
            cursor_text_holds(text@, held),
            forall|cursor: HistoryCursor|
                #[trigger] cursor.encoded() == text@ ==> held == CursorText::Cursor(cursor),
    {
        // Decode from Base64
        let decoded = decode_base64(text);
        proof {
            assert forall|cursor: HistoryCursor| #[trigger]
                cursor.encoded() == text@ implies base64_decoding(text@) == Some(cursor.json())
                && HistoryCursor::of_own_json(cursor.json()) == Some(cursor) by {
                assert(base64_encoding(cursor.json()) == text@);
                lemma_json_round_trip(cursor);
            }
        }
        let bytes = match decoded {
            Some(bytes) => bytes,
            None => { return CursorText::Malformed; },
        };
        // Read the JSON
        match HistoryCursor::from_own_json(bytes.as_slice()) {
            Some(cursor) => CursorText::Cursor(cursor),
            None => CursorText::Other(bytes),
        }
    }
}

} // verus!
