//! The daemon's socket protocol: a command line goes out, a sequence of
//! MessagePack values comes back, closed by one end-of-message byte.
//!
//! The connection here holds the bytes of an answer. Bringing them from the
//! socket is the caller's part; decoding them is done by `rmp`.

use crate::util::{Error, ErrorKind};
use vstd::prelude::*;
use std::collections::HashMap;
use vstd::slice::slice_subrange;

verus! {

/// The byte which ends every answer of the daemon.
pub const END_OF_MESSAGE: u8 = 0xc1;

/// The type of value that a read asked for.
#[derive(Clone, Copy, Debug, PartialEq, Eq, Structural)]
pub enum ValueTag {
    Bool,
    U8,
    I32,
    I64,
    F32,
    Str,
    MapLen,
}

/// Why the decoder gave no value.
#[derive(Clone, Copy, Debug, PartialEq, Eq, Structural)]
pub enum ReadFailure {
    /// No byte was left where a type tag had to stand.
    NoTag,
    /// The bytes ended inside the value.
    NoData,
    /// The type tag found, which is none that the read accepts.
    WrongTag(u8),
    /// The text is longer than the caller allows; its length in bytes.
    SmallBuffer(u32),
    /// The text is no UTF-8.
    BadText,
}

/// A failure to decode the daemon's answer.
#[derive(Clone, Copy, Debug, PartialEq, Eq, Structural)]
pub enum ProtocolError {
    /// A value of type `expected` had to come, but the answer was over.
    MissingValue { expected: ValueTag },
    /// A value of type `expected` began, but the answer ended inside it.
    TruncatedValue { expected: ValueTag },
    /// A value of type `expected` had to come, but the type tag `observed` stood there.
    TypeMismatch { expected: ValueTag, observed: u8 },
    /// A text of `needed` bytes came, more than the caller allowed.
    TextTooLong { needed: u32 },
    /// A text came which is no UTF-8.
    InvalidText,
    /// The end of the message had to come, but the answer was over.
    MissingEom,
    /// The end of the message had to come, but this byte stood there.
    UnexpectedByte(u8),
}

impl ProtocolError {
    /// The kind of error which a failure of the protocol is: the daemon's
    /// answer could not be read, or it did not end where it had to.
    pub open spec fn error_kind(self) -> ErrorKind {
        match self {
            ProtocolError::MissingEom => ErrorKind::FtlEomError,
            ProtocolError::UnexpectedByte(_) => ErrorKind::FtlEomError,
            _ => ErrorKind::FtlReadError,
        }
    }

    /// Whether the failure is that the answer was over too early: a value
    /// or the end of the message had to come where the bytes ended. More
    /// bytes of the same answer may mend such a failure, and no other.
    pub open spec fn is_short(self) -> bool {
        self is MissingValue || self is TruncatedValue || self is MissingEom
    }

    /// Check if the failure is that the answer was over too early.
    pub fn ended_early(&self) -> (r: bool)
        ensures
            r == self.is_short(),
    {
        match self {
            ProtocolError::MissingValue { .. } => true,
            ProtocolError::TruncatedValue { .. } => true,
            ProtocolError::MissingEom => true,
            _ => false,
        }
    }

    /// Get the error which stands for the failure.
    pub fn to_error(&self) -> (error: Error)
        ensures
            error == Error::spec_from(self.error_kind()),
    {
        match self {
            ProtocolError::MissingEom => Error::from(ErrorKind::FtlEomError),
            ProtocolError::UnexpectedByte(_) => Error::from(ErrorKind::FtlEomError),
            _ => Error::from(ErrorKind::FtlReadError),
        }
    }

    /// The error that a failed read of a value of type `expected` stands for.
    pub open spec fn of(expected: ValueTag, failure: ReadFailure) -> ProtocolError {
        match failure {
            ReadFailure::NoTag => ProtocolError::MissingValue { expected },
            ReadFailure::NoData => ProtocolError::TruncatedValue { expected },
            ReadFailure::WrongTag(observed) => ProtocolError::TypeMismatch { expected, observed },
            ReadFailure::SmallBuffer(needed) => ProtocolError::TextTooLong { needed },
            ReadFailure::BadText => ProtocolError::InvalidText,
        }
    }

    /// Attach the expected type to a decoder failure.
    pub fn from_failure(expected: ValueTag, failure: ReadFailure) -> (e: ProtocolError)
        ensures
            e == ProtocolError::of(expected, failure),
    {
        match failure {
            ReadFailure::NoTag => ProtocolError::MissingValue { expected },
            ReadFailure::NoData => ProtocolError::TruncatedValue { expected },
            ReadFailure::WrongTag(observed) => ProtocolError::TypeMismatch { expected, observed },
            ReadFailure::SmallBuffer(needed) => ProtocolError::TextTooLong { needed },
            ReadFailure::BadText => ProtocolError::InvalidText,
        }
    }
}

/// The number that the bytes spell, most significant byte first.
pub open spec fn be_uint(bytes: Seq<u8>) -> nat
    decreases bytes.len(),
{
    if bytes.len() == 0 {
        0
    } else {
        be_uint(bytes.drop_last()) * 256 + bytes.last() as nat
    }
}

/// The two's complement number that the bytes spell, most significant byte first.
pub open spec fn be_int(bytes: Seq<u8>) -> int
    decreases bytes.len(),
{
    if bytes.len() == 0 {
        0
    } else if bytes.len() == 1 {
        if bytes[0] >= 0x80 {
            bytes[0] - 0x100
        } else {
            bytes[0] as int
        }
    } else {
        be_int(bytes.drop_last()) * 256 + bytes.last()
    }
}

/// What a read of one tagged value of fixed width makes of the bytes: the
/// payload, or why there is none, and how many bytes the read takes.
pub open spec fn tagged_payload(bytes: Seq<u8>, tag: u8, width: int) -> (
    Result<Seq<u8>, ReadFailure>,
    int,
) {
    if bytes.len() == 0 {
        (Err(ReadFailure::NoTag), 0)
    } else if bytes[0] != tag {
        (Err(ReadFailure::WrongTag(bytes[0])), 1)
    } else if bytes.len() < 1 + width {
        (Err(ReadFailure::NoData), 1)
    } else {
        (Ok(bytes.subrange(1, 1 + width)), 1 + width)
    }
}

/// What a read of a bool makes of the bytes.
pub open spec fn bool_reading(bytes: Seq<u8>) -> (Result<bool, ReadFailure>, int) {
    if bytes.len() == 0 {
        (Err(ReadFailure::NoTag), 0)
    } else if bytes[0] == 0xc3 {
        (Ok(true), 1)
    } else if bytes[0] == 0xc2 {
        (Ok(false), 1)
    } else {
        (Err(ReadFailure::WrongTag(bytes[0])), 1)
    }
}

/// What a read of a `u8` makes of the bytes.
pub open spec fn u8_reading(bytes: Seq<u8>) -> (Result<u8, ReadFailure>, int) {
    let (payload, taken) = tagged_payload(bytes, 0xcc, 1);
    match payload {
        Ok(p) => (Ok(p[0]), taken),
        Err(e) => (Err(e), taken),
    }
}

/// What a read of an `i32` makes of the bytes.
pub open spec fn i32_reading(bytes: Seq<u8>) -> (Result<i32, ReadFailure>, int) {
    let (payload, taken) = tagged_payload(bytes, 0xd2, 4);
    match payload {
        Ok(p) => (Ok(be_int(p) as i32), taken),
        Err(e) => (Err(e), taken),
    }
}

/// What a read of an `i64` makes of the bytes.
pub open spec fn i64_reading(bytes: Seq<u8>) -> (Result<i64, ReadFailure>, int) {
    let (payload, taken) = tagged_payload(bytes, 0xd3, 8);
    match payload {
        Ok(p) => (Ok(be_int(p) as i64), taken),
        Err(e) => (Err(e), taken),
    }
}

/// What a read of a length makes of the bytes, for a family of tags: `short`
/// is the first of the tags that hold a length below `short_count` in
/// themselves, `wide` the tags after which the length stands in one, two or
/// four bytes (0 where the family has no such tag).
pub open spec fn length_reading(
    bytes: Seq<u8>,
    short: u8,
    short_count: int,
    wide: (u8, u8, u8),
) -> (Result<u32, ReadFailure>, int) {
    if bytes.len() == 0 {
        (Err(ReadFailure::NoTag), 0)
    } else if short <= bytes[0] < short + short_count {
        (Ok((bytes[0] - short) as u32), 1)
    } else {
        let width: int = if wide.0 != 0 && bytes[0] == wide.0 {
            1
        } else if bytes[0] == wide.1 {
            2
        } else if bytes[0] == wide.2 {
            4
        } else {
            0
        };
        if width == 0 {
            (Err(ReadFailure::WrongTag(bytes[0])), 1)
        } else if bytes.len() < 1 + width {
            (Err(ReadFailure::NoData), 1)
        } else {
            (Ok(be_uint(bytes.subrange(1, 1 + width)) as u32), 1 + width)
        }
    }
}

/// What a read of a map's length makes of the bytes.
pub open spec fn map_len_reading(bytes: Seq<u8>) -> (Result<u32, ReadFailure>, int) {
    length_reading(bytes, 0x80, 16, (0, 0xde, 0xdf))
}

/// What a read of a text's length makes of the bytes.
pub open spec fn str_len_reading(bytes: Seq<u8>) -> (Result<u32, ReadFailure>, int) {
    length_reading(bytes, 0xa0, 32, (0xd9, 0xda, 0xdb))
}

/// What a read of a text of at most `capacity` bytes makes of the bytes.
pub open spec fn str_reading(bytes: Seq<u8>, capacity: int) -> (
    Result<Seq<char>, ReadFailure>,
    int,
) {
    let (len, head) = str_len_reading(bytes);
    match len {
        Err(e) => (Err(e), head),
        Ok(n) => {
            if capacity < n {
                (Err(ReadFailure::SmallBuffer(n)), head)
            } else if bytes.len() < head + n {
                (Err(ReadFailure::NoData), head)
            } else {
                let text = bytes.subrange(head, head + n);
                if vstd::utf8::valid_utf8(text) {
                    (Ok(vstd::utf8::decode_utf8(text)), head + n)
                } else {
                    (Err(ReadFailure::BadText), head + n)
                }
            }
        },
    }
}

/// Whether the bits of a 32-bit float spell no number: the exponent is all
/// ones and the fraction is not zero.
pub open spec fn is_nan_bits(bits: u32) -> bool {
    (bits & 0x7f80_0000) == 0x7f80_0000 && (bits & 0x007f_ffff) != 0
}

/// Whether a float which came with the bits `sent` may be handed on with
/// the bits `seen`: they are the same bits, or both spell no number. A
/// machine may change the bits of what is no number when it moves a float.
pub open spec fn same_float(sent: u32, seen: u32) -> bool {
    seen == sent || (is_nan_bits(sent) && is_nan_bits(seen))
}

/// What a read of a 32-bit float hands on for what stood in the bytes.
pub open spec fn float_handed_on(
    read: Result<u32, ReadFailure>,
    sent: Result<u32, ReadFailure>,
) -> bool {
    match sent {
        Ok(bits) => read matches Ok(seen) && same_float(bits, seen),
        Err(e) => read matches Err(x) && x == e,
    }
}

/// What a read of the raw bits of a 32-bit float makes of the bytes.
pub open spec fn f32_bits_reading(bytes: Seq<u8>) -> (Result<u32, ReadFailure>, int) {
    let (payload, taken) = tagged_payload(bytes, 0xca, 4);
    match payload {
        Ok(p) => (Ok(be_uint(p) as u32), taken),
        Err(e) => (Err(e), taken),
    }
}

/// What the check for the end of the message makes of the bytes.
pub open spec fn eom_reading(bytes: Seq<u8>) -> (Result<(), ProtocolError>, int) {
    if bytes.len() == 0 {
        (Err(ProtocolError::MissingEom), 0)
    } else if bytes[0] == END_OF_MESSAGE {
        (Ok(()), 1)
    } else {
        (Err(ProtocolError::UnexpectedByte(bytes[0])), 1)
    }
}

/// The outcome of a typed read, with the expected type attached to a failure.
pub open spec fn typed<T>(expected: ValueTag, value: Result<T, ReadFailure>) -> Result<
    T,
    ProtocolError,
> {
    match value {
        Ok(v) => Ok(v),
        Err(e) => Err(ProtocolError::of(expected, e)),
    }
}

/// What a read of `count` pairs of `i32` makes of the bytes, given the pairs
/// `found` before them: a later pair replaces an earlier one of the same key.
pub open spec fn int_pairs_reading(bytes: Seq<u8>, count: nat, found: Map<i32, i32>) -> (
    Result<Map<i32, i32>, ProtocolError>,
    int,
)
    decreases count,
{
    if count == 0 {
        (Ok(found), 0)
    } else {
        let (key, key_taken) = i32_reading(bytes);
        match key {
            Err(e) => (Err(ProtocolError::of(ValueTag::I32, e)), key_taken),
            Ok(k) => {
                let (value, value_taken) = i32_reading(bytes.skip(key_taken));
                match value {
                    Err(e) => (Err(ProtocolError::of(ValueTag::I32, e)), key_taken + value_taken),
                    Ok(v) => {
                        let (map, taken) = int_pairs_reading(
                            bytes.skip(key_taken + value_taken),
                            (count - 1) as nat,
                            found.insert(k, v),
                        );
                        (map, key_taken + value_taken + taken)
                    },
                }
            },
        }
    }
}

/// What a read of a map from `i32` to `i32` makes of the bytes.
pub open spec fn int_map_reading(bytes: Seq<u8>) -> (Result<Map<i32, i32>, ProtocolError>, int) {
    let (len, len_taken) = map_len_reading(bytes);
    match len {
        Err(e) => (Err(ProtocolError::of(ValueTag::MapLen, e)), len_taken),
        Ok(n) => {
            let (map, taken) = int_pairs_reading(bytes.skip(len_taken), n as nat, Map::empty());
            (map, len_taken + taken)
        },
    }
}

/// The line that asks the daemon to run `command`.
pub open spec fn request_line(command: Seq<char>) -> Seq<char> {
    seq!['>'] + command + seq!['\n']
}

/// A decoded text, by its characters.
pub open spec fn text_of(value: Result<&str, ReadFailure>) -> Result<Seq<char>, ReadFailure> {
    match value {
        Ok(text) => Ok(text@),
        Err(e) => Err(e),
    }
}

/// Decodes a bool at the start of `bytes`, with `rmp::decode::read_bool` on a
/// `rmp::decode::Bytes` reader. The contract states what that function does:
/// the tag 0xc3 is true, 0xc2 is false, any other tag is a mismatch and is
/// consumed, an empty input gives no tag.
#[verifier::external_body]
fn decode_bool(bytes: &[u8]) -> (r: (Result<bool, ReadFailure>, u64))
    ensures
        r.0 == bool_reading(bytes@).0,
        r.1 == bool_reading(bytes@).1,
{
    let mut reader = rmp::decode::Bytes::new(bytes);
    let value = match rmp::decode::read_bool(&mut reader) {
        Ok(v) => Ok(v),
        Err(rmp::decode::ValueReadError::InvalidMarkerRead(_)) => Err(ReadFailure::NoTag),
        Err(rmp::decode::ValueReadError::InvalidDataRead(_)) => Err(ReadFailure::NoData),
        Err(rmp::decode::ValueReadError::TypeMismatch(m)) => Err(ReadFailure::WrongTag(m.to_u8())),
    };
    (value, reader.position())
}

/// Decodes a `u8` at the start of `bytes`, with `rmp::decode::read_u8`: the
/// tag 0xcc and one byte. A missing byte after the tag consumes the tag only.
#[verifier::external_body]
fn decode_u8(bytes: &[u8]) -> (r: (Result<u8, ReadFailure>, u64))
    ensures
        r.0 == u8_reading(bytes@).0,
        r.1 == u8_reading(bytes@).1,
{
    let mut reader = rmp::decode::Bytes::new(bytes);
    let value = match rmp::decode::read_u8(&mut reader) {
        Ok(v) => Ok(v),
        Err(rmp::decode::ValueReadError::InvalidMarkerRead(_)) => Err(ReadFailure::NoTag),
        Err(rmp::decode::ValueReadError::InvalidDataRead(_)) => Err(ReadFailure::NoData),
        Err(rmp::decode::ValueReadError::TypeMismatch(m)) => Err(ReadFailure::WrongTag(m.to_u8())),
    };
    (value, reader.position())
}

/// Decodes an `i32` at the start of `bytes`, with `rmp::decode::read_i32`: the
/// tag 0xd2 and four bytes, most significant first, in two's complement.
/// Fewer than four bytes after the tag consume the tag only.
#[verifier::external_body]
fn decode_i32(bytes: &[u8]) -> (r: (Result<i32, ReadFailure>, u64))
    ensures
        r.0 == i32_reading(bytes@).0,
        r.1 == i32_reading(bytes@).1,
{
    let mut reader = rmp::decode::Bytes::new(bytes);
    let value = match rmp::decode::read_i32(&mut reader) {
        Ok(v) => Ok(v),
        Err(rmp::decode::ValueReadError::InvalidMarkerRead(_)) => Err(ReadFailure::NoTag),
        Err(rmp::decode::ValueReadError::InvalidDataRead(_)) => Err(ReadFailure::NoData),
        Err(rmp::decode::ValueReadError::TypeMismatch(m)) => Err(ReadFailure::WrongTag(m.to_u8())),
    };
    (value, reader.position())
}

/// Decodes an `i64` at the start of `bytes`, with `rmp::decode::read_i64`: the
/// tag 0xd3 and eight bytes, most significant first, in two's complement.
/// Fewer than eight bytes after the tag consume the tag only.
#[verifier::external_body]
fn decode_i64(bytes: &[u8]) -> (r: (Result<i64, ReadFailure>, u64))
    ensures
        r.0 == i64_reading(bytes@).0,
        r.1 == i64_reading(bytes@).1,
{
    let mut reader = rmp::decode::Bytes::new(bytes);
    let value = match rmp::decode::read_i64(&mut reader) {
        Ok(v) => Ok(v),
        Err(rmp::decode::ValueReadError::InvalidMarkerRead(_)) => Err(ReadFailure::NoTag),
        Err(rmp::decode::ValueReadError::InvalidDataRead(_)) => Err(ReadFailure::NoData),
        Err(rmp::decode::ValueReadError::TypeMismatch(m)) => Err(ReadFailure::WrongTag(m.to_u8())),
    };
    (value, reader.position())
}

/// Decodes the length of a map at the start of `bytes`, with
/// `rmp::decode::read_map_len`: a tag from 0x80 to 0x8f holds the length in
/// its low four bits; after 0xde it stands in two bytes, after 0xdf in four,
/// most significant first.
#[verifier::external_body]
fn decode_map_len(bytes: &[u8]) -> (r: (Result<u32, ReadFailure>, u64))
    ensures
        r.0 == map_len_reading(bytes@).0,
        r.1 == map_len_reading(bytes@).1,
{
    let mut reader = rmp::decode::Bytes::new(bytes);
    let value = match rmp::decode::read_map_len(&mut reader) {
        Ok(v) => Ok(v),
        Err(rmp::decode::ValueReadError::InvalidMarkerRead(_)) => Err(ReadFailure::NoTag),
        Err(rmp::decode::ValueReadError::InvalidDataRead(_)) => Err(ReadFailure::NoData),
        Err(rmp::decode::ValueReadError::TypeMismatch(m)) => Err(ReadFailure::WrongTag(m.to_u8())),
    };
    (value, reader.position())
}

/// Decodes a text at the start of `bytes` into `buffer`, with
/// `rmp::decode::read_str`. The length comes first: a tag from 0xa0 to 0xbf
/// holds it in its low five bits; after 0xd9, 0xda, 0xdb it stands in one,
/// two, four bytes. A length above that of the buffer, or above what is left
/// of the input, fails with only the length consumed; bytes that are no UTF-8
/// fail after they were consumed. Nothing is said of what the buffer holds
/// afterwards.
#[verifier::external_body]
fn decode_str<'r>(bytes: &[u8], buffer: &'r mut [u8]) -> (r: (Result<&'r str, ReadFailure>, u64))
    ensures
        text_of(r.0) == str_reading(bytes@, old(buffer)@.len() as int).0,
        r.1 == str_reading(bytes@, old(buffer)@.len() as int).1,
{
    let mut reader = rmp::decode::Bytes::new(bytes);
    let value = match rmp::decode::read_str(&mut reader, buffer) {
        Ok(v) => Ok(v),
        Err(rmp::decode::DecodeStringError::InvalidMarkerRead(_)) => Err(ReadFailure::NoTag),
        Err(rmp::decode::DecodeStringError::InvalidDataRead(_)) => Err(ReadFailure::NoData),
        Err(rmp::decode::DecodeStringError::TypeMismatch(m)) => Err(ReadFailure::WrongTag(m.to_u8())),
        Err(rmp::decode::DecodeStringError::BufferSizeTooSmall(n)) => Err(ReadFailure::SmallBuffer(n)),
        Err(rmp::decode::DecodeStringError::InvalidUtf8(_, _)) => Err(ReadFailure::BadText),
    };
    (value, reader.position())
}

/// Decodes the bits of a 32-bit float at the start of `bytes`, with
/// `rmp::decode::read_f32`: the tag 0xca and four bytes, most significant
/// first. The float is handed on as the bits that came; of bits which
/// spell no number the contract claims only that what is handed on spells
/// none either, since the float passes through an `f32` on the way.
#[verifier::external_body]
fn decode_float_bits(bytes: &[u8]) -> (r: (Result<u32, ReadFailure>, u64))
    ensures
        float_handed_on(r.0, f32_bits_reading(bytes@).0),
        r.1 == f32_bits_reading(bytes@).1,
{
    let mut reader = rmp::decode::Bytes::new(bytes);
    let value = match rmp::decode::read_f32(&mut reader) {
        Ok(v) => Ok(v.to_bits()),
        Err(rmp::decode::ValueReadError::InvalidMarkerRead(_)) => Err(ReadFailure::NoTag),
        Err(rmp::decode::ValueReadError::InvalidDataRead(_)) => Err(ReadFailure::NoData),
        Err(rmp::decode::ValueReadError::TypeMismatch(m)) => Err(ReadFailure::WrongTag(m.to_u8())),
    };
    (value, reader.position())
}

/// An answer of the daemon, read value by value from its start.
pub struct FtlConnection {
    data: Vec<u8>,
    position: usize,
}

impl View for FtlConnection {
    type V = Seq<u8>;

    /// The bytes that are still to be read.
    closed spec fn view(&self) -> Seq<u8> {
        self.data@.skip(self.position as int)
    }
}

impl FtlConnection {
    #[verifier::type_invariant]
    spec fn in_bounds(&self) -> bool {
        self.position <= self.data.len()
    }

    /// A connection that will hand out `data`.
    pub fn new(data: Vec<u8>) -> (connection: FtlConnection)
        ensures
            connection@ == data@,
    {
        FtlConnection { data, position: 0 }
    }

    /// The bytes that are still to be read.
    fn rest(&self) -> (bytes: &[u8])
        ensures
            bytes@ == self@,
    {
        proof {
            use_type_invariant(self);
        }
        slice_subrange(self.data.as_slice(), self.position, self.data.len())
    }

    /// Go `taken` bytes forward.
    fn advance(&mut self, taken: u64)
        requires
            taken <= old(self)@.len(),
        ensures
            final(self)@ == old(self)@.skip(taken as int),
    {
        proof {
            use_type_invariant(&*self);
        }
        self.position = self.position + taken as usize;
    }

    /// Read in a string using the buffer.
    pub fn read_str<'r>(&mut self, buffer: &'r mut [u8]) -> (r: Result<&'r str, ProtocolError>)
        ensures
            match str_reading(old(self)@, old(buffer)@.len() as int).0 {
                Ok(text) => r matches Ok(t) && t@ == text,
                Err(e) => r matches Err(x) && x == ProtocolError::of(ValueTag::Str, e),
            },
            final(self)@ == old(self)@.skip(str_reading(old(self)@, old(buffer)@.len() as int).1),
    {
        let (value, taken) = decode_str(self.rest(), buffer);
        self.advance(taken);
        match value {
            Ok(v) => Ok(v),
            Err(e) => Err(ProtocolError::from_failure(ValueTag::Str, e)),
        }
    }

    /// Read in a bool value.
    pub fn read_bool(&mut self) -> (r: Result<bool, ProtocolError>)
        ensures
            r == typed(ValueTag::Bool, bool_reading(old(self)@).0),
            final(self)@ == old(self)@.skip(bool_reading(old(self)@).1),
    {
        let (value, taken) = decode_bool(self.rest());
        self.advance(taken);
        match value {
            Ok(v) => Ok(v),
            Err(e) => Err(ProtocolError::from_failure(ValueTag::Bool, e)),
        }
    }

    /// Read in a u8 (unsigned byte) value.
    pub fn read_u8(&mut self) -> (r: Result<u8, ProtocolError>)
        ensures
            r == typed(ValueTag::U8, u8_reading(old(self)@).0),
            final(self)@ == old(self)@.skip(u8_reading(old(self)@).1),
    {
        let (value, taken) = decode_u8(self.rest());
        self.advance(taken);
        match value {
            Ok(v) => Ok(v),
            Err(e) => Err(ProtocolError::from_failure(ValueTag::U8, e)),
        }
    }

    /// Read in an i32 (signed int) value.
    pub fn read_i32(&mut self) -> (r: Result<i32, ProtocolError>)
        ensures
            r == typed(ValueTag::I32, i32_reading(old(self)@).0),
            final(self)@ == old(self)@.skip(i32_reading(old(self)@).1),
    {
        let (value, taken) = decode_i32(self.rest());
        self.advance(taken);
        match value {
            Ok(v) => Ok(v),
            Err(e) => Err(ProtocolError::from_failure(ValueTag::I32, e)),
        }
    }

    /// Read in an i64 (signed long) value.
    pub fn read_i64(&mut self) -> (r: Result<i64, ProtocolError>)
        ensures
            r == typed(ValueTag::I64, i64_reading(old(self)@).0),
            final(self)@ == old(self)@.skip(i64_reading(old(self)@).1),
    {
        let (value, taken) = decode_i64(self.rest());
        self.advance(taken);
        match value {
            Ok(v) => Ok(v),
            Err(e) => Err(ProtocolError::from_failure(ValueTag::I64, e)),
        }
    }

    /// Read in a 32-bit float value, as its bits: the bits that stand in
    /// the answer or, where those spell no number, bits which spell none.
    pub fn read_float_bits(&mut self) -> (r: Result<u32, ProtocolError>)
        ensures
            match typed(ValueTag::F32, f32_bits_reading(old(self)@).0) {
                Ok(sent) => r matches Ok(seen) && same_float(sent, seen),
                Err(e) => r matches Err(x) && x == e,
            },
            final(self)@ == old(self)@.skip(f32_bits_reading(old(self)@).1),
    {
        let (value, taken) = decode_float_bits(self.rest());
        self.advance(taken);
        match value {
            Ok(v) => Ok(v),
            Err(e) => Err(ProtocolError::from_failure(ValueTag::F32, e)),
        }
    }

    /// Read in the length of the upcoming map (unsigned int).
    pub fn read_map_len(&mut self) -> (r: Result<u32, ProtocolError>)
        ensures
            r == typed(ValueTag::MapLen, map_len_reading(old(self)@).0),
            final(self)@ == old(self)@.skip(map_len_reading(old(self)@).1),
    {
        let (value, taken) = decode_map_len(self.rest());
        self.advance(taken);
        match value {
            Ok(v) => Ok(v),
            Err(e) => Err(ProtocolError::from_failure(ValueTag::MapLen, e)),
        }
    }

    /// We expect an end of message (EOM) response when the daemon has finished sending data.
    pub fn expect_eom(&mut self) -> (r: Result<(), ProtocolError>)
        ensures
            r == eom_reading(old(self)@).0,
            final(self)@ == old(self)@.skip(eom_reading(old(self)@).1),
    {
        let rest = self.rest();
        if rest.len() == 0 {
            return Err(ProtocolError::MissingEom);
        }
        let byte = rest[0];
        self.advance(1);
        if byte != END_OF_MESSAGE {
            return Err(ProtocolError::UnexpectedByte(byte));
        }
        Ok(())
    }

    /// Read in a map of i32 -> i32 (signed int).
    pub fn read_int_map(&mut self) -> (r: Result<HashMap<i32, i32>, ProtocolError>)
        ensures
            match int_map_reading(old(self)@).0 {
                Ok(map) => r matches Ok(m) && m@ == map,
                Err(e) => r matches Err(x) && x == e,
            },
            final(self)@ == old(self)@.skip(int_map_reading(old(self)@).1),
    {
        broadcast use vstd::std_specs::hash::group_hash_axioms;

        let ghost whole = self@;
        let map_len = match self.read_map_len() {
            Ok(n) => n,
            Err(e) => { return Err(e); },
        };
        let ghost head = map_len_reading(whole).1;
        let ghost start = self@;
        let ghost taken: int = 0;
        let mut map: HashMap<i32, i32> = HashMap::new();
        let mut read: u32 = 0;
        while read < map_len
            invariant
                read <= map_len,
                whole == old(self)@,
                0 <= head <= whole.len(),
                0 <= taken <= start.len(),
                start == whole.skip(head),
                self@ == start.skip(taken),
                map_len_reading(whole) == (Ok::<u32, ReadFailure>(map_len), head),
                int_pairs_reading(start, map_len as nat, Map::empty()).0 == int_pairs_reading(
                    self@,
                    (map_len - read) as nat,
                    map@,
                ).0,
                int_pairs_reading(start, map_len as nat, Map::empty()).1 == taken
                    + int_pairs_reading(self@, (map_len - read) as nat, map@).1,
            decreases map_len - read,
        {
            let ghost before = self@;
            let ghost key_taken = i32_reading(before).1;
            let key = match self.read_i32() {
                Ok(k) => k,
                Err(e) => {
                    assert(self@ == whole.skip(head + taken + key_taken));
                    return Err(e);
                },
            };
            let ghost value_taken = i32_reading(before.skip(key_taken)).1;
            let value = match self.read_i32() {
                Ok(v) => v,
                Err(e) => {
                    assert(self@ == whole.skip(head + taken + key_taken + value_taken));
                    return Err(e);
                },
            };
            map.insert(key, value);
            proof {
                assert(self@ == before.skip(key_taken + value_taken));
                assert(self@ == start.skip(taken + key_taken + value_taken));
                taken = taken + key_taken + value_taken;
            }
            read = read + 1;
        }
        assert(self@ == whole.skip(head + taken));
        Ok(map)
    }
}

/// The line that asks the daemon to run `command`: a `>`, the command, a line feed.
pub fn command_line(command: &str) -> (line: String)
    ensures
        line@ == request_line(command@),
{
    proof {
        reveal_strlit(">");
        reveal_strlit("\n");
    }
    let mut line = String::from_str(">");
    line.append(command);
    line.append("\n");
    line
}

} // verus!
