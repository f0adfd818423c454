//! The fixed 19-byte header that precedes every BGP message.

use crate::buffer::{be_u16, bytes_advance, bytes_as_slice, bytes_view, read_u16};
use bytes::Bytes;
use vstd::prelude::*;

verus! {

/// Why a header could not be read from a buffer.
#[derive(Debug, PartialEq, Eq, Structural, Clone, Copy)]
pub enum HeaderParseError {
    /// The buffer is shorter than a header: (the header length, the buffer length).
    InputLengthOutOfRange(usize, usize),
    /// The marker is not sixteen `0xFF` bytes.
    MalformedMarkerField,
    /// The length field lies outside the allowed range.
    LengthFieldOutOfRange { min: usize, max: usize, actual: usize },
}

/// Why a header could not be built.
#[derive(Debug, PartialEq, Eq, Structural, Clone, Copy)]
pub enum BgpHeaderError {
    /// The length lies outside the allowed range.
    LengthFieldOutOfRange { min: usize, max: usize, actual: usize },
}

/// The kind of a BGP message.
#[derive(Debug, PartialEq, Eq, Structural, Clone, Copy)]
pub enum BgpMessageType {
    Open,
    Update,
    Notification,
    Keepalive,
    /// A type code that this library does not know.
    Unknown(u8),
}

/// A BGP message header.
#[derive(Debug, PartialEq, Eq)]
pub struct BgpHeader {
    pub marker: [u8; 16],
    pub length: u16,
    pub message_type: BgpMessageType,
}

/// The message type that a type code denotes.
pub open spec fn message_type_of(code: u8) -> BgpMessageType {
    match code {
        1 => BgpMessageType::Open,
        2 => BgpMessageType::Update,
        3 => BgpMessageType::Notification,
        4 => BgpMessageType::Keepalive,
        _ => BgpMessageType::Unknown(code),
    }
}

/// The type code of a message type.
pub open spec fn message_type_code(t: BgpMessageType) -> u8 {
    match t {
        BgpMessageType::Open => 1,
        BgpMessageType::Update => 2,
        BgpMessageType::Notification => 3,
        BgpMessageType::Keepalive => 4,
        BgpMessageType::Unknown(code) => code,
    }
}

impl From<u8> for BgpMessageType {
    fn from(value: u8) -> (r: BgpMessageType)
        ensures
            r == message_type_of(value),
    {
        match value {
            1 => BgpMessageType::Open,
            2 => BgpMessageType::Update,
            3 => BgpMessageType::Notification,
            4 => BgpMessageType::Keepalive,
            _ => BgpMessageType::Unknown(value),
        }
    }
}

impl vstd::std_specs::convert::FromSpecImpl<u8> for BgpMessageType {
    open spec fn obeys_from_spec() -> bool {
        true
    }

    open spec fn from_spec(v: u8) -> BgpMessageType {
        message_type_of(v)
    }
}

impl From<&BgpMessageType> for u8 {
    fn from(msg_type: &BgpMessageType) -> (r: u8)
        ensures
            r == message_type_code(*msg_type),
    {
        match msg_type {
            BgpMessageType::Open => 1,
            BgpMessageType::Update => 2,
            BgpMessageType::Notification => 3,
            BgpMessageType::Keepalive => 4,
            BgpMessageType::Unknown(value) => *value,
        }
    }
}

impl vstd::std_specs::convert::FromSpecImpl<&BgpMessageType> for u8 {
    open spec fn obeys_from_spec() -> bool {
        true
    }

    open spec fn from_spec(v: &BgpMessageType) -> u8 {
        message_type_code(*v)
    }
}

/// The marker of every header: sixteen `0xFF` bytes.
pub open spec fn header_marker() -> Seq<u8> {
    Seq::new(16, |i: int| 0xFFu8)
}

/// The length field lies in the allowed range.
pub open spec fn length_in_range(length: u16) -> bool {
    BgpHeader::MIN_LEN <= length <= BgpHeader::MAX_LEN
}

/// How reading a header from the front of `s` fails, or `None` when it succeeds.
pub open spec fn header_failure(s: Seq<u8>) -> Option<HeaderParseError> {
    if s.len() < 19 {
        Some(HeaderParseError::InputLengthOutOfRange(19, s.len() as usize))
    } else if s.subrange(0, 16) != header_marker() {
        Some(HeaderParseError::MalformedMarkerField)
    } else if !length_in_range(be_u16(s, 16)) {
        Some(
            HeaderParseError::LengthFieldOutOfRange {
                min: 19,
                max: 4096,
                actual: be_u16(s, 16) as usize,
            },
        )
    } else {
        None
    }
}

impl BgpHeader {
    pub const MIN_LEN: u16 = 19;

    pub const MAX_LEN: u16 = 4096;

    /// A header for a message of `length` bytes, which must lie between
    /// `MIN_LEN` and `MAX_LEN`.
    pub fn new(length: u16, message_type: BgpMessageType) -> (r: Result<BgpHeader, BgpHeaderError>)
        ensures
            length_in_range(length) ==> (r matches Ok(h) && h.marker@ == header_marker()
                && h.length == length && h.message_type == message_type),
            !length_in_range(length) ==> r == Err::<BgpHeader, BgpHeaderError>(
                BgpHeaderError::LengthFieldOutOfRange {
                    min: 19,
                    max: 4096,
                    actual: length as usize,
                },
            ),
    {
        if length < Self::MIN_LEN || length > Self::MAX_LEN {
            return Err(
                BgpHeaderError::LengthFieldOutOfRange {
                    min: Self::MIN_LEN as usize,
                    max: Self::MAX_LEN as usize,
                    actual: length as usize,
                },
            );
        }
        let marker = [0xFFu8; 16];
        assert(marker@ =~= header_marker());
        Ok(BgpHeader { marker, length, message_type })
    }

    /// Reads a header from the front of `input` and advances `input` past
    /// it; on failure `input` is left as it was.
    pub fn try_from_bytes(input: &mut Bytes) -> (r: Result<BgpHeader, HeaderParseError>)
        ensures
            match r {
                Ok(h) => {
                    let s = bytes_view(*old(input));
                    &&& header_failure(s) is None
                    &&& h.marker@ == header_marker()
                    &&& h.length == be_u16(s, 16)
                    &&& h.message_type == message_type_of(s[18])
                    &&& bytes_view(*final(input)) == s.subrange(19, s.len() as int)
                },
                Err(e) => {
                    &&& header_failure(bytes_view(*old(input))) == Some(e)
                    &&& *final(input) == *old(input)
                },
            },
    {
        let buf = bytes_as_slice(input);
        if buf.len() < Self::MIN_LEN as usize {
            return Err(HeaderParseError::InputLengthOutOfRange(Self::MIN_LEN as usize, buf.len()));
        }
        let mut i: usize = 0;
        while i < 16
            invariant
                i <= 16,
                buf@.len() >= 19,
                buf@ == bytes_view(*old(input)),
                *input == *old(input),
                forall|k: int| 0 <= k < i ==> buf@[k] == 0xFF,
            decreases 16 - i,
        {
            if buf[i] != 0xFF {
                assert(header_marker()[i as int] == 0xFF);
                assert(buf@.subrange(0, 16)[i as int] == buf@[i as int]);
                assert(buf@.subrange(0, 16) != header_marker());
                return Err(HeaderParseError::MalformedMarkerField);
            }
            i = i + 1;
        }
        assert(buf@.subrange(0, 16) =~= header_marker());
        let length = read_u16(buf, 16);
        if length < Self::MIN_LEN || length > Self::MAX_LEN {
            return Err(
                HeaderParseError::LengthFieldOutOfRange {
                    min: Self::MIN_LEN as usize,
                    max: Self::MAX_LEN as usize,
                    actual: length as usize,
                },
            );
        }
        let message_type = BgpMessageType::from(buf[18]);
        let marker = [0xFFu8; 16];
        assert(marker@ =~= header_marker());
        bytes_advance(input, 19);
        Ok(BgpHeader { marker, length, message_type })
    }

    /// The 19 wire bytes of the header: the marker, the big-endian length
    /// and the type code.
    pub fn to_bytes(&self) -> (r: Bytes)
        ensures
            bytes_view(r).len() == 19,
            bytes_view(r).subrange(0, 16) == self.marker@,
            be_u16(bytes_view(r), 16) == self.length,
            bytes_view(r)[18] == message_type_code(self.message_type),
    {
        let mut buffer: Vec<u8> = Vec::new();
        let mut i: usize = 0;
        while i < 16
            invariant
                i <= 16,
                buffer@ == self.marker@.subrange(0, i as int),
            decreases 16 - i,
        {
            buffer.push(self.marker[i]);
            i = i + 1;
            assert(buffer@ =~= self.marker@.subrange(0, i as int));
        }
        let length = self.length;
        let high = (length / 0x100) as u8;
        let low = (length % 0x100) as u8;
        buffer.push(high);
        buffer.push(low);
        buffer.push(u8::from(&self.message_type));
        assert(buffer@.subrange(0, 16) =~= self.marker@);
        Bytes::copy_from_slice(buffer.as_slice())
    }
}

} // verus!
