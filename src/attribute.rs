//! Path attributes: the TLV record and the grammar of each known
//! attribute's value.

use crate::buffer::{be_u16, be_u32, bytes_as_slice, bytes_advance, bytes_view, read_u16, read_u32};
use crate::error::{Error, ErrorKind};
use crate::ip::Ipv4Addr;
use bytes::Bytes;
use vstd::prelude::*;

verus! {

/// One decoded path attribute.
#[derive(Debug, PartialEq)]
pub struct PathAttribute {
    pub flags: PathAttributeFlags,
    pub type_code: AttributeType,
    pub value: AttributeValue,
}

/// The four flag bits of an attribute record.
#[derive(Debug, PartialEq, Eq, Structural, Clone, Copy)]
pub struct PathAttributeFlags {
    pub optional: bool,
    pub transitive: bool,
    pub partial: bool,
    pub extended_length: bool,
}

/// The type code of an attribute.
#[derive(Debug, PartialEq, Eq, Structural, Clone, Copy)]
pub enum AttributeType {
    Origin,
    AsPath,
    NextHop,
    MultiExitDisc,
    LocalPref,
    AtomicAggregate,
    Aggregator,
    Communities,
    Unknown(u8),
}

/// The decoded value of an attribute.
#[derive(Debug, PartialEq)]
pub enum AttributeValue {
    Origin(Origin),
    AsPath(AsPath),
    NextHop(NextHop),
    MultiExitDisc(MultiExitDisc),
    LocalPref(LocalPref),
    AtomicAggregate,
    Aggregator(Aggregator),
    Communities(Communities),
    Unknown(Bytes),
}

#[derive(Debug, PartialEq, Eq, Structural, Clone, Copy)]
pub enum OriginType {
    Igp,
    Egp,
    Incomplete,
}

#[derive(Debug, PartialEq, Eq, Structural, Clone, Copy)]
pub struct Origin {
    pub origin_type: OriginType,
}

#[derive(Debug, PartialEq, Eq, Structural, Clone, Copy)]
pub enum AsPathSegmentType {
    AsSet,
    AsSequence,
}

#[derive(Debug, PartialEq)]
pub struct AsPathSegment {
    pub segment_type: AsPathSegmentType,
    pub asns: Vec<u32>,
}

#[derive(Debug, PartialEq)]
pub struct AsPath {
    pub segments: Vec<AsPathSegment>,
}

#[derive(Debug, PartialEq, Eq, Structural, Clone, Copy)]
pub struct NextHop {
    pub ip: Ipv4Addr,
}

#[derive(Debug, PartialEq, Eq, Structural, Clone, Copy)]
pub struct MultiExitDisc {
    pub med: u32,
}

#[derive(Debug, PartialEq, Eq, Structural, Clone, Copy)]
pub struct LocalPref {
    pub pref: u32,
}

#[derive(Debug, PartialEq, Eq, Structural, Clone, Copy)]
pub struct Aggregator {
    pub asn: u32,
    pub ip: Ipv4Addr,
}

#[derive(Debug, PartialEq, Eq, Structural, Clone, Copy)]
pub struct Community {
    pub asn: u16,
    pub value: u16,
}

#[derive(Debug, PartialEq)]
pub struct Communities {
    pub communities: Vec<Community>,
}

impl View for AsPathSegment {
    type V = (AsPathSegmentType, Seq<u32>);

    open spec fn view(&self) -> (AsPathSegmentType, Seq<u32>) {
        (self.segment_type, self.asns@)
    }
}

impl View for AsPath {
    type V = Seq<(AsPathSegmentType, Seq<u32>)>;

    open spec fn view(&self) -> Seq<(AsPathSegmentType, Seq<u32>)> {
        segments_view(self.segments@)
    }
}

/// The segments of `v` as (type, ASNs) pairs.
pub open spec fn segments_view(v: Seq<AsPathSegment>) -> Seq<(AsPathSegmentType, Seq<u32>)> {
    v.map_values(|g: AsPathSegment| g@)
}

/// The attribute type that a type code denotes.
pub open spec fn type_of(code: u8) -> AttributeType {
    match code {
        1 => AttributeType::Origin,
        2 => AttributeType::AsPath,
        3 => AttributeType::NextHop,
        4 => AttributeType::MultiExitDisc,
        5 => AttributeType::LocalPref,
        6 => AttributeType::AtomicAggregate,
        7 => AttributeType::Aggregator,
        8 => AttributeType::Communities,
        _ => AttributeType::Unknown(code),
    }
}

impl From<u8> for AttributeType {
    fn from(value: u8) -> (r: AttributeType)
        ensures
            r == type_of(value),
    {
        match value {
            1 => AttributeType::Origin,
            2 => AttributeType::AsPath,
            3 => AttributeType::NextHop,
            4 => AttributeType::MultiExitDisc,
            5 => AttributeType::LocalPref,
            6 => AttributeType::AtomicAggregate,
            7 => AttributeType::Aggregator,
            8 => AttributeType::Communities,
            _ => AttributeType::Unknown(value),
        }
    }
}

impl vstd::std_specs::convert::FromSpecImpl<u8> for AttributeType {
    open spec fn obeys_from_spec() -> bool {
        true
    }

    open spec fn from_spec(v: u8) -> AttributeType {
        type_of(v)
    }
}

/// The origin that an ORIGIN value byte denotes.
pub open spec fn origin_type_of(b: u8) -> Option<OriginType> {
    match b {
        0 => Some(OriginType::Igp),
        1 => Some(OriginType::Egp),
        2 => Some(OriginType::Incomplete),
        _ => None,
    }
}

/// The segment type that an AS_PATH segment type byte denotes.
pub open spec fn segment_type_of(b: u8) -> Option<AsPathSegmentType> {
    match b {
        1 => Some(AsPathSegmentType::AsSet),
        2 => Some(AsPathSegmentType::AsSequence),
        _ => None,
    }
}

/// The segment at the front of `s` is complete and of a known type.
pub open spec fn segment_ok(s: Seq<u8>) -> bool {
    &&& s.len() >= 2
    &&& segment_type_of(s[0]) is Some
    &&& s.len() - 2 >= 4 * s[1]
}

/// The wire length of the segment at the front of `s`.
pub open spec fn segment_len(s: Seq<u8>) -> nat {
    2 + 4 * (s[1] as nat)
}

/// The segment at the front of `s`: its type and its four-byte ASNs.
pub open spec fn segment_at(s: Seq<u8>) -> (AsPathSegmentType, Seq<u32>) {
    (segment_type_of(s[0])->0, Seq::new(s[1] as nat, |i: int| be_u32(s, 2 + 4 * i)))
}

/// The segments that an AS_PATH value holds, or `None` when it is malformed.
pub open spec fn parse_as_path(s: Seq<u8>) -> Option<Seq<(AsPathSegmentType, Seq<u32>)>>
    decreases s.len(),
{
    if s.len() == 0 {
        Some(Seq::empty())
    } else if !segment_ok(s) {
        None
    } else {
        match parse_as_path(s.subrange(segment_len(s) as int, s.len() as int)) {
            Some(rest) => Some(seq![segment_at(s)] + rest),
            None => None,
        }
    }
}

/// The communities that a COMMUNITIES value of a length divisible by four holds.
pub open spec fn communities_of(s: Seq<u8>) -> Seq<Community> {
    Seq::new(
        s.len() / 4,
        |i: int| Community { asn: be_u16(s, 4 * i), value: be_u16(s, 4 * i + 2) },
    )
}

impl Origin {
    /// Decodes an ORIGIN value: exactly one byte, 0, 1 or 2.
    fn try_decode(data: &[u8]) -> (r: Result<Origin, ErrorKind>)
        ensures
            match r {
                Ok(o) => data@.len() == 1 && origin_type_of(data@[0]) == Some(o.origin_type),
                Err(k) => k == ErrorKind::InvalidOrigin && !(data@.len() == 1
                    && origin_type_of(data@[0]) is Some),
            },
    {
        if data.len() != 1 {
            return Err(ErrorKind::InvalidOrigin);
        }
        let origin_type = match data[0] {
            0 => OriginType::Igp,
            1 => OriginType::Egp,
            2 => OriginType::Incomplete,
            _ => return Err(ErrorKind::InvalidOrigin),
        };
        Ok(Origin { origin_type })
    }
}

impl AsPath {
    /// Decodes an AS_PATH value: segments of a type byte (1 for a set, 2 for a
    /// sequence), a count byte and that many big-endian four-byte ASNs, until
    /// the value is used up.
    fn try_decode(data: &[u8]) -> (r: Result<AsPath, ErrorKind>)
        ensures
            match r {
                Ok(p) => parse_as_path(data@) == Some(p@),
                Err(k) => k == ErrorKind::MalformedAsPath && parse_as_path(data@) is None,
            },
    {
        let mut segments: Vec<AsPathSegment> = Vec::new();
        let mut pos: usize = 0;
        proof {
            assert(data@.subrange(0, data@.len() as int) =~= data@);
            assert forall|t: Seq<(AsPathSegmentType, Seq<u32>)>| segments_view(segments@) + t == t by {
                assert(segments_view(segments@) + t =~= t);
            }
        }
        while pos < data.len()
            invariant
                pos <= data@.len(),
                parse_as_path(data@) == match parse_as_path(
                    data@.subrange(pos as int, data@.len() as int),
                ) {
                    Some(rest) => Some(segments_view(segments@) + rest),
                    None => None,
                },
            decreases data@.len() - pos,
        {
            let ghost rest = data@.subrange(pos as int, data@.len() as int);
            let segment_type = match data[pos] {
                1 => AsPathSegmentType::AsSet,
                2 => AsPathSegmentType::AsSequence,
                _ => return Err(ErrorKind::MalformedAsPath),
            };
            if data.len() - pos < 2 {
                return Err(ErrorKind::MalformedAsPath);
            }
            let count = data[pos + 1] as usize;
            pos = pos + 2;
            if data.len() - pos < count * 4 {
                return Err(ErrorKind::MalformedAsPath);
            }
            let mut asns: Vec<u32> = Vec::new();
            let mut i: usize = 0;
            while i < count
                invariant
                    i <= count,
                    data@.len() <= usize::MAX,
                    count == rest[1],
                    pos >= 2,
                    pos + count * 4 <= data@.len(),
                    rest == data@.subrange(pos - 2, data@.len() as int),
                    asns@.len() == i,
                    forall|t: int| 0 <= t < i ==> #[trigger] asns@[t] == be_u32(rest, 2 + 4 * t),
                decreases count - i,
            {
                asns.push(read_u32(data, pos + 4 * i));
                i = i + 1;
            }
            assert(asns@ =~= segment_at(rest).1);
            let ghost old_view = segments_view(segments@);
            segments.push(AsPathSegment { segment_type, asns });
            pos = pos + count * 4;
            proof {
                let nv = segments_view(segments@);
                assert(nv =~= old_view.push(segment_at(rest)));
                assert(rest.subrange(segment_len(rest) as int, rest.len() as int) =~= data@.subrange(
                    pos as int,
                    data@.len() as int,
                ));
                assert forall|t: Seq<(AsPathSegmentType, Seq<u32>)>|
                    old_view + (seq![segment_at(rest)] + t) == nv + t by {
                    assert(old_view + (seq![segment_at(rest)] + t) =~= nv + t);
                }
            }
        }
        proof {
            let v = segments_view(segments@);
            assert(data@.subrange(pos as int, data@.len() as int) =~= Seq::<u8>::empty());
            assert(v + Seq::<(AsPathSegmentType, Seq<u32>)>::empty() =~= v);
        }
        Ok(AsPath { segments })
    }
}

impl NextHop {
    /// Decodes a NEXT_HOP value: an IPv4 address in its first four bytes;
    /// bytes past the fourth are not looked at.
    fn try_decode(data: &[u8]) -> (r: Result<NextHop, ErrorKind>)
        ensures
            match r {
                Ok(n) => data@.len() >= 4 && n.ip@ == be_u32(data@, 0),
                Err(k) => k == ErrorKind::AttributeLengthErr && data@.len() < 4,
            },
    {
        if data.len() < 4 {
            return Err(ErrorKind::AttributeLengthErr);
        }
        Ok(NextHop { ip: Ipv4Addr::from_bits(read_u32(data, 0)) })
    }
}

impl MultiExitDisc {
    /// Decodes a MULTI_EXIT_DISC value: exactly four bytes.
    fn try_decode(data: &[u8]) -> (r: Result<MultiExitDisc, ErrorKind>)
        ensures
            match r {
                Ok(m) => data@.len() == 4 && m.med == be_u32(data@, 0),
                Err(k) => k == ErrorKind::AttributeLengthErr && data@.len() != 4,
            },
    {
        if data.len() != 4 {
            return Err(ErrorKind::AttributeLengthErr);
        }
        Ok(MultiExitDisc { med: read_u32(data, 0) })
    }
}

impl LocalPref {
    /// Decodes a LOCAL_PREF value: a big-endian `u32` in its first four
    /// bytes; bytes past the fourth are not looked at.
    fn try_decode(data: &[u8]) -> (r: Result<LocalPref, ErrorKind>)
        ensures
            match r {
                Ok(l) => data@.len() >= 4 && l.pref == be_u32(data@, 0),
                Err(k) => k == ErrorKind::AttributeLengthErr && data@.len() < 4,
            },
    {
        if data.len() < 4 {
            return Err(ErrorKind::AttributeLengthErr);
        }
        Ok(LocalPref { pref: read_u32(data, 0) })
    }
}

impl Aggregator {
    /// Decodes an AGGREGATOR value: a four-byte ASN and an IPv4 address in
    /// eight bytes, or a two-byte ASN and an IPv4 address in six.
    fn try_decode(data: &[u8]) -> (r: Result<Aggregator, ErrorKind>)
        ensures
            match r {
                Ok(a) => {
                    ||| data@.len() == 8 && a.asn == be_u32(data@, 0) && a.ip@ == be_u32(data@, 4)
                    ||| data@.len() == 6 && a.asn == be_u16(data@, 0) as u32 && a.ip@ == be_u32(
                        data@,
                        2,
                    )
                },
                Err(k) => k == ErrorKind::AttributeLengthErr && data@.len() != 8 && data@.len()
                    != 6,
            },
    {
        if data.len() == 8 {
            Ok(Aggregator { asn: read_u32(data, 0), ip: Ipv4Addr::from_bits(read_u32(data, 4)) })
        } else if data.len() == 6 {
            Ok(Aggregator { asn: read_u16(data, 0) as u32, ip: Ipv4Addr::from_bits(read_u32(data, 2)) })
        } else {
            Err(ErrorKind::AttributeLengthErr)
        }
    }
}

impl Communities {
    /// Decodes a COMMUNITIES value: four-byte units, each a big-endian ASN
    /// and a big-endian value; a length not divisible by four is refused
    /// before anything is read.
    fn try_decode(data: &[u8]) -> (r: Result<Communities, ErrorKind>)
        ensures
            match r {
                Ok(c) => data@.len() % 4 == 0 && c.communities@ == communities_of(data@),
                Err(k) => k == ErrorKind::OptionalAttributeError && data@.len() % 4 != 0,
            },
    {
        if data.len() % 4 != 0 {
            return Err(ErrorKind::OptionalAttributeError);
        }
        let mut communities: Vec<Community> = Vec::new();
        let mut pos: usize = 0;
        while pos < data.len()
            invariant
                data@.len() % 4 == 0,
                pos % 4 == 0,
                pos <= data@.len(),
                pos == 4 * communities@.len(),
                forall|t: int|
                    0 <= t < communities@.len() ==> #[trigger] communities@[t]
                        == communities_of(data@)[t],
            decreases data@.len() - pos,
        {
            let c = Community { asn: read_u16(data, pos), value: read_u16(data, pos + 2) };
            communities.push(c);
            pos = pos + 4;
        }
        assert(communities@ =~= communities_of(data@));
        Ok(Communities { communities })
    }
}

/// The error that decoding value `s` of an attribute of type `t` ends in, or
/// `None` when it decodes.
pub open spec fn value_error(t: AttributeType, s: Seq<u8>) -> Option<ErrorKind> {
    match t {
        AttributeType::Origin => if s.len() == 1 && origin_type_of(s[0]) is Some {
            None
        } else {
            Some(ErrorKind::InvalidOrigin)
        },
        AttributeType::AsPath => if parse_as_path(s) is Some {
            None
        } else {
            Some(ErrorKind::MalformedAsPath)
        },
        AttributeType::NextHop => if s.len() >= 4 {
            None
        } else {
            Some(ErrorKind::AttributeLengthErr)
        },
        AttributeType::MultiExitDisc => if s.len() == 4 {
            None
        } else {
            Some(ErrorKind::AttributeLengthErr)
        },
        AttributeType::LocalPref => if s.len() >= 4 {
            None
        } else {
            Some(ErrorKind::AttributeLengthErr)
        },
        AttributeType::AtomicAggregate => if s.len() == 0 {
            None
        } else {
            Some(ErrorKind::AttributeLengthErr)
        },
        AttributeType::Aggregator => if s.len() == 8 || s.len() == 6 {
            None
        } else {
            Some(ErrorKind::AttributeLengthErr)
        },
        AttributeType::Communities => if s.len() % 4 == 0 {
            None
        } else {
            Some(ErrorKind::OptionalAttributeError)
        },
        AttributeType::Unknown(_) => None,
    }
}

/// `v` is what value `s` of an attribute of type `t` decodes to (where
/// `value_error(t, s)` is `None`).
pub open spec fn value_decoded(t: AttributeType, s: Seq<u8>, v: AttributeValue) -> bool {
    match t {
        AttributeType::Origin => v == AttributeValue::Origin(
            Origin { origin_type: origin_type_of(s[0])->0 },
        ),
        AttributeType::AsPath => v matches AttributeValue::AsPath(p) && Some(p@) == parse_as_path(s),
        AttributeType::NextHop => v matches AttributeValue::NextHop(n) && n.ip@ == be_u32(s, 0),
        AttributeType::MultiExitDisc => v == AttributeValue::MultiExitDisc(
            MultiExitDisc { med: be_u32(s, 0) },
        ),
        AttributeType::LocalPref => v == AttributeValue::LocalPref(LocalPref { pref: be_u32(s, 0) }),
        AttributeType::AtomicAggregate => v == AttributeValue::AtomicAggregate,
        AttributeType::Aggregator => v matches AttributeValue::Aggregator(a) && if s.len() == 8 {
            a.asn == be_u32(s, 0) && a.ip@ == be_u32(s, 4)
        } else {
            a.asn == be_u16(s, 0) as u32 && a.ip@ == be_u32(s, 2)
        },
        AttributeType::Communities => v matches AttributeValue::Communities(c)
            && c.communities@ == communities_of(s),
        AttributeType::Unknown(_) => v matches AttributeValue::Unknown(b) && bytes_view(b) == s,
    }
}

/// The flags that a flags byte holds, most significant bit first.
pub open spec fn flags_of(b: u8) -> PathAttributeFlags {
    PathAttributeFlags {
        optional: b & 0x80 != 0,
        transitive: b & 0x40 != 0,
        partial: b & 0x20 != 0,
        extended_length: b & 0x10 != 0,
    }
}

/// The length of the flags, type and length fields of the record at the
/// front of `s` (which holds at least the flags and type bytes).
pub open spec fn record_header_len(s: Seq<u8>) -> nat {
    if flags_of(s[0]).extended_length {
        4
    } else {
        3
    }
}

/// The value length that the record at the front of `s` declares.
pub open spec fn record_value_len(s: Seq<u8>) -> nat {
    if flags_of(s[0]).extended_length {
        be_u16(s, 2) as nat
    } else {
        s[2] as nat
    }
}

/// The record at the front of `s` has a readable length field and a value
/// of the declared length.
pub open spec fn record_framed(s: Seq<u8>) -> bool {
    &&& s.len() >= 2
    &&& s.len() >= record_header_len(s)
    &&& s.len() - record_header_len(s) >= record_value_len(s)
}

/// The record at the front of `s` has a readable length field that
/// declares more value bytes than follow it.
pub open spec fn record_overruns(s: Seq<u8>) -> bool {
    &&& s.len() >= 2
    &&& s.len() >= record_header_len(s)
    &&& s.len() - record_header_len(s) < record_value_len(s)
}

/// The wire length of the record at the front of `s`.
pub open spec fn record_len(s: Seq<u8>) -> nat {
    record_header_len(s) + record_value_len(s)
}

/// The value bytes of the record at the front of `s`.
pub open spec fn record_value(s: Seq<u8>) -> Seq<u8> {
    s.subrange(record_header_len(s) as int, record_len(s) as int)
}

/// The error that decoding the record at the front of `s` ends in, or `None`
/// when it decodes.
pub open spec fn record_error(s: Seq<u8>) -> Option<ErrorKind> {
    if !record_framed(s) {
        Some(ErrorKind::AttributeLengthErr)
    } else {
        value_error(type_of(s[1]), record_value(s))
    }
}

/// `a` is what the record at the front of `s` decodes to.
pub open spec fn record_decoded(s: Seq<u8>, a: PathAttribute) -> bool {
    &&& a.flags == flags_of(s[0])
    &&& a.type_code == type_of(s[1])
    &&& value_decoded(a.type_code, record_value(s), a.value)
}

/// `e` is the error for the record at the front of `s`: of the kind that
/// `record_error` gives, with the whole of `s` as diagnostic data.
pub open spec fn record_failure(s: Seq<u8>, e: Error) -> bool {
    &&& record_error(s) == Some(e.kind)
    &&& e.data matches Some(b) && bytes_view(b) == s
}

/// Decodes a value of an attribute of type `type_code` from exactly the
/// bytes of `data`.
fn decode_value(type_code: &AttributeType, data: &[u8]) -> (r: Result<AttributeValue, ErrorKind>)
    ensures
        match r {
            Ok(v) => value_error(*type_code, data@) is None && value_decoded(*type_code, data@, v),
            Err(k) => value_error(*type_code, data@) == Some(k),
        },
{
    match type_code {
        AttributeType::Origin => match Origin::try_decode(data) {
            Ok(o) => Ok(AttributeValue::Origin(o)),
            Err(k) => Err(k),
        },
        AttributeType::AsPath => match AsPath::try_decode(data) {
            Ok(p) => Ok(AttributeValue::AsPath(p)),
            Err(k) => Err(k),
        },
        AttributeType::NextHop => match NextHop::try_decode(data) {
            Ok(n) => Ok(AttributeValue::NextHop(n)),
            Err(k) => Err(k),
        },
        AttributeType::MultiExitDisc => match MultiExitDisc::try_decode(data) {
            Ok(m) => Ok(AttributeValue::MultiExitDisc(m)),
            Err(k) => Err(k),
        },
        AttributeType::LocalPref => match LocalPref::try_decode(data) {
            Ok(l) => Ok(AttributeValue::LocalPref(l)),
            Err(k) => Err(k),
        },
        AttributeType::AtomicAggregate => {
            if data.len() > 0 {
                return Err(ErrorKind::AttributeLengthErr);
            }
            Ok(AttributeValue::AtomicAggregate)
        },
        AttributeType::Aggregator => match Aggregator::try_decode(data) {
            Ok(a) => Ok(AttributeValue::Aggregator(a)),
            Err(k) => Err(k),
        },
        AttributeType::Communities => match Communities::try_decode(data) {
            Ok(c) => Ok(AttributeValue::Communities(c)),
            Err(k) => Err(k),
        },
        AttributeType::Unknown(_) => Ok(AttributeValue::Unknown(Bytes::copy_from_slice(data))),
    }
}

impl AttributeValue {
    /// Decodes the value of an attribute of type `type_code` from exactly
    /// the bytes of `value_data`. A COMMUNITIES value whose length is not a
    /// multiple of four is always an `OptionalAttributeError`.
    pub fn try_decode(type_code: &AttributeType, value_data: &Bytes) -> (r: Result<
        AttributeValue,
        ErrorKind,
    >)
        ensures
            match r {
                Ok(v) => value_error(*type_code, bytes_view(*value_data)) is None && value_decoded(
                    *type_code,
                    bytes_view(*value_data),
                    v,
                ),
                Err(k) => value_error(*type_code, bytes_view(*value_data)) == Some(k),
            },
            *type_code == AttributeType::Communities && bytes_view(*value_data).len() % 4 != 0
                ==> r == Err::<AttributeValue, ErrorKind>(ErrorKind::OptionalAttributeError),
    {
        decode_value(type_code, bytes_as_slice(value_data))
    }
}

/// Decodes the attribute record at the front of `data`; on success also
/// returns the record's wire length.
pub(crate) fn decode_record(data: &[u8]) -> (r: Result<(PathAttribute, usize), Error>)
    ensures
        match r {
            Ok((a, n)) => {
                &&& record_error(data@) is None
                &&& n == record_len(data@)
                &&& record_decoded(data@, a)
            },
            Err(e) => record_failure(data@, e),
        },
{
    if data.len() < 2 {
        return Err(ErrorKind::AttributeLengthErr.with_bytes(Bytes::copy_from_slice(data)));
    }
    let flags_byte = data[0];
    let flags = PathAttributeFlags {
        optional: (flags_byte & 0x80) != 0,
        transitive: (flags_byte & 0x40) != 0,
        partial: (flags_byte & 0x20) != 0,
        extended_length: (flags_byte & 0x10) != 0,
    };
    let type_code = AttributeType::from(data[1]);
    let (header_len, length): (usize, usize) = if flags.extended_length {
        if data.len() < 4 {
            return Err(ErrorKind::AttributeLengthErr.with_bytes(Bytes::copy_from_slice(data)));
        }
        (4, read_u16(data, 2) as usize)
    } else {
        if data.len() < 3 {
            return Err(ErrorKind::AttributeLengthErr.with_bytes(Bytes::copy_from_slice(data)));
        }
        (3, data[2] as usize)
    };
    if data.len() - header_len < length {
        return Err(ErrorKind::AttributeLengthErr.with_bytes(Bytes::copy_from_slice(data)));
    }
    let value_data = vstd::slice::slice_subrange(data, header_len, header_len + length);
    match decode_value(&type_code, value_data) {
        Ok(value) => Ok((PathAttribute { flags, type_code, value }, header_len + length)),
        Err(k) => Err(k.with_bytes(Bytes::copy_from_slice(data))),
    }
}

impl PathAttribute {
    /// Decodes one attribute record from the front of `data` and advances
    /// `data` past it; on failure `data` is left as it was. A record whose
    /// declared length runs past the end of `data` is always an
    /// `AttributeLengthErr` that keeps the whole of `data` as it stood.
    pub fn try_decode(data: &mut Bytes) -> (r: Result<PathAttribute, Error>)
        ensures
            match r {
                Ok(a) => {
                    let s = bytes_view(*old(data));
                    &&& record_error(s) is None
                    &&& record_decoded(s, a)
                    &&& bytes_view(*final(data)) == s.subrange(record_len(s) as int, s.len() as int)
                },
                Err(e) => {
                    &&& record_failure(bytes_view(*old(data)), e)
                    &&& *final(data) == *old(data)
                },
            },
            record_overruns(bytes_view(*old(data))) ==> (r matches Err(e) && e.kind
                == ErrorKind::AttributeLengthErr && (e.data matches Some(b) && bytes_view(b)
                == bytes_view(*old(data)))),
    {
        let r = decode_record(bytes_as_slice(data));
        match r {
            Ok((a, n)) => {
                bytes_advance(data, n);
                Ok(a)
            },
            Err(e) => Err(e),
        }
    }
}

} // verus!
