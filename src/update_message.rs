//! The UPDATE message body: withdrawn routes, path attributes and NLRI.

use crate::attribute::{decode_record, record_decoded, record_error, record_len, PathAttribute};
use crate::buffer::{be_u16, bytes_advance, bytes_as_slice, bytes_view, read_u16};
use crate::error::{Error, ErrorKind};
use crate::prefix::{decode_prefixes, prefixes_view, IpAddrPrefix};
use bytes::Bytes;
use vstd::prelude::*;

verus! {

/// A decoded UPDATE message.
#[derive(Debug, PartialEq)]
pub struct UpdateMessage {
    pub withdrawn_routes: Vec<IpAddrPrefix>,
    pub path_attributes: Vec<PathAttribute>,
    pub nlri: Vec<IpAddrPrefix>,
}

/// The attribute records that fill block `s`, each given as the bytes from
/// its start to the end of the block; or, for the first record that does
/// not decode, its error kind and the bytes from its start.
pub open spec fn attribute_records(s: Seq<u8>) -> Result<Seq<Seq<u8>>, (ErrorKind, Seq<u8>)>
    decreases s.len(),
{
    if s.len() == 0 {
        Ok(Seq::empty())
    } else {
        match record_error(s) {
            Some(k) => Err((k, s)),
            None => match attribute_records(s.subrange(record_len(s) as int, s.len() as int)) {
                Ok(rest) => Ok(seq![s] + rest),
                Err(f) => Err(f),
            },
        }
    }
}

/// The length of the withdrawn-routes field of body `s`.
pub open spec fn withdrawn_len(s: Seq<u8>) -> int {
    be_u16(s, 0) as int
}

/// The withdrawn-routes field of body `s`.
pub open spec fn withdrawn_block(s: Seq<u8>) -> Seq<u8> {
    s.subrange(2, 2 + withdrawn_len(s))
}

/// The length of the path-attributes field of body `s`.
pub open spec fn attributes_len(s: Seq<u8>) -> int {
    be_u16(s, 2 + withdrawn_len(s)) as int
}

/// The path-attributes field of body `s`.
pub open spec fn attributes_block(s: Seq<u8>) -> Seq<u8> {
    s.subrange(4 + withdrawn_len(s), 4 + withdrawn_len(s) + attributes_len(s))
}

/// The NLRI field of body `s`: all bytes after the path attributes.
pub open spec fn nlri_block(s: Seq<u8>) -> Seq<u8> {
    s.subrange(4 + withdrawn_len(s) + attributes_len(s), s.len() as int)
}

/// How decoding body `s` fails: the error kind and the diagnostic bytes, or
/// `None` when it decodes. Each check is made in wire order and the first
/// failure wins.
pub open spec fn update_failure(s: Seq<u8>) -> Option<(ErrorKind, Option<Seq<u8>>)> {
    if s.len() < 2 {
        Some((ErrorKind::BadMessageLength, None))
    } else if s.len() - 2 < withdrawn_len(s) {
        Some((ErrorKind::MalformedAttributeList, None))
    } else if decode_prefixes(withdrawn_block(s), 4) is None {
        Some((ErrorKind::InvalidNetworkField, None))
    } else if s.len() - 2 - withdrawn_len(s) < 2 {
        Some((ErrorKind::MalformedAttributeList, None))
    } else if s.len() - 4 - withdrawn_len(s) < attributes_len(s) {
        Some((ErrorKind::MalformedAttributeList, None))
    } else if let Err((k, snapshot)) = attribute_records(attributes_block(s)) {
        Some((k, Some(snapshot)))
    } else if decode_prefixes(nlri_block(s), 4) is None {
        Some((ErrorKind::InvalidNetworkField, None))
    } else {
        None
    }
}

/// The diagnostic bytes of an error, as a sequence.
pub open spec fn data_view(data: Option<Bytes>) -> Option<Seq<u8>> {
    match data {
        Some(b) => Some(bytes_view(b)),
        None => None,
    }
}

/// `m` is what body `s` decodes to.
pub open spec fn update_decoded(s: Seq<u8>, m: UpdateMessage) -> bool {
    &&& decode_prefixes(withdrawn_block(s), 4) == Some(prefixes_view(m.withdrawn_routes@))
    &&& attribute_records(attributes_block(s)) matches Ok(records)
    &&& m.path_attributes@.len() == records.len()
    &&& forall|i: int|
        0 <= i < records.len() ==> record_decoded(records[i], #[trigger] m.path_attributes@[i])
    &&& decode_prefixes(nlri_block(s), 4) == Some(prefixes_view(m.nlri@))
}

fn decode_attributes(block: &[u8]) -> (r: Result<Vec<PathAttribute>, Error>)
    ensures
        match r {
            Ok(v) => attribute_records(block@) matches Ok(records) && v@.len() == records.len()
                && forall|i: int|
                0 <= i < records.len() ==> record_decoded(records[i], #[trigger] v@[i]),
            Err(e) => attribute_records(block@) matches Err((k, snapshot)) && e.kind == k
                && data_view(e.data) == Some(snapshot),
        },
{
    let mut path_attributes: Vec<PathAttribute> = Vec::new();
    let ghost mut records: Seq<Seq<u8>> = Seq::empty();
    let mut pos: usize = 0;
    proof {
        assert(block@.subrange(0, block@.len() as int) =~= block@);
        assert forall|t: Seq<Seq<u8>>| records + t == t by {
            assert(records + t =~= t);
        }
    }
    while pos < block.len()
        invariant
            pos <= block@.len(),
            attribute_records(block@) == match attribute_records(
                block@.subrange(pos as int, block@.len() as int),
            ) {
                Ok(rest) => Ok(records + rest),
                Err(f) => Err(f),
            },
            path_attributes@.len() == records.len(),
            forall|i: int|
                0 <= i < records.len() ==> record_decoded(
                    records[i],
                    #[trigger] path_attributes@[i],
                ),
        decreases block@.len() - pos,
    {
        let ghost rest = block@.subrange(pos as int, block@.len() as int);
        let remaining = vstd::slice::slice_subrange(block, pos, block.len());
        match decode_record(remaining) {
            Ok((attribute, n)) => {
                let ghost old_records = records;
                path_attributes.push(attribute);
                proof {
                    records = records.push(rest);
                    assert(rest.subrange(n as int, rest.len() as int) =~= block@.subrange(
                        pos + n,
                        block@.len() as int,
                    ));
                    assert forall|t: Seq<Seq<u8>>| old_records + (seq![rest] + t) == records + t by {
                        assert(old_records + (seq![rest] + t) =~= records + t);
                    }
                    assert forall|i: int|
                        0 <= i < records.len() implies record_decoded(
                        records[i],
                        #[trigger] path_attributes@[i],
                    ) by {
                        if i < old_records.len() {
                            assert(records[i] == old_records[i]);
                        }
                    }
                }
                pos = pos + n;
            },
            Err(e) => {
                return Err(e);
            },
        }
    }
    proof {
        assert(block@.subrange(pos as int, block@.len() as int) =~= Seq::<u8>::empty());
        assert(records + Seq::<Seq<u8>>::empty() =~= records);
    }
    Ok(path_attributes)
}

fn decode_body(buf: &[u8]) -> (r: Result<UpdateMessage, Error>)
    ensures
        match r {
            Ok(m) => update_failure(buf@) is None && update_decoded(buf@, m),
            Err(e) => update_failure(buf@) == Some((e.kind, data_view(e.data))),
        },
{
    let ghost s = buf@;
    if buf.len() < 2 {
        return Err(ErrorKind::BadMessageLength.with_bytes(Bytes::copy_from_slice(buf)));
    }
    let withdrawn_len = read_u16(buf, 0) as usize;
    let mut pos: usize = 2;
    let withdrawn_routes = if withdrawn_len != 0 {
        if buf.len() - pos < withdrawn_len {
            return Err(ErrorKind::MalformedAttributeList.as_err());
        }
        let withdrawn_data = vstd::slice::slice_subrange(buf, pos, pos + withdrawn_len);
        pos = pos + withdrawn_len;
        match IpAddrPrefix::decode_stream(withdrawn_data, 4) {
            Ok(v) => v,
            Err(e) => return Err(e),
        }
    } else {
        proof {
            assert(withdrawn_block(s) =~= Seq::<u8>::empty());
            assert(prefixes_view(Seq::<IpAddrPrefix>::empty()) =~= Seq::<(u8, Seq<u8>)>::empty());
        }
        Vec::new()
    };
    if buf.len() - pos < 2 {
        return Err(ErrorKind::MalformedAttributeList.as_err());
    }
    let attributes_len = read_u16(buf, pos) as usize;
    pos = pos + 2;
    if buf.len() - pos < attributes_len {
        return Err(ErrorKind::MalformedAttributeList.as_err());
    }
    let attributes_data = vstd::slice::slice_subrange(buf, pos, pos + attributes_len);
    pos = pos + attributes_len;
    let path_attributes = match decode_attributes(attributes_data) {
        Ok(v) => v,
        Err(e) => return Err(e),
    };
    let nlri_data = vstd::slice::slice_subrange(buf, pos, buf.len());
    let nlri = match IpAddrPrefix::decode_stream(nlri_data, 4) {
        Ok(v) => v,
        Err(e) => return Err(e),
    };
    Ok(UpdateMessage { withdrawn_routes, path_attributes, nlri })
}

impl UpdateMessage {
    /// Decodes an UPDATE message body that fills `data`. On success `data`
    /// is used up; on failure it is left as it was.
    pub fn try_decode(data: &mut Bytes) -> (r: Result<UpdateMessage, Error>)
        ensures
            match r {
                Ok(m) => {
                    &&& update_failure(bytes_view(*old(data))) is None
                    &&& update_decoded(bytes_view(*old(data)), m)
                    &&& bytes_view(*final(data)).len() == 0
                },
                Err(e) => {
                    &&& update_failure(bytes_view(*old(data))) == Some((e.kind, data_view(e.data)))
                    &&& *final(data) == *old(data)
                },
            },
    {
        let buf = bytes_as_slice(data);
        let n = buf.len();
        let r = decode_body(buf);
        match r {
            Ok(m) => {
                bytes_advance(data, n);
                Ok(m)
            },
            Err(e) => Err(e),
        }
    }
}

} // verus!
