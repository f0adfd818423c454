//! The OPEN message: the fixed fields and the optional-parameter list.

use crate::buffer::{be_u16, be_u32, bytes_advance, bytes_as_slice, bytes_view, read_u16, read_u32};
use crate::header::BgpHeader;
use crate::ip::Ipv4Addr;
use bytes::Bytes;
use vstd::prelude::*;

verus! {

/// A check that a decoded value is consistent, giving the problem found.
pub trait Validate<E> {
    fn validate(&self) -> Option<E>;
}

/// A message body together with its header.
pub enum BgpBody {
    Open(BgpHeader, OpenMessage),
}

/// A decoded OPEN message.
pub struct OpenMessage {
    pub version: u8,
    pub my_autonomous_system: u16,
    pub hold_time: u16,
    pub bgp_id: Ipv4Addr,
    pub optional_params: Vec<OptionalParam>,
}

/// One optional parameter of an OPEN message: its type and its raw value.
pub struct OptionalParam {
    pub param_type: u8,
    pub param_value: Vec<u8>,
}

impl View for OptionalParam {
    type V = (u8, Seq<u8>);

    open spec fn view(&self) -> (u8, Seq<u8>) {
        (self.param_type, self.param_value@)
    }
}

/// Why an OPEN message could not be decoded.
#[derive(Debug, PartialEq, Eq, Structural, Clone, Copy)]
pub enum OpenMessageError {
    /// The buffer ends inside the fixed fields; it holds this many bytes.
    Truncated(usize),
    /// The optional-parameters length exceeds the bytes that follow it.
    OptionalParamsTooLong { available: usize, specified: usize },
    /// An optional parameter runs past the end of the parameter list.
    MalformedOptionalParam,
}

/// The parameters of `v` as (type, value) pairs.
pub open spec fn params_view(v: Seq<OptionalParam>) -> Seq<(u8, Seq<u8>)> {
    v.map_values(|p: OptionalParam| p@)
}

/// The optional parameters that fill list `s`, or `None` when one runs past
/// its end.
pub open spec fn parse_params(s: Seq<u8>) -> Option<Seq<(u8, Seq<u8>)>>
    decreases s.len(),
{
    if s.len() == 0 {
        Some(Seq::empty())
    } else if s.len() < 2 || s.len() - 2 < s[1] {
        None
    } else {
        match parse_params(s.subrange(2 + s[1], s.len() as int)) {
            Some(rest) => Some(seq![(s[0], s.subrange(2, 2 + s[1]))] + rest),
            None => None,
        }
    }
}

/// The optional-parameter list of OPEN message `s`.
pub open spec fn params_block(s: Seq<u8>) -> Seq<u8> {
    s.subrange(10, 10 + s[9])
}

/// How decoding OPEN message `s` fails, or `None` when it decodes.
pub open spec fn open_failure(s: Seq<u8>) -> Option<OpenMessageError> {
    if s.len() < 10 {
        Some(OpenMessageError::Truncated(s.len() as usize))
    } else if s.len() - 10 < s[9] {
        Some(
            OpenMessageError::OptionalParamsTooLong {
                available: (s.len() - 10) as usize,
                specified: s[9] as usize,
            },
        )
    } else if parse_params(params_block(s)) is None {
        Some(OpenMessageError::MalformedOptionalParam)
    } else {
        None
    }
}

fn decode_optional_params(buf: &[u8]) -> (r: Result<Vec<OptionalParam>, OpenMessageError>)
    ensures
        match r {
            Ok(v) => parse_params(buf@) == Some(params_view(v@)),
            Err(e) => e == OpenMessageError::MalformedOptionalParam && parse_params(buf@) is None,
        },
{
    let mut params: Vec<OptionalParam> = Vec::new();
    let mut pos: usize = 0;
    proof {
        assert(buf@.subrange(0, buf@.len() as int) =~= buf@);
        assert forall|t: Seq<(u8, Seq<u8>)>| params_view(params@) + t == t by {
            assert(params_view(params@) + t =~= t);
        }
    }
    while pos < buf.len()
        invariant
            pos <= buf@.len(),
            parse_params(buf@) == match parse_params(buf@.subrange(pos as int, buf@.len() as int)) {
                Some(rest) => Some(params_view(params@) + rest),
                None => None,
            },
        decreases buf@.len() - pos,
    {
        let ghost rest = buf@.subrange(pos as int, buf@.len() as int);
        if buf.len() - pos < 2 {
            return Err(OpenMessageError::MalformedOptionalParam);
        }
        let code = buf[pos];
        let length = buf[pos + 1] as usize;
        if buf.len() - pos - 2 < length {
            return Err(OpenMessageError::MalformedOptionalParam);
        }
        let start = pos + 2;
        let mut value: Vec<u8> = Vec::new();
        let mut i: usize = 0;
        while i < length
            invariant
                i <= length,
                buf@.len() <= usize::MAX,
                start + length <= buf@.len(),
                value@ == buf@.subrange(start as int, start + i),
            decreases length - i,
        {
            value.push(buf[start + i]);
            i = i + 1;
            assert(value@ =~= buf@.subrange(start as int, start + i));
        }
        let ghost entry = (code, value@);
        let ghost old_view = params_view(params@);
        params.push(OptionalParam { param_type: code, param_value: value });
        pos = start + length;
        proof {
            let nv = params_view(params@);
            assert(nv =~= old_view.push(entry));
            assert(rest.subrange(2, 2 + rest[1]) =~= entry.1);
            assert(rest.subrange(2 + rest[1], rest.len() as int) =~= buf@.subrange(
                pos as int,
                buf@.len() as int,
            ));
            assert forall|t: Seq<(u8, Seq<u8>)>| old_view + (seq![entry] + t) == nv + t by {
                assert(old_view + (seq![entry] + t) =~= nv + t);
            }
        }
    }
    proof {
        let v = params_view(params@);
        assert(buf@.subrange(pos as int, buf@.len() as int) =~= Seq::<u8>::empty());
        assert(v + Seq::<(u8, Seq<u8>)>::empty() =~= v);
    }
    Ok(params)
}

impl OpenMessage {
    /// Decodes an OPEN message from the front of `value`: version, ASN,
    /// hold time, BGP identifier, then a length-prefixed list of optional
    /// parameters. On success `value` is advanced past the parameter list;
    /// on failure it is left as it was.
    pub fn try_from(value: &mut Bytes) -> (r: Result<OpenMessage, OpenMessageError>)
        ensures
            match r {
                Ok(m) => {
                    let s = bytes_view(*old(value));
                    &&& open_failure(s) is None
                    &&& m.version == s[0]
                    &&& m.my_autonomous_system == be_u16(s, 1)
                    &&& m.hold_time == be_u16(s, 3)
                    &&& m.bgp_id@ == be_u32(s, 5)
                    &&& parse_params(params_block(s)) == Some(params_view(m.optional_params@))
                    &&& bytes_view(*final(value)) == s.subrange(10 + s[9], s.len() as int)
                },
                Err(e) => {
                    &&& open_failure(bytes_view(*old(value))) == Some(e)
                    &&& *final(value) == *old(value)
                },
            },
    {
        let buf = bytes_as_slice(value);
        if buf.len() < 10 {
            return Err(OpenMessageError::Truncated(buf.len()));
        }
        let version = buf[0];
        let my_autonomous_system = read_u16(buf, 1);
        let hold_time = read_u16(buf, 3);
        let bgp_id = read_u32(buf, 5);
        let optional_params_len = buf[9] as usize;
        if buf.len() - 10 < optional_params_len {
            return Err(
                OpenMessageError::OptionalParamsTooLong {
                    available: buf.len() - 10,
                    specified: optional_params_len,
                },
            );
        }
        let end = 10 + optional_params_len;
        let params_bytes = vstd::slice::slice_subrange(buf, 10, end);
        let optional_params = match decode_optional_params(params_bytes) {
            Ok(v) => v,
            Err(e) => return Err(e),
        };
        bytes_advance(value, end);
        Ok(OpenMessage {
            version,
            my_autonomous_system,
            hold_time,
            bgp_id: Ipv4Addr::from_bits(bgp_id),
            optional_params,
        })
    }
}

} // verus!
