//! The failure kinds of the decoder and the error value it returns.

use bytes::Bytes;
use vstd::prelude::*;

verus! {

/// What went wrong while decoding.
#[derive(Debug, PartialEq, Eq, Structural, Copy, Clone)]
pub enum ErrorKind {
    BadMessageLength,
    MalformedAttributeList,
    AttributeLengthErr,
    InvalidOrigin,
    MalformedAsPath,
    OptionalAttributeError,
    InvalidNetworkField,
    Other,
}

/// A decoding failure, with the bytes that were being decoded where that
/// helps to diagnose it.
#[derive(Debug, PartialEq, Clone)]
pub struct Error {
    pub kind: ErrorKind,
    pub data: Option<Bytes>,
}

impl ErrorKind {
    /// The kinds whose errors carry a copy of the offending bytes: those
    /// raised on variable-width fields.
    pub open spec fn keeps_data(self) -> bool {
        match self {
            ErrorKind::AttributeLengthErr => true,
            ErrorKind::MalformedAsPath => true,
            ErrorKind::InvalidOrigin => true,
            ErrorKind::OptionalAttributeError => true,
            _ => false,
        }
    }

    /// An error of this kind that keeps `bytes` if the kind is one that
    /// carries diagnostic data, and drops them otherwise.
    pub fn with_bytes(&self, bytes: Bytes) -> (r: Error)
        ensures
            r.kind == *self,
            self.keeps_data() ==> r.data == Some(bytes),
            !self.keeps_data() ==> r.data is None,
    {
        let data = match self {
            ErrorKind::AttributeLengthErr => Some(bytes),
            ErrorKind::MalformedAsPath => Some(bytes),
            ErrorKind::InvalidOrigin => Some(bytes),
            ErrorKind::OptionalAttributeError => Some(bytes),
            _ => None,
        };
        Error { kind: *self, data }
    }

    /// An error of this kind without diagnostic data.
    pub fn as_err(&self) -> (r: Error)
        ensures
            r.kind == *self,
            r.data is None,
    {
        Error { kind: *self, data: None }
    }
}

} // verus!
