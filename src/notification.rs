//! The error codes that a NOTIFICATION message carries.

use vstd::prelude::*;

verus! {

/// A NOTIFICATION message: an error code with its sub-code, and data.
pub struct NotificationMessage {
    error_codes: NotificationErrorCode,
    data: Vec<u8>,
}

/// The error code of a NOTIFICATION message, with its sub-code where the
/// code has sub-codes.
#[derive(Debug, PartialEq, Eq, Structural, Clone, Copy)]
pub enum NotificationErrorCode {
    Header(HeaderSubErr),
    OpenMessage(OpenMessageSubErr),
    UpdateMessage(UpdateMessageSubErr),
    HoldTimeExpired,
    FiniteStateMachine,
    Cease,
    Unknown(u8, u8),
}

/// The sub-codes of the header error code (sub-code `n` is the `n`-th variant).
#[derive(Debug, PartialEq, Eq, Structural, Clone, Copy)]
pub enum HeaderSubErr {
    ConnectionNotSyncronized,
    BadMessageLength,
    BadMessageType,
}

/// The header sub-code that `value` denotes, if any.
pub open spec fn header_sub_err_of(value: u8) -> Option<HeaderSubErr> {
    match value {
        1 => Some(HeaderSubErr::ConnectionNotSyncronized),
        2 => Some(HeaderSubErr::BadMessageLength),
        3 => Some(HeaderSubErr::BadMessageType),
        _ => None,
    }
}

impl TryFrom<u8> for HeaderSubErr {
    /// The unrecognised sub-code.
    type Error = u8;

    fn try_from(value: u8) -> (r: Result<HeaderSubErr, u8>)
        ensures
            r == match header_sub_err_of(value) {
                Some(v) => Ok(v),
                None => Err::<HeaderSubErr, u8>(value),
            },
    {
        match value {
            1 => Ok(HeaderSubErr::ConnectionNotSyncronized),
            2 => Ok(HeaderSubErr::BadMessageLength),
            3 => Ok(HeaderSubErr::BadMessageType),
            _ => Err(value),
        }
    }
}

impl vstd::std_specs::convert::TryFromSpecImpl<u8> for HeaderSubErr {
    open spec fn obeys_try_from_spec() -> bool {
        true
    }

    open spec fn try_from_spec(v: u8) -> Result<HeaderSubErr, u8> {
        match header_sub_err_of(v) {
            Some(s) => Ok(s),
            None => Err(v),
        }
    }
}

/// The sub-codes of the OPEN error code (sub-code `n` is the `n`-th variant).
#[derive(Debug, PartialEq, Eq, Structural, Clone, Copy)]
pub enum OpenMessageSubErr {
    UnsupportedVersionNumber,
    BadPeerAS,
    BadBgpIdentifier,
    UnsupportedOptionalParameter,
    AuthenticationFailure,
    UnacceptableHoldTime,
}

/// The OPEN sub-code that `value` denotes, if any.
pub open spec fn open_message_sub_err_of(value: u8) -> Option<OpenMessageSubErr> {
    match value {
        1 => Some(OpenMessageSubErr::UnsupportedVersionNumber),
        2 => Some(OpenMessageSubErr::BadPeerAS),
        3 => Some(OpenMessageSubErr::BadBgpIdentifier),
        4 => Some(OpenMessageSubErr::UnsupportedOptionalParameter),
        5 => Some(OpenMessageSubErr::AuthenticationFailure),
        6 => Some(OpenMessageSubErr::UnacceptableHoldTime),
        _ => None,
    }
}

impl TryFrom<u8> for OpenMessageSubErr {
    /// The unrecognised sub-code.
    type Error = u8;

    fn try_from(value: u8) -> (r: Result<OpenMessageSubErr, u8>)
        ensures
            r == match open_message_sub_err_of(value) {
                Some(v) => Ok(v),
                None => Err::<OpenMessageSubErr, u8>(value),
            },
    {
        match value {
            1 => Ok(OpenMessageSubErr::UnsupportedVersionNumber),
            2 => Ok(OpenMessageSubErr::BadPeerAS),
            3 => Ok(OpenMessageSubErr::BadBgpIdentifier),
            4 => Ok(OpenMessageSubErr::UnsupportedOptionalParameter),
            5 => Ok(OpenMessageSubErr::AuthenticationFailure),
            6 => Ok(OpenMessageSubErr::UnacceptableHoldTime),
            _ => Err(value),
        }
    }
}

impl vstd::std_specs::convert::TryFromSpecImpl<u8> for OpenMessageSubErr {
    open spec fn obeys_try_from_spec() -> bool {
        true
    }

    open spec fn try_from_spec(v: u8) -> Result<OpenMessageSubErr, u8> {
        match open_message_sub_err_of(v) {
            Some(s) => Ok(s),
            None => Err(v),
        }
    }
}

/// The sub-codes of the UPDATE error code (sub-code `n` is the `n`-th variant).
#[derive(Debug, PartialEq, Eq, Structural, Clone, Copy)]
pub enum UpdateMessageSubErr {
    MalformedAttributeList,
    UnrecognizedWellKnownAttribute,
    MissingWellKnownAttribute,
    AttributeFlagsError,
    AttributeLengthError,
    InvalidOriginAttribute,
    ASRoutingLoop,
    InvalidNextHopAttribute,
    OptionalAttributeError,
    InvalidNetworkField,
    MalformedAsPath,
}

/// The UPDATE sub-code that `value` denotes, if any.
pub open spec fn update_message_sub_err_of(value: u8) -> Option<UpdateMessageSubErr> {
    match value {
        1 => Some(UpdateMessageSubErr::MalformedAttributeList),
        2 => Some(UpdateMessageSubErr::UnrecognizedWellKnownAttribute),
        3 => Some(UpdateMessageSubErr::MissingWellKnownAttribute),
        4 => Some(UpdateMessageSubErr::AttributeFlagsError),
        5 => Some(UpdateMessageSubErr::AttributeLengthError),
        6 => Some(UpdateMessageSubErr::InvalidOriginAttribute),
        7 => Some(UpdateMessageSubErr::ASRoutingLoop),
        8 => Some(UpdateMessageSubErr::InvalidNextHopAttribute),
        9 => Some(UpdateMessageSubErr::OptionalAttributeError),
        10 => Some(UpdateMessageSubErr::InvalidNetworkField),
        11 => Some(UpdateMessageSubErr::MalformedAsPath),
        _ => None,
    }
}

impl TryFrom<u8> for UpdateMessageSubErr {
    /// The unrecognised sub-code.
    type Error = u8;

    fn try_from(value: u8) -> (r: Result<UpdateMessageSubErr, u8>)
        ensures
            r == match update_message_sub_err_of(value) {
                Some(v) => Ok(v),
                None => Err::<UpdateMessageSubErr, u8>(value),
            },
    {
        match value {
            1 => Ok(UpdateMessageSubErr::MalformedAttributeList),
            2 => Ok(UpdateMessageSubErr::UnrecognizedWellKnownAttribute),
            3 => Ok(UpdateMessageSubErr::MissingWellKnownAttribute),
            4 => Ok(UpdateMessageSubErr::AttributeFlagsError),
            5 => Ok(UpdateMessageSubErr::AttributeLengthError),
            6 => Ok(UpdateMessageSubErr::InvalidOriginAttribute),
            7 => Ok(UpdateMessageSubErr::ASRoutingLoop),
            8 => Ok(UpdateMessageSubErr::InvalidNextHopAttribute),
            9 => Ok(UpdateMessageSubErr::OptionalAttributeError),
            10 => Ok(UpdateMessageSubErr::InvalidNetworkField),
            11 => Ok(UpdateMessageSubErr::MalformedAsPath),
            _ => Err(value),
        }
    }
}

impl vstd::std_specs::convert::TryFromSpecImpl<u8> for UpdateMessageSubErr {
    open spec fn obeys_try_from_spec() -> bool {
        true
    }

    open spec fn try_from_spec(v: u8) -> Result<UpdateMessageSubErr, u8> {
        match update_message_sub_err_of(v) {
            Some(s) => Ok(s),
            None => Err(v),
        }
    }
}

} // verus!
