//! Decoding of BGP-4 UPDATE messages, with the wire format's length and
//! encoding rules stated as contracts and proved.

pub mod buffer;
pub mod error;
pub mod prefix;
pub mod attribute;
pub mod ip;
pub mod update_message;
pub mod header;
pub mod notification;
pub mod open_message;
