//! The errors the window manager answers a request with.

use vstd::prelude::*;
use vstd::std_specs::convert::FromSpecImpl;
use crate::com::packet::PacketParseErr;
use crate::com::request::RequestParseErr;

verus! {

/// Why a request failed.
#[derive(Debug, Clone, Copy, PartialEq, Eq, Structural)]
pub enum ResponseError {
    /// The packet did not start with the magic number of a request.
    InvalidMagic,
    /// The kind of the request is not a known one.
    InvalidRequestKind,
    /// The packet was shorter than its kind requires.
    PacketTooShort,
    /// A field of the request was malformed.
    InvalidData,
    /// The window could not be allocated.
    UnknownFatalError,
    /// The request named a window that does not exist.
    UnknownWindow,
}

impl ResponseError {
    /// The number that stands for this error on the wire.
    pub open spec fn spec_number(self) -> u32 {
        match self {
            ResponseError::InvalidMagic => 0,
            ResponseError::InvalidRequestKind => 1,
            ResponseError::PacketTooShort => 2,
            ResponseError::InvalidData => 3,
            ResponseError::UnknownFatalError => 4,
            ResponseError::UnknownWindow => 5,
        }
    }

    /// The error that `n` stands for, if any.
    pub open spec fn spec_from_number(n: u32) -> Option<ResponseError> {
        if n == 0 {
            Some(ResponseError::InvalidMagic)
        } else if n == 1 {
            Some(ResponseError::InvalidRequestKind)
        } else if n == 2 {
            Some(ResponseError::PacketTooShort)
        } else if n == 3 {
            Some(ResponseError::InvalidData)
        } else if n == 4 {
            Some(ResponseError::UnknownFatalError)
        } else if n == 5 {
            Some(ResponseError::UnknownWindow)
        } else {
            None
        }
    }

    /// The number that stands for this error on the wire.
    pub fn number(self) -> (n: u32)
        ensures
            n == self.spec_number(),
    {
        match self {
            ResponseError::InvalidMagic => 0,
            ResponseError::InvalidRequestKind => 1,
            ResponseError::PacketTooShort => 2,
            ResponseError::InvalidData => 3,
            ResponseError::UnknownFatalError => 4,
            ResponseError::UnknownWindow => 5,
        }
    }

    /// The error that `n` stands for, if any.
    pub fn from_number(n: u32) -> (e: Option<ResponseError>)
        ensures
            e == Self::spec_from_number(n),
    {
        if n == 0 {
            Some(ResponseError::InvalidMagic)
        } else if n == 1 {
            Some(ResponseError::InvalidRequestKind)
        } else if n == 2 {
            Some(ResponseError::PacketTooShort)
        } else if n == 3 {
            Some(ResponseError::InvalidData)
        } else if n == 4 {
            Some(ResponseError::UnknownFatalError)
        } else if n == 5 {
            Some(ResponseError::UnknownWindow)
        } else {
            None
        }
    }

    /// The reply that tells a client how its packet failed to parse.
    pub open spec fn spec_from_parse_err(value: PacketParseErr) -> ResponseError {
        match value {
            PacketParseErr::InvalidMagic => ResponseError::InvalidMagic,
            PacketParseErr::InvalidPacketSize => ResponseError::PacketTooShort,
            PacketParseErr::InvalidPacketKind => ResponseError::InvalidRequestKind,
            PacketParseErr::InvalidPacketData => ResponseError::InvalidData,
        }
    }
}

impl From<PacketParseErr> for ResponseError {
    fn from(value: PacketParseErr) -> (e: Self) {
        match value {
            PacketParseErr::InvalidMagic => ResponseError::InvalidMagic,
            PacketParseErr::InvalidPacketSize => ResponseError::PacketTooShort,
            PacketParseErr::InvalidPacketKind => ResponseError::InvalidRequestKind,
            PacketParseErr::InvalidPacketData => ResponseError::InvalidData,
        }
    }
}

impl FromSpecImpl<PacketParseErr> for ResponseError {
    open spec fn obeys_from_spec() -> bool {
        true
    }

    open spec fn from_spec(value: PacketParseErr) -> ResponseError {
        ResponseError::spec_from_parse_err(value)
    }
}

impl ResponseError {
    /// The reply that tells a client how its full packet failed to parse.
    pub open spec fn spec_from_request_err(value: RequestParseErr) -> ResponseError {
        match value {
            RequestParseErr::InvalidMagic => ResponseError::InvalidMagic,
            RequestParseErr::InvalidPacketSize => ResponseError::PacketTooShort,
            RequestParseErr::InvalidRequestKind => ResponseError::InvalidRequestKind,
        }
    }
}

impl From<RequestParseErr> for ResponseError {
    fn from(value: RequestParseErr) -> (e: Self) {
        match value {
            RequestParseErr::InvalidMagic => ResponseError::InvalidMagic,
            RequestParseErr::InvalidPacketSize => ResponseError::PacketTooShort,
            RequestParseErr::InvalidRequestKind => ResponseError::InvalidRequestKind,
        }
    }
}

impl FromSpecImpl<RequestParseErr> for ResponseError {
    open spec fn obeys_from_spec() -> bool {
        true
    }

    open spec fn from_spec(value: RequestParseErr) -> ResponseError {
        ResponseError::spec_from_request_err(value)
    }
}

} // verus!
