//! What can be wrong with a handshake, before or after it was made.

use http::header::InvalidHeaderValue;
use vstd::prelude::*;

verus! {

/// Why a handshake request could not be built, or its response was refused.
#[derive(Debug)]
pub enum Error {
    /// A header value would hold a byte that may not stand in one.
    HttpFormat(InvalidHeaderValue),
    /// The response breaks the protocol.
    Protocol(ProtocolError),
}

/// How a response breaks the protocol.
#[derive(Debug)]
pub enum ProtocolError {
    /// The header of this name is not acceptable.
    InvalidHeader(String),
}

/// An [`Error`], in terms of what it says.
pub enum Fault {
    HttpFormat,
    InvalidHeader(Seq<char>),
}

impl View for Error {
    type V = Fault;

    open spec fn view(&self) -> Fault {
        match self {
            Error::HttpFormat(_) => Fault::HttpFormat,
            Error::Protocol(ProtocolError::InvalidHeader(name)) => Fault::InvalidHeader(name@),
        }
    }
}

/// An error says which kind it is, and which header is not acceptable.
pub proof fn law_errors_say_what_they_hold(error: InvalidHeaderValue, name: String)
    ensures
        Error::HttpFormat(error)@ == Fault::HttpFormat,
        Error::Protocol(ProtocolError::InvalidHeader(name))@ == Fault::InvalidHeader(name@),
{
}

} // verus!
