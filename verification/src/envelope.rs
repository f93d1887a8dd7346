//! The uniform reply shape used for every outcome of a request: a message and a status.

use vstd::prelude::*;
use vstd::string::StringExecFns;

verus! {

/// Outcome class of a reply.
#[derive(Clone, Copy, Debug, PartialEq, Eq, Structural)]
pub enum StatusCode {
    Success,
    BadRequest,
    NotFound,
    InternalServerError,
}

impl StatusCode {
    /// The numeric status that this class is reported as.
    pub open spec fn number(self) -> int {
        match self {
            StatusCode::Success => 200,
            StatusCode::BadRequest => 400,
            StatusCode::NotFound => 404,
            StatusCode::InternalServerError => 500,
        }
    }

    /// The numeric status that this class is reported as.
    pub fn as_u16(self) -> (n: u16)
        ensures
            n == self.number(),
    {
        match self {
            StatusCode::Success => 200,
            StatusCode::BadRequest => 400,
            StatusCode::NotFound => 404,
            StatusCode::InternalServerError => 500,
        }
    }
}

/// A reply: what is written back to the client, whatever the outcome.
#[derive(Clone, Debug, PartialEq, Eq)]
pub struct Envelope {
    pub message: String,
    pub code: StatusCode,
}

/// What an [`Envelope`] holds.
pub struct EnvelopeView {
    pub message: Seq<char>,
    pub code: StatusCode,
}

impl View for Envelope {
    type V = EnvelopeView;

    open spec fn view(&self) -> EnvelopeView {
        EnvelopeView { message: self.message@, code: self.code }
    }
}

/// The reply to a request that was carried out, with the given message.
pub open spec fn success(message: Seq<char>) -> EnvelopeView {
    EnvelopeView { message, code: StatusCode::Success }
}

/// The reply to a request that the client got wrong, with the given message.
pub open spec fn bad_request(message: Seq<char>) -> EnvelopeView {
    EnvelopeView { message, code: StatusCode::BadRequest }
}

/// The reply to a request on which the store failed, with the given message.
pub open spec fn internal_error(message: Seq<char>) -> EnvelopeView {
    EnvelopeView { message, code: StatusCode::InternalServerError }
}

impl Envelope {
    /// A reply with the given message and status.
    pub fn new(message: &str, code: StatusCode) -> (envelope: Envelope)
        ensures
            envelope@ == (EnvelopeView { message: message@, code }),
    {
        Envelope { message: String::from_str(message), code }
    }
}

} // verus!
