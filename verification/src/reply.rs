//! What the signalling server answers to a request.

use vstd::prelude::*;

verus! {

/// The `stat` of a successful reply.
pub const SUCCESS_STAT: u32 = 0;

/// Why a request was refused.
#[derive(Debug, Clone, Copy, PartialEq, Eq)]
pub enum Fault {
    /// The body of an offer request did not parse.
    NotOfferBody,
    /// No offer is stored under the requested id.
    UnknownOffer,
    /// The body of an answer request did not parse.
    NotAnswerBody,
    /// An answer was submitted for an id that still holds an offer.
    IdMapsToOffer,
    /// The clock could not be read.
    ClockFailed,
    /// An answer was already stored under the id (it has been replaced).
    AnswerAddFailed,
    /// No answer is stored under the requested id.
    UnknownAnswer,
}

/// The reply to one request.
#[derive(Debug, Clone, PartialEq, Eq)]
pub enum Reply {
    /// No route matches the request.
    NotFound,
    /// The request was refused.
    Failed(Fault),
    /// Success, carrying an id.
    Id(u32),
    /// Success, carrying an SDP text.
    Sdp(String),
}

impl Fault {
    /// The status code of the fault: `2` for the server's own failures and a
    /// missing answer, `1` for everything else.
    pub open spec fn spec_stat(self) -> u32 {
        match self {
            Fault::ClockFailed | Fault::AnswerAddFailed | Fault::UnknownAnswer => 2,
            _ => 1,
        }
    }

    /// The human-readable message of the fault.
    pub open spec fn spec_message(self) -> Seq<char> {
        match self {
            Fault::NotOfferBody => "request body is not offer"@,
            Fault::UnknownOffer => "do not exit this offer id"@,
            Fault::NotAnswerBody => "request body is not answer"@,
            Fault::IdMapsToOffer => "id is duplicate, id maps to offer"@,
            Fault::ClockFailed => "server error, get time fail"@,
            Fault::AnswerAddFailed => "server error, add answer fail"@,
            Fault::UnknownAnswer => "do not exit this answer id"@,
        }
    }

    /// The status code of the fault.
    pub fn stat(&self) -> (s: u32)
        ensures
            s == self.spec_stat(),
    {
        match self {
            Fault::ClockFailed | Fault::AnswerAddFailed | Fault::UnknownAnswer => 2,
            _ => 1,
        }
    }

    /// The message of the fault.
    pub fn message(&self) -> (m: &'static str)
        ensures
            m@ == self.spec_message(),
    {
        match self {
            Fault::NotOfferBody => "request body is not offer",
            Fault::UnknownOffer => "do not exit this offer id",
            Fault::NotAnswerBody => "request body is not answer",
            Fault::IdMapsToOffer => "id is duplicate, id maps to offer",
            Fault::ClockFailed => "server error, get time fail",
            Fault::AnswerAddFailed => "server error, add answer fail",
            Fault::UnknownAnswer => "do not exit this answer id",
        }
    }
}

/// The message of a successful reply.
pub fn success_message() -> (m: &'static str)
    ensures
        m@ == "success"@,
{
    "success"
}

/// The whole body of the reply to a request that no route matches.
pub fn not_found_message() -> (m: &'static str)
    ensures
        m@ == "not found"@,
{
    "not found"
}

} // verus!
