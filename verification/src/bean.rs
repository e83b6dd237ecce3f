//! Request bodies and stored session descriptions of the signalling server.

use vstd::prelude::*;

verus! {

/// Body of a publish-offer request: the SDP offer of a publisher.
#[derive(Debug, Clone, PartialEq, Eq)]
pub struct ReqOffer {
    pub sdp: String,
}

/// Body of a fetch-offer request: the id the publisher was given.
#[derive(Debug, Clone, Copy, PartialEq, Eq)]
pub struct ReqGetOffer {
    pub id: u32,
}

/// Body of a submit-answer request: the SDP answer of a subscriber for an offer id.
#[derive(Debug, Clone, PartialEq, Eq)]
pub struct ReqAnswer {
    pub id: u32,
    pub sdp: String,
}

/// Body of a fetch-answer request.
#[derive(Debug, Clone, Copy, PartialEq, Eq)]
pub struct ReqGetAnswer {
    pub id: u32,
}

/// A stored offer: its SDP text and the second (since the Unix epoch) it was added.
#[derive(Debug, Clone, PartialEq, Eq)]
pub struct Offer {
    pub sdp: String,
    pub add_time: u64,
}

/// A stored answer: its SDP text and the second (since the Unix epoch) it was added.
#[derive(Debug, Clone, PartialEq, Eq)]
pub struct Answer {
    pub sdp: String,
    pub add_time: u64,
}

} // verus!
