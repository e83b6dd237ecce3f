//! Signalling state, capture framing and sender configuration for a
//! desktop-audio relay.

pub mod bean;
pub mod capture;
pub mod laws;
pub mod mapper;
pub mod reply;
pub mod route;
pub mod sender;
