//! A verified completion relay: it resolves upstream credentials, builds the
//! single outbound request to a text-generation endpoint, interprets the
//! partially trusted response body through a layered fallback policy, and
//! re-encodes the final text as a server-sent-event frame sequence ending in
//! a sentinel frame.

pub mod config;
pub mod edge;
pub mod frame;
pub mod interpret;
pub mod request;
pub mod text;
