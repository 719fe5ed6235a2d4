//! Client-side codec and exchange logic for a small UDP rendezvous protocol.
//!
//! The crate has three parts: a wire codec translating typed requests and
//! responses to and from raw byte buffers (two incompatible protocol
//! revisions, selected explicitly), an exchange state machine driving the
//! bounded NAT-punch-then-connect sequence, and the session-lookup data
//! model used to annotate the final report.

pub mod codec;
pub mod exchange;
pub mod laws;
pub mod request;
pub mod response;
pub mod session;
pub mod wire;

