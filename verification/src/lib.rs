//! The session engine of a WHIP/WHEP streaming peer: host candidate
//! discovery, the SDP signaling exchange with redirect handling and
//! answer sanitization, the drive loop of the negotiation state machine,
//! and the media pump between the codec engine and the transport.
//!
//! The negotiation internals are delegated to the `str0m` state machine;
//! sockets, HTTP, clocks and the codec engine live outside the library
//! and are driven through the decisions and values these modules hand
//! out.

pub mod cli;
pub mod client;
pub mod net4;
pub mod pump;
pub mod sdp;
pub mod signal;
