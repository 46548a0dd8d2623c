//! Client-side core for a PBX control protocol that pairs a REST command
//! surface with a WebSocket event stream.
//!
//! The crate covers the connection and event layer and the authenticated
//! request layer: building authenticated, correctly encoded request URLs from
//! typed parameter bags, decoding the heterogeneous JSON event payloads into a
//! closed set of typed variants, and driving the WebSocket session (keepalive,
//! orderly shutdown) as a pure state machine.  All of it is specified and
//! verified; the thin asynchronous shell that performs the actual network
//! calls lives outside the library and only dispatches what the library
//! decides.

pub mod auth;
pub mod baseurl;
pub mod bridge;
pub mod channel;
pub mod client;
pub mod device;
pub mod error;
pub mod event;
pub mod json;
pub mod params;
pub mod percent;
pub mod playback;
pub mod query;
pub mod recording;
pub mod request_client;
pub mod text;
pub mod variable;
