//! A session-oriented client for a remote-application protocol (RCP).
//!
//! The crate is organised around five pieces:
//! - [`state`]: the session lifecycle and which operation is legal in
//!   which state;
//! - [`codec`]: the wire format for client/server messages, with a
//!   proved encode/decode round trip;
//! - [`transport`]: a deterministic, scripted link model that stands in
//!   for a network connection and counts every call made on it;
//! - [`client`]: the facade that drives transport, codec and state
//!   machine to connect, authenticate, list and launch remote
//!   applications, and log out;
//! - [`boundary`]: the adapter that wraps each facade outcome in an
//!   owned, explicitly released result envelope.

pub mod boundary;
pub mod client;
pub mod codec;
pub mod state;
pub mod transport;
