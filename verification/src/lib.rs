//! Verified core of a browser engine's WebSocket and connection layer.
//!
//! - [`websocket_loader`]: the handshake request and its response, the start of
//!   a connection, and the loop that serves it.
//! - [`ws_map`]: WebSocket messages on the page's side and on the wire.
//! - [`connector`]: certificates to accept and the resolution of host names.
//! - [`servo_url`]: URLs.
//! - [`persona`]: the navigator identity that the embedder installs.
//! - [`foreign`]: the calls into other crates.
//!
//! The core decides and computes. What touches the network, threads, locks or
//! channels is done around it: the functions here are told what happened, and
//! say what is to be done.

pub mod connector;
pub mod foreign;
pub mod persona;
pub mod servo_url;
pub mod websocket_loader;
pub mod ws_map;
