//! The websocket handler, which has three main responsibilities:
//!
//! 1. it makes the initial HTTP exchange and processes the response
//!    ([`handshake`], [`response`], [`start`]);
//! 2. it propagates what the page sends, and its close, to the network
//!    ([`dom_listener`], [`event_loop`]);
//! 3. it transmits incoming messages, and the peer's close, to the page
//!    ([`event_loop`]).

pub mod dom_listener;
pub mod error;
pub mod event_loop;
pub mod handshake;
pub mod response;
pub mod start;
