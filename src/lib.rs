//! Core of a terminal client for a streaming chat-completion service:
//! the decoder that rebuilds a reply from a server-sent-event body, the
//! framing of requests and persisted logs, the session store's rules and
//! the command state machine that drives one turn at a time.

pub mod text;
pub mod message;
pub mod json;
pub mod decoder;
pub mod wire;
pub mod transport;
pub mod store;
pub mod controller;
