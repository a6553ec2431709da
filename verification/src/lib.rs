//! Core logic of a serial-port terminal: text and byte codecs, the send
//! history, the quick-command slots, the receive buffer and the decisions
//! taken around opening ports and fixing drivers.

pub mod text;
pub mod types;
pub mod backend;
pub mod clock;
pub mod session;
pub mod controller;
pub mod laws;
