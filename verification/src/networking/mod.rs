//! A connection to one peer

pub mod error;
pub mod message;
pub mod reader;
pub mod inbox;
pub mod handshake;
pub mod peer;
pub mod request;
