//! The protocol of a Bitcoin peer, without its sockets.
//!
//! Every decision that a peer connection takes (what to answer, what to keep for later,
//! which transactions to ask for, when to give up) is a function of plain values here.
//! Whoever owns the socket performs the sends and the waits that these functions ask for
//! and reports how they went.

pub mod mempool;
pub mod networking;
pub mod primitives;
