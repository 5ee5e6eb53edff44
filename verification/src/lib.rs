//! A 1-out-of-n oblivious transfer protocol on an elliptic-curve group.
//!
//! A `Sender` holds n messages; a `Receiver` picks one index and learns
//! exactly that message, while the sender learns nothing about the index.
//! The group arithmetic, key derivation and symmetric encryption live in
//! `ec_handler`; the two protocol roles live in `ot`; the algebraic laws
//! that make the protocol correct are proved in `laws`; `framing` carries
//! batches of ciphertexts and the sender's offer over the wire; `messages`
//! builds the demo payload.

pub mod errors;
pub mod ec_handler;
pub mod ot;
pub mod laws;
pub mod framing;
pub mod messages;
