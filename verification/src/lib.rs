//! Chaotic-synchronisation stream cipher: the negotiation, synchronisation,
//! keystream and cipher rules of a session between two peers.
//!
//! Every floating-point quantity is carried as its IEEE-754 binary64 bit
//! pattern in a `u64`; the arithmetic on those values is done by the caller.

pub mod cipher;
pub mod convergence;
pub mod encoding;
pub mod error;
pub mod exchange;
pub mod frame;
pub mod initiator;
pub mod keystream;
pub mod negotiation;
pub mod responder;
pub mod session;
