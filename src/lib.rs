//! Distributed random value generation for a small set of participants.
//!
//! Each participant commits to a private `u64` contribution with a keyed
//! digest, the commitments are collected in an [`Exchange`], and the secrets
//! are then revealed into a [`Reveal`], which checks each one against its
//! commitment and combines the contributions with XOR.
pub mod commit;
pub mod encoding;
pub mod errors;
pub mod exchange;
pub mod mac;
pub mod revealing;
pub mod secret;

pub use commit::Commit;
pub use errors::{Error, RevealError, RevealErrorKind};
pub use exchange::Exchange;
pub use revealing::Reveal;
pub use secret::Secret;
