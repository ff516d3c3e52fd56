//! Commit-reveal random number generation with escrowed incentives.
//!
//! A creator opens a cycle by escrowing a bounty; generators commit the
//! Keccak-256 hash of a secret, later reveal the secret, and the cycle's
//! random number is the exclusive-or of every correctly revealed secret.

pub mod encoding;
pub mod types;
pub mod balances;
pub mod registry;
pub mod engine;
pub mod pallet;
pub mod weights;
