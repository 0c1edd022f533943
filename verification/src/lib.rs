//! Brute-force search engine for Bitcoin Taproot vanity addresses.
//!
//! The library holds the verified core: the pattern matcher, the
//! difficulty estimator, the per-candidate worker step, and the
//! termination-policy state machine. Key generation and address
//! encoding are delegated to outside cryptographic crates behind
//! trusted wrappers.

pub mod controller;
pub mod difficulty;
pub mod keygen;
pub mod pattern;
pub mod render;
pub mod worker;
