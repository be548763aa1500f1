//! Core of a bidirectional payment channel: per-commitment key derivation, commitment and
//! HTLC scripts, local commitment transactions, a signer that refuses to sign out of order,
//! breach-remedy monitoring, stateless inbound-payment authentication and feature bitfields.

pub mod commitment;
pub mod crypto;
pub mod features;
pub mod inbound_payment;
pub mod keys;
pub mod local_commitment;
pub mod monitor;
pub mod payment;
pub mod rng;
pub mod script;
pub mod signer;
pub mod transaction;
