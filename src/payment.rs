//! The 32-byte values that identify and authenticate a payment.

use vstd::prelude::*;

verus! {

/// The hash that locks a payment's HTLCs along its route.
#[derive(Debug, Clone, Copy)]
pub struct PaymentHash(pub [u8; 32]);

/// The preimage of a payment hash; revealing it claims the payment.
#[derive(Debug, Clone, Copy)]
pub struct PaymentPreimage(pub [u8; 32]);

/// A secret shared between payer and payee that authenticates the payer and ties the parts
/// of a multi-part payment together.
#[derive(Debug, Clone, Copy)]
pub struct PaymentSecret(pub [u8; 32]);

} // verus!
