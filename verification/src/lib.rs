//! A verified core for a self-perpetuating, randomness-driven fee schedule.
//!
//! A singleton schedule record tracks when the next transfer-fee update is
//! due and which randomness request is allowed to deliver it.  An attested
//! off-chain worker samples a random value, reports it through a callback,
//! and the schedule turns that value into the next update delay and the new
//! fee rate, then immediately re-arms the next request.

pub mod codec;
pub mod derivation;
pub mod errors;
pub mod identity;
pub mod sampler;
pub mod schedule;
pub mod utf8;
pub mod worker;
