//! Uniform sampling of a random value inside an inclusive range.

use vstd::prelude::*;
use crate::errors::Error;

verus! {

/// The value sampled from the inclusive range between `min` and `max`
/// (in either argument order) for a given random byte: the byte is reduced
/// modulo the window size and shifted to the lower bound.
pub open spec fn spec_sample(min: u8, max: u8, byte: u8) -> u8 {
    let lo: u8 = if min <= max {
        min
    } else {
        max
    };
    let hi: u8 = if min <= max {
        max
    } else {
        min
    };
    if lo == hi {
        lo
    } else {
        ((lo + (byte as int) % (hi - lo + 1)) as u8)
    }
}

/// Reduces one random byte to the inclusive range between `min` and `max`.
/// The arguments may come in either order; the window arithmetic is widened
/// so that a range reaching 255 cannot wrap.
pub fn sample(min: u8, max: u8, byte: u8) -> (r: u8)
    ensures
        r == spec_sample(min, max, byte),
        min <= max ==> min <= r <= max,
        max <= min ==> max <= r <= min,
{
    let lo: u8 = if min <= max {
        min
    } else {
        max
    };
    let hi: u8 = if min <= max {
        max
    } else {
        min
    };
    if lo == hi {
        lo
    } else {
        let window: u16 = (hi - lo) as u16 + 1;
        lo + (byte as u16 % window) as u8
    }
}

/// Sampling treats its bounds symmetrically: swapping the arguments draws
/// from the same corrected range and yields the same value for the same
/// random byte.
pub proof fn lemma_sample_symmetric(min: u8, max: u8, byte: u8)
    ensures
        spec_sample(min, max, byte) == spec_sample(max, min, byte),
{
}

/// Draws four bytes from the process's entropy source.
///
/// Relies on `getrandom::fill`: it fills the buffer from the operating
/// system's entropy source or fails.  Nothing is assumed about the values
/// drawn.
#[verifier::external_body]
fn entropy_bytes() -> (r: Option<[u8; 4]>) {
    let mut b = [0u8; 4];
    match getrandom::fill(&mut b) {
        Ok(()) => Some(b),
        Err(_) => None,
    }
}

/// Draws entropy and returns a value in the inclusive range between `min`
/// and `max`, in either argument order.  Equal bounds yield that bound
/// before any entropy is read, so there success is owed; otherwise the
/// call fails only when the entropy source fails.
pub fn generate_randomness(min: u8, max: u8) -> (r: Result<u8, Error>)
    ensures
        min == max ==> r == Ok::<u8, Error>(min),
        r matches Ok(v) ==> exists|b: u8| v == spec_sample(min, max, b),
        r matches Ok(v) ==> (if min <= max {
            min <= v <= max
        } else {
            max <= v <= min
        }),
        r matches Err(e) ==> e == Error::SamplingFailure,
{
    if min == max {
        proof {
            assert(min == spec_sample(min, max, 0u8));
        }
        return Ok(min);
    }
    match entropy_bytes() {
        Some(bytes) => {
            let v = sample(min, max, bytes[0]);
            proof {
                assert(v == spec_sample(min, max, bytes[0]));
            }
            Ok(v)
        },
        None => Err(Error::SamplingFailure),
    }
}

} // verus!
