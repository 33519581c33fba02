//! Bytes from the system's random source.

use vstd::prelude::*;
use crate::error::Error;
use crate::primitives::system_random;

verus! {

/// What a draw from the random source comes to: the bytes it gave, or
/// `RandomnessUnavailable` where it gave none.
pub fn drawn<const N: usize>(outcome: Result<[u8; N], ring::error::Unspecified>) -> (r: Result<
    [u8; N],
    Error,
>)
    ensures
        r is Err <==> outcome is Err,
        r matches Err(e) ==> e == Error::RandomnessUnavailable,
        r matches Ok(bytes) ==> outcome == Ok::<[u8; N], ring::error::Unspecified>(bytes),
{
    match outcome {
        Ok(bytes) => Ok(bytes),
        Err(_) => Err(Error::RandomnessUnavailable),
    }
}

/// Draws `N` fresh random bytes.
///
/// Fails with `RandomnessUnavailable`, and with nothing else, when the
/// system's source gives no bytes.
pub fn random_bytes<const N: usize>() -> (r: Result<[u8; N], Error>)
    ensures
        r matches Err(e) ==> e == Error::RandomnessUnavailable,
{
    drawn(system_random::<N>())
}

} // verus!
