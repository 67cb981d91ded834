//! Random bytes from the operating system, and the numbers made of them.

use vstd::prelude::*;

verus! {

/// `getrandom::fill` on `n` bytes: the bytes, or the error's message. Nothing is claimed of the
/// bytes but their number.
#[verifier::external_body]
pub(crate) fn random_bytes(n: usize) -> (r: Result<Vec<u8>, String>)
    ensures
        r matches Ok(b) ==> b@.len() == n,
{
    let mut bytes = vec![0u8; n];
    match getrandom::fill(&mut bytes) {
        Ok(()) => Ok(bytes),
        Err(e) => Err(e.to_string()),
    }
}

/// The number the bytes make, least significant first.
fn number_of(bytes: &[u8]) -> (r: u64)
    requires
        bytes@.len() <= 8,
{
    let mut acc: u64 = 0;
    let mut i: usize = bytes.len();
    while i > 0
        invariant
            i <= bytes@.len(),
        decreases i,
    {
        i -= 1;
        acc = (acc << 8u64) | (bytes[i] as u64);
    }
    acc
}

/// A random `u32` from the operating system's random bytes; zero when it gives none.
pub(crate) fn random_u32() -> (r: u32) {
    match random_bytes(4) {
        Ok(b) => {
            let n = number_of(b.as_slice());
            (n & 0xffff_ffffu64) as u32
        },
        Err(_) => 0,
    }
}

/// A random `usize` from the operating system's random bytes (eight of them, cut to the width
/// of `usize`); zero when it gives none.
pub(crate) fn random_usize() -> (r: usize) {
    match random_bytes(8) {
        Ok(b) => {
            let n = number_of(b.as_slice());
            #[verifier::truncate]
            (n as usize)
        },
        Err(_) => 0,
    }
}

} // verus!
