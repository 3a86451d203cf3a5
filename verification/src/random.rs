//! The operating system's random source.

use rand::rngs::OsRng;
use rand::RngCore;
use vstd::prelude::*;

verus! {

/// `RngCore::try_fill_bytes` of rand on `OsRng`: `N` bytes of the operating
/// system's random source, or nothing where the source fails. Nothing is
/// known of the bytes.
#[verifier::external_body]
pub(crate) fn draw<const N: usize>() -> (bytes: Option<[u8; N]>) {
    let mut buffer = [0u8; N];
    match OsRng.try_fill_bytes(&mut buffer) {
        Ok(()) => Some(buffer),
        Err(_) => None,
    }
}

} // verus!
