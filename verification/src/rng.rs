//! The injected random-byte capability: the trait grid construction draws
//! from, and its implementation backed by the operating system.

use vstd::prelude::*;

use crate::WorldError;

verus! {

/// A source of unpredictable bytes, injected into grid construction rather
/// than reached as an ambient global. Nothing can be promised about the
/// bytes themselves; a filled buffer keeps its length.
pub trait RandomByteSource {
    /// Fill the whole buffer with bytes from the source, or fail.
    fn fill(&mut self, buf: &mut Vec<u8>) -> (r: Result<(), WorldError>)
        ensures
            final(buf)@.len() == old(buf)@.len(),
            r matches Err(e) ==> e == WorldError::RandomSource,
    ;
}

/// The operating system's secure random source.
pub struct OsRandomSource;

#[verifier::external_type_specification]
#[verifier::external_body]
pub struct ExGetrandomError(getrandom::Error);

/// Relies on getrandom::getrandom: it fills the whole slice with bytes from
/// the system's preferred random source, or returns an error (with the
/// buffer's contents then unspecified). Either way the slice, and so the
/// vector, keeps its length.
#[verifier::external_body]
fn os_fill_bytes(buf: &mut Vec<u8>) -> (r: Result<(), getrandom::Error>)
    ensures
        final(buf)@.len() == old(buf)@.len(),
{
    getrandom::getrandom(buf.as_mut_slice())
}

impl RandomByteSource for OsRandomSource {
    fn fill(&mut self, buf: &mut Vec<u8>) -> (r: Result<(), WorldError>) {
        match os_fill_bytes(buf) {
            Ok(()) => Ok(()),
            Err(_) => Err(WorldError::RandomSource),
        }
    }
}

} // verus!
