//! Zeroization of the storage types, done by the `zeroize` crate.

use vstd::prelude::*;

use crate::view::zeros;

verus! {

/// Calls `zeroize::Zeroize::zeroize` on a `Vec<u8>`.
///
/// That impl overwrites the spare capacity and every element with zeros through volatile
/// writes and then clears the vector. The contract claims only that the vector is empty
/// afterwards; the wiping of the memory itself is not expressed.
#[verifier::external_body]
pub(crate) fn zeroize_vec(v: &mut Vec<u8>)
    ensures
        final(v)@ == Seq::<u8>::empty(),
{
    zeroize::Zeroize::zeroize(v)
}

/// Calls `zeroize::Zeroize::zeroize` on a `[u8; N]`.
///
/// That impl writes zero into every element through volatile writes. The contract claims that
/// every byte of the array is zero afterwards.
#[verifier::external_body]
pub(crate) fn zeroize_array<const N: usize>(a: &mut [u8; N])
    ensures
        final(a)@ == zeros(N as nat),
{
    zeroize::Zeroize::zeroize(a)
}

} // verus!
