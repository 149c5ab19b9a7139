//! The array storage and the stack-allocated buffer built on it.

use vstd::prelude::*;

use crate::view::{zeros, BufferView};
use crate::{CircularBuffer, Storage};

verus! {

impl<const N: usize> crate::sealed::StorageBase for [u8; N] {}

impl<const N: usize> Storage for [u8; N] {
    open spec fn contents(&self) -> Seq<u8> {
        self@
    }

    fn len(&self) -> (r: usize) {
        N
    }

    fn as_slice(&self) -> (r: &[u8]) {
        self.as_slice()
    }

    fn as_mut_slice(&mut self) -> (r: &mut [u8]) {
        self
    }

    fn split_at(&self, offset: usize) -> (r: (&[u8], &[u8])) {
        self.as_slice().split_at(offset)
    }

    fn split_at_mut(&mut self, offset: usize) -> (r: (&mut [u8], &mut [u8])) {
        let s: &mut [u8] = self;
        s.split_at_mut(offset)
    }

    open spec fn zeroize_keeps_len() -> bool {
        true
    }

    fn zeroize(&mut self) {
        crate::wipe::zeroize_array(self)
    }
}

/// A circular buffer backed by a stack-allocated array `[u8; N]`.
pub type StackBuffer<const N: usize> = CircularBuffer<[u8; N]>;

impl<const N: usize> CircularBuffer<[u8; N]> {
    /// Creates a new buffer with capacity `N`, whose storage is all zeros.
    ///
    /// `N` must not be 0.
    pub fn new() -> (r: Self)
        requires
            N > 0,
        ensures
            r@ == BufferView::empty_over(zeros(N as nat)),
            r@.wf(),
    {
        let storage = [0u8; N];
        assert(storage@ =~= zeros(N as nat));
        Self::_new_with_storage(storage)
    }
}

} // verus!
