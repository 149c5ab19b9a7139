//! The vector storage and the heap-allocated buffer built on it.

use vstd::prelude::*;

use crate::view::{zeros, BufferView};
use crate::{rotate_left, CircularBuffer, Storage};

verus! {

impl crate::sealed::StorageBase for Vec<u8> {}

impl Storage for Vec<u8> {
    open spec fn contents(&self) -> Seq<u8> {
        self@
    }

    fn len(&self) -> (r: usize) {
        self.len()
    }

    fn as_slice(&self) -> (r: &[u8]) {
        self.as_slice()
    }

    fn as_mut_slice(&mut self) -> (r: &mut [u8]) {
        self.as_mut_slice()
    }

    fn split_at(&self, offset: usize) -> (r: (&[u8], &[u8])) {
        self.as_slice().split_at(offset)
    }

    fn split_at_mut(&mut self, offset: usize) -> (r: (&mut [u8], &mut [u8])) {
        self.as_mut_slice().split_at_mut(offset)
    }

    open spec fn zeroize_keeps_len() -> bool {
        false
    }

    fn zeroize(&mut self) {
        crate::wipe::zeroize_vec(self)
    }
}

/// A circular buffer backed by a heap-allocated `Vec<u8>`.
pub type HeapBuffer = CircularBuffer<Vec<u8>>;

impl CircularBuffer<Vec<u8>> {
    /// Creates a new buffer with the specified capacity.
    ///
    /// This allocates a `Vec` of `capacity` bytes filled with zeros. `capacity` must not be 0.
    pub fn new(capacity: usize) -> (r: Self)
        requires
            capacity > 0,
        ensures
            r@ == BufferView::empty_over(zeros(capacity as nat)),
            r@.wf(),
    {
        let storage = vec![0u8; capacity];
        assert(storage@ =~= zeros(capacity as nat));
        Self::_new_with_storage(storage)
    }

    /// Attempts to resize the buffer to a `new_capacity`.
    ///
    /// # Growing
    /// If `new_capacity` is larger than the current capacity, the buffer is extended.
    /// Readable data that wraps around the end of the storage is first made contiguous (see
    /// [`make_contiguous`](CircularBuffer::make_contiguous)), so the data is kept. At the
    /// current capacity the buffer is left as it is.
    ///
    /// # Shrinking
    /// If `new_capacity` is smaller, the buffer attempts to shrink.
    /// * This operation forces the buffer to become contiguous (see
    ///   [`make_contiguous`](CircularBuffer::make_contiguous)); where the read position or
    ///   the data would still lie past `new_capacity`, the data is moved to the front of the
    ///   storage.
    /// * The operation fails if the active data (`remaining()`) is larger than `new_capacity`.
    ///
    /// # Errors
    ///
    /// Returns `Err(usize)` if the buffer cannot be shrunk because it currently holds too much
    /// data. The error value is the number of bytes that must be consumed (read) before this
    /// resize can succeed. The buffer is then left unchanged.
    ///
    /// `new_capacity` must not be 0.
    pub fn try_resize(&mut self, new_capacity: usize) -> (r: Result<(), usize>)
        requires
            old(self)@.wf(),
            new_capacity > 0,
        ensures
            final(self)@.wf(),
            new_capacity >= old(self)@.capacity() ==> r == Ok::<(), usize>(())
                && final(self)@ == old(self)@.grown(new_capacity as nat),
            new_capacity == old(self)@.capacity() ==> r == Ok::<(), usize>(()) && final(self)@
                == old(self)@,
            r is Ok ==> final(self)@.capacity() == new_capacity && final(self)@.data() == old(
                self,
            )@.data(),
            new_capacity < old(self)@.capacity() && old(self)@.len > new_capacity ==> r
                == Err::<(), usize>((old(self)@.len - new_capacity) as usize) && final(self)@
                == old(self)@,
            new_capacity < old(self)@.capacity() && old(self)@.len <= new_capacity ==> r
                == Ok::<(), usize>(()) && final(self)@ == old(self)@.shrunk(new_capacity as nat),
    {
        if new_capacity >= self.capacity() {
            // growing (or keeping the capacity, which changes nothing)
            if new_capacity > self.capacity() {
                // data that wraps would otherwise be read from the new bytes
                self.make_contiguous();
            }
            proof {
                crate::view::lemma_made_contiguous(old(self)@);
            }
            let ghost c = self@;
            self.bytes.resize(new_capacity, 0u8);
            assert(self@.storage =~= c.storage + zeros((new_capacity - c.capacity()) as nat));
        } else {
            // shrinking
            if self.remaining() > new_capacity {
                // not enough empty space to shrink
                let extra_bytes_needed = self.remaining() - new_capacity;
                return Err(extra_bytes_needed);
            }
            self.make_contiguous();
            proof {
                crate::view::lemma_made_contiguous(old(self)@);
            }
            if self.start >= new_capacity || self.start + self.size > new_capacity {
                // the read position or the data would lie past the new end: move the data
                // to the front
                let start = self.start;
                self.start = 0;
                rotate_left(self.bytes.as_mut_slice(), start);
            }
            self.bytes.truncate(new_capacity);
        }
        Ok(())
    }
}

impl From<Vec<u8>> for CircularBuffer<Vec<u8>> {
    /// Converts an existing `Vec<u8>` into a `HeapBuffer`, reusing the `Vec` as the storage
    /// mechanism for the buffer. The buffer starts empty; its capacity is the length of the
    /// vector.
    ///
    /// A vector without any allocation, such as `Vec::new()`, gives a buffer of capacity 0,
    /// which holds nothing and accepts no bytes. (This conversion cannot refuse it: `From`
    /// admits no precondition, and a vector's allocation is not part of what can be stated
    /// of it here.)
    fn from(value: Vec<u8>) -> (r: Self)
        ensures
            r@ == BufferView::empty_over(value@),
            r@.wf(),
    {
        assert(value@.len() == value.len());
        Self::_new_with_storage(value)
    }
}

impl vstd::std_specs::convert::FromSpecImpl<Vec<u8>> for CircularBuffer<Vec<u8>> {
    open spec fn obeys_from_spec() -> bool {
        true
    }

    open spec fn from_spec(v: Vec<u8>) -> Self {
        CircularBuffer::<Vec<u8>>::over_storage(v)
    }
}

} // verus!
