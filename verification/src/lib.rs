//! Ring buffers for bytes, with heap and stack storage.
//!
//! A [`CircularBuffer`] holds its bytes in a storage of fixed length and keeps two cursors
//! over it: the read position and the number of readable bytes. Bytes are written into the
//! slices that [`CircularBuffer::as_mut_slices`] hands out and made readable with
//! [`CircularBuffer::commit`]; they are read through [`CircularBuffer::as_slices`] and
//! released with [`CircularBuffer::consume`].
//!
//! - [`HeapBuffer`] keeps its storage in a `Vec<u8>` and can be resized.
//! - [`StackBuffer`] keeps its storage in an array `[u8; N]`.
//!
//! The behaviour of every operation is stated over [`BufferView`], the model of a buffer.
use vstd::prelude::*;

mod array;
pub mod laws;
mod sealed;
mod vec;
pub mod view;
mod wipe;

pub use array::StackBuffer;
pub use vec::HeapBuffer;
pub use view::BufferView;

use view::{lemma_wrap_index_is_mod, rotated, zeros};

verus! {

/// Abstract storage backend for the circular buffer.
///
/// This trait is sealed: only the storage types of this crate implement it.
pub trait Storage: sealed::StorageBase {
    /// The bytes that the storage holds.
    spec fn contents(&self) -> Seq<u8>;

    fn len(&self) -> (r: usize)
        ensures
            r == self.contents().len(),
    ;

    fn as_slice(&self) -> (r: &[u8])
        ensures
            r@ == self.contents(),
    ;

    fn as_mut_slice(&mut self) -> (r: &mut [u8])
        ensures
            r@ == old(self).contents(),
            final(self).contents() == final(r)@,
    ;

    fn split_at(&self, offset: usize) -> (r: (&[u8], &[u8]))
        requires
            offset <= self.contents().len(),
        ensures
            r.0@ == self.contents().subrange(0, offset as int),
            r.1@ == self.contents().subrange(offset as int, self.contents().len() as int),
    ;

    fn split_at_mut(&mut self, offset: usize) -> (r: (&mut [u8], &mut [u8]))
        requires
            offset <= old(self).contents().len(),
        ensures
            r.0@ == old(self).contents().subrange(0, offset as int),
            r.1@ == old(self).contents().subrange(offset as int, old(self).contents().len() as int),
            final(self).contents() == final(r.0)@ + final(r.1)@,
    ;

    /// Whether zeroizing keeps the length of the storage; otherwise it empties the storage.
    spec fn zeroize_keeps_len() -> bool;

    /// Overwrites every byte with zero, then, unless the storage keeps its length, drops
    /// all bytes.
    fn zeroize(&mut self)
        ensures
            final(self).contents() == if Self::zeroize_keeps_len() {
                zeros(old(self).contents().len())
            } else {
                Seq::<u8>::empty()
            },
    ;
}

/// The core ring buffer logic generic over storage `S`.
///
/// Users should instantiate this via the type aliases [`HeapBuffer`] or [`StackBuffer`].
///
/// Its well-formedness, `self@.wf()`, is a precondition of the operations rather than a type
/// invariant: `as_mut_slices` lends parts of the storage out past its own return, and
/// resizing reallocates the storage in place, neither of which a type invariant lets through.
/// Every constructor establishes it and every operation keeps it.
pub struct CircularBuffer<S: Storage> {
    bytes: S,
    size: usize,
    start: usize,
}

impl<S: Storage> View for CircularBuffer<S> {
    type V = BufferView;

    closed spec fn view(&self) -> BufferView {
        BufferView { storage: self.bytes.contents(), head: self.start as nat, len: self.size as nat }
    }
}

impl<S: Storage> CircularBuffer<S> {
    /// The buffer that holds nothing over the storage `bytes`.
    pub closed spec fn over_storage(bytes: S) -> Self {
        CircularBuffer { bytes, size: 0, start: 0 }
    }

    /// The buffer built over `bytes` holds nothing and reads from the front of `bytes`.
    pub proof fn lemma_over_storage(bytes: S)
        ensures
            Self::over_storage(bytes)@ == BufferView::empty_over(bytes.contents()),
    {
    }

    fn _new_with_storage(bytes: S) -> (r: Self)
        requires
            bytes.contents().len() <= usize::MAX,
        ensures
            r == Self::over_storage(bytes),
            r@ == BufferView::empty_over(bytes.contents()),
            r@.wf(),
    {
        Self { bytes, size: 0, start: 0 }
    }

    /// Returns the total capacity of the buffer.
    ///
    /// This is the maximum number of bytes the buffer can hold at once.
    pub fn capacity(&self) -> (r: usize)
        ensures
            r == self@.capacity(),
    {
        self.bytes.len()
    }

    /// Returns `true` if the buffer contains no readable bytes.
    pub fn is_empty(&self) -> (r: bool)
        ensures
            r == (self@.len == 0),
    {
        self.size == 0
    }

    /// Returns the number of bytes currently available to read.
    pub fn remaining(&self) -> (r: usize)
        ensures
            r == self@.len,
    {
        self.size
    }

    /// Advances the read position by consuming `cnt` bytes.
    ///
    /// `cnt` must not be greater than [`remaining()`](Self::remaining).
    pub fn consume(&mut self, cnt: usize)
        requires
            old(self)@.wf(),
            cnt <= old(self)@.len,
        ensures
            final(self)@ == old(self)@.consumed(cnt as nat),
            final(self)@.wf(),
    {
        proof {
            view::lemma_consumed(self@, cnt as nat);
        }
        if cnt == 0 {
            return;
        }
        let capacity = self.bytes.len();
        let new_start = add_mod(self.start, cnt, capacity);
        proof {
            lemma_wrap_index_is_mod(self.start + cnt, capacity as int);
        }
        self.start = new_start;
        self.size -= cnt;
    }

    /// Resets the buffer to an empty state.
    ///
    /// This resets the read/write cursors. It does not zero out the underlying memory.
    pub fn reset(&mut self)
        requires
            old(self)@.wf(),
        ensures
            final(self)@ == old(self)@.cleared(),
            final(self)@.wf(),
            final(self)@.head == 0,
            final(self)@.len == 0,
            final(self)@.storage == old(self)@.storage,
            final(self)@.free() == old(self)@.storage,
            final(self)@.first_free_len() == old(self)@.capacity(),
    {
        proof {
            laws::lemma_cleared(old(self)@);
        }
        self.size = 0;
        self.start = 0;
    }

    /// Zeroes out the underlying storage and resets cursors.
    ///
    /// An array storage keeps its length; a vector storage is emptied, which leaves a buffer
    /// of capacity 0.
    pub fn zeroize(&mut self)
        requires
            old(self)@.wf(),
        ensures
            final(self)@.storage == if S::zeroize_keeps_len() {
                zeros(old(self)@.capacity())
            } else {
                Seq::<u8>::empty()
            },
            final(self)@.head == 0,
            final(self)@.len == 0,
            final(self)@.wf(),
    {
        self.bytes.zeroize();
        self.size = 0;
        self.start = 0;
    }

    /// Returns `true` if the buffer has no space for writing.
    pub fn is_full(&self) -> (r: bool)
        ensures
            r == (self@.len == self@.capacity()),
    {
        self.size == self.bytes.len()
    }

    /// Returns the number of bytes available for writing.
    pub fn remaining_mut(&self) -> (r: usize)
        requires
            self@.wf(),
        ensures
            r == self@.available(),
    {
        self.bytes.len() - self.size
    }

    /// Advances the write position by committing `cnt` bytes.
    ///
    /// This should be called after writing data into the slices returned by
    /// [`as_mut_slices`](Self::as_mut_slices). `cnt` must not be greater than
    /// [`remaining_mut()`](Self::remaining_mut).
    pub fn commit(&mut self, cnt: usize)
        requires
            old(self)@.wf(),
            cnt <= old(self)@.available(),
        ensures
            final(self)@ == old(self)@.committed(cnt as nat),
            final(self)@.wf(),
    {
        if cnt == 0 {
            return;
        }
        self.size += cnt;
    }

    /// Returns pairs of slices representing the readable data.
    ///
    /// Because the data is in a ring buffer, it may wrap around the end of the underlying
    /// storage.
    ///
    /// - If the data is contiguous, the second slice will be empty.
    /// - If the data wraps, the first slice contains the data up to the end of the buffer,
    ///   and the second slice contains the data from the start of the buffer.
    pub fn as_slices(&self) -> (r: (&[u8], &[u8]))
        requires
            self@.wf(),
        ensures
            r.0@ + r.1@ == self@.data(),
            r.0@.len() == self@.first_data_len(),
            r.0@.len() + r.1@.len() == self@.len,
    {
        let capacity = self.bytes.len();

        if capacity == 0 || self.is_empty() {
            return (&[], &[]);
        }
        let ghost v = self@;
        let start = self.start;
        let end = add_mod(self.start, self.size, capacity);
        proof {
            lemma_wrap_index_is_mod(start + self.size, capacity as int);
        }

        if start < end {
            let r: (&[u8], &[u8]) = (&self.bytes.as_slice()[start..end], &[]);
            assert(r.0@ + r.1@ =~= v.data());
            r
        } else {
            let (back, front) = self.bytes.split_at(start);
            let r: (&[u8], &[u8]) = (front, &back[0..end]);
            assert(r.0@ + r.1@ =~= v.data());
            r
        }
    }

    /// Returns the readable bytes that lie between the read position and the end of the
    /// storage, or, when there are none, the readable bytes at its start.
    pub fn chunk(&self) -> (r: &[u8])
        requires
            self@.wf(),
        ensures
            r@ == self@.data().subrange(0, self@.first_data_len() as int),
    {
        let (first, second) = self.as_slices();
        if !first.is_empty() {
            first
        } else {
            assert(second@ =~= self@.data().subrange(0, 0));
            second
        }
    }

    /// Returns pairs of mutable slices representing the writable space.
    ///
    /// Similar to [`as_slices`](Self::as_slices), the available space might be split
    /// into two parts if the read cursor is in the middle of the buffer.
    ///
    /// Write data to these slices, then call [`commit`](Self::commit) to make the data
    /// available for reading. What is written into the slices becomes the free space of the
    /// buffer, in order; the readable data is left as it was.
    pub fn as_mut_slices(&mut self) -> (r: (&mut [u8], &mut [u8]))
        requires
            old(self)@.wf(),
        ensures
            r.0@ + r.1@ == old(self)@.free(),
            r.0@.len() == old(self)@.first_free_len(),
            r.0@.len() + r.1@.len() == old(self)@.available(),
            final(self)@.head == old(self)@.head,
            final(self)@.len == old(self)@.len,
            final(self)@.storage == old(self)@.with_free_written(final(r.0)@, final(r.1)@),
            final(r.0)@.len() == r.0@.len() && final(r.1)@.len() == r.1@.len() ==> {
                &&& final(self)@.capacity() == old(self)@.capacity()
                &&& final(self)@.wf()
                &&& final(self)@.data() == old(self)@.data()
                &&& final(self)@.free() == final(r.0)@ + final(r.1)@
            },
    {
        let capacity = self.bytes.len();

        if capacity == 0 || self.size == capacity {
            return (&mut [], &mut []);
        }
        let ghost v = self@;
        let write_start = add_mod(self.start, self.size, capacity);
        let available = capacity - self.size;
        let write_end = add_mod(write_start, available, capacity);
        proof {
            lemma_wrap_index_is_mod(self.start + self.size, capacity as int);
            lemma_wrap_index_is_mod(write_start + available, capacity as int);
        }

        if write_start < write_end {
            let (before, _rest) = self.bytes.split_at_mut(write_end);
            let (_filled, first) = before.split_at_mut(write_start);
            let r: (&mut [u8], &mut [u8]) = (first, &mut []);
            assert(r.0@ + r.1@ =~= v.free());
            r
        } else {
            let (back, front) = self.bytes.split_at_mut(write_start);
            let (back_first, _filled) = back.split_at_mut(write_end);
            let r: (&mut [u8], &mut [u8]) = (front, back_first);
            assert(r.0@ + r.1@ =~= v.free());
            r
        }
    }

    /// Returns the writable space that lies between the write position and the end of the
    /// storage, or, when there is none, the writable space at its start.
    pub fn chunk_mut(&mut self) -> (r: &mut [u8])
        requires
            old(self)@.wf(),
        ensures
            r@ == old(self)@.free().subrange(0, old(self)@.first_free_len() as int),
            final(self)@.head == old(self)@.head,
            final(self)@.len == old(self)@.len,
            final(self)@.storage == if old(self)@.first_free_len() > 0 {
                old(self)@.with_free_written(
                    final(r)@,
                    old(self)@.free().subrange(
                        old(self)@.first_free_len() as int,
                        old(self)@.available() as int,
                    ),
                )
            } else {
                old(self)@.with_free_written(Seq::<u8>::empty(), final(r)@)
            },
            final(r)@.len() == r@.len() ==> {
                &&& final(self)@.capacity() == old(self)@.capacity()
                &&& final(self)@.wf()
                &&& final(self)@.data() == old(self)@.data()
                &&& final(self)@.free() == final(r)@ + old(self)@.free().subrange(
                    old(self)@.first_free_len() as int,
                    old(self)@.available() as int,
                )
            },
    {
        let ghost v = self@;
        let (first, second) = self.as_mut_slices();
        if !first.is_empty() {
            first
        } else {
            assert(second@ =~= v.free().subrange(0, 0));
            assert(first@ =~= v.free().subrange(0, 0));
            second
        }
    }

    /// Rotates the buffer contents to make the readable data contiguous.
    ///
    /// Returns a single slice containing all readable data.
    ///
    /// If the data is already contiguous, this is a no-op. If the data wraps around, this
    /// performs a memory rotation (O(N)).
    pub fn make_contiguous(&mut self) -> (r: &[u8])
        requires
            old(self)@.wf(),
        ensures
            final(self)@ == old(self)@.made_contiguous(),
            final(self)@.wf(),
            r@ == old(self)@.data(),
    {
        proof {
            view::lemma_made_contiguous(self@);
        }
        let capacity = self.bytes.len();

        if capacity == 0 || self.size == 0 {
            return &[];
        }
        let ghost v = self@;
        let start = self.start;

        if self.size <= capacity - start {
            // Already contiguous; nothing to do
            let r = &self.bytes.as_slice()[start..start + self.size];
            assert(r@ =~= v.data());
            r
        } else {
            // Not contiguous; need to rotate
            self.start = 0;
            rotate_left(self.bytes.as_mut_slice(), start);
            let r = &self.bytes.as_slice()[0..self.size];
            assert(r@ =~= self@.data());
            r
        }
    }
}

/// Reverses the bytes of `s` in the index range `lo..hi`, in place.
fn reverse_range(s: &mut [u8], lo: usize, hi: usize)
    requires
        lo <= hi <= old(s)@.len(),
    ensures
        final(s)@.len() == old(s)@.len(),
        forall|k: int|
            0 <= k < old(s)@.len() ==> #[trigger] final(s)@[k] == if lo <= k < hi {
                old(s)@[lo + hi - 1 - k]
            } else {
                old(s)@[k]
            },
{
    if hi - lo < 2 {
        return;
    }
    let mut i = lo;
    let mut j = hi - 1;
    while i < j
        invariant
            s@.len() == old(s)@.len(),
            lo <= i,
            j < hi,
            hi <= s@.len(),
            i + j == lo + hi - 1,
            i <= j + 1,
            forall|k: int|
                0 <= k < s@.len() ==> #[trigger] s@[k] == if lo <= k < i || j < k < hi {
                    old(s)@[lo + hi - 1 - k]
                } else {
                    old(s)@[k]
                },
        decreases j + 1 - i,
    {
        let t = s[i];
        s[i] = s[j];
        s[j] = t;
        i += 1;
        j -= 1;
    }
}

/// Rotates `s` in place so that the byte at index `mid` comes first.
fn rotate_left(s: &mut [u8], mid: usize)
    requires
        mid <= old(s)@.len(),
    ensures
        final(s)@ == rotated(old(s)@, mid as int),
{
    let n = s.len();
    reverse_range(s, 0, mid);
    reverse_range(s, mid, n);
    reverse_range(s, 0, n);
    assert(s@ =~= rotated(old(s)@, mid as int));
}

/// Returns `(x + y) % m` without overflowing, even where `x + y` does not fit in `usize`.
fn add_mod(x: usize, y: usize, m: usize) -> (r: usize)
    requires
        m > 0,
        x <= m,
        y <= m,
    ensures
        r == (x + y) % (m as int),
{
    match x.checked_add(y) {
        Some(z) => z % m,
        None => {
            let z = x.wrapping_add(y);
            proof {
                lemma_wrapped_add_mod(x, y, m, z as int);
            }
            (z + (usize::MAX % m + 1)) % m
        },
    }
}

/// Proof that the overflow-free computation of `add_mod` stays in range and agrees with
/// `(x + y) % m` when `x + y` wraps around `usize`.
proof fn lemma_wrapped_add_mod(x: usize, y: usize, m: usize, z: int)
    requires
        0 < m,
        x <= m,
        y <= m,
        x + y > usize::MAX,
        z == x + y - (usize::MAX + 1),
    ensures
        z + ((usize::MAX as int) % (m as int)) + 1 <= usize::MAX,
        (z + ((usize::MAX as int) % (m as int)) + 1) % (m as int) == (x + y) % (m as int),
{
    let mi = m as int;
    let big = usize::MAX as int;
    let q = big / mi;
    let t = big % mi + 1;
    vstd::arithmetic::div_mod::lemma_fundamental_div_mod(big, mi);
    assert(q >= 1) by {
        if q <= 0 {
            assert(mi * q <= 0) by (nonlinear_arith)
                requires
                    q <= 0,
                    mi > 0,
            ;
        }
    }
    assert(mi * q >= mi) by (nonlinear_arith)
        requires
            q >= 1,
            mi > 0,
    ;
    assert(x + y == mi * q + (z + t));
    vstd::arithmetic::div_mod::lemma_mod_multiples_vanish(q, z + t, mi);
}

} // verus!
