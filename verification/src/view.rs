//! The mathematical model of a ring buffer: its storage, the index at which the readable
//! data starts, and the number of readable bytes.

use vstd::prelude::*;

verus! {

/// The position `x` folded once into `0..m`, for `0 <= x < 2 * m`.
pub open spec fn wrap_index(x: int, m: int) -> int {
    if x < m {
        x
    } else {
        x - m
    }
}

/// The smaller of two natural numbers.
pub open spec fn min_nat(a: nat, b: nat) -> nat {
    if a <= b {
        a
    } else {
        b
    }
}

/// `n` zero bytes.
pub open spec fn zeros(n: nat) -> Seq<u8> {
    Seq::new(n, |i: int| 0u8)
}

/// The storage rotated left by `mid`: the byte at index `mid` comes first.
pub open spec fn rotated(s: Seq<u8>, mid: int) -> Seq<u8> {
    s.subrange(mid, s.len() as int) + s.subrange(0, mid)
}

/// What a ring buffer is: the whole storage, the index of the first readable byte and the
/// number of readable bytes.
pub struct BufferView {
    pub storage: Seq<u8>,
    pub head: nat,
    pub len: nat,
}

impl BufferView {
    /// A buffer over `storage` that holds nothing, with its read position at the front.
    pub open spec fn empty_over(storage: Seq<u8>) -> BufferView {
        BufferView { storage, head: 0, len: 0 }
    }

    /// The number of bytes the buffer can hold at once: the length of its storage.
    pub open spec fn capacity(self) -> nat {
        self.storage.len()
    }

    /// The storage length fits in `usize`, the read position lies inside the storage (or is
    /// 0 for empty storage), and no more bytes are readable than the storage holds.
    pub open spec fn wf(self) -> bool {
        &&& self.capacity() <= usize::MAX
        &&& self.len <= self.capacity()
        &&& if self.capacity() == 0 {
            self.head == 0
        } else {
            self.head < self.capacity()
        }
    }

    /// The storage index of the `i`-th byte counted from the read position.
    pub open spec fn pos(self, i: int) -> int {
        wrap_index(self.head + i, self.capacity() as int)
    }

    /// The `i`-th byte counted from the read position, wrapping around the storage.
    pub open spec fn byte_at(self, i: int) -> u8 {
        self.storage[self.pos(i)]
    }

    /// The readable bytes, oldest first.
    pub open spec fn data(self) -> Seq<u8> {
        Seq::new(self.len, |i: int| self.byte_at(i))
    }

    /// The number of bytes that can be written.
    pub open spec fn available(self) -> nat {
        (self.capacity() - self.len) as nat
    }

    /// The writable space, in the order in which it is filled.
    pub open spec fn free(self) -> Seq<u8> {
        Seq::new(self.available(), |i: int| self.byte_at(self.len + i))
    }

    /// The whole storage as seen from the read position: the data, then the free space.
    pub open spec fn ring(self) -> Seq<u8> {
        Seq::new(self.capacity(), |i: int| self.byte_at(i))
    }

    /// The storage index at which the next written byte goes.
    pub open spec fn write_head(self) -> nat {
        if self.capacity() == 0 {
            0
        } else {
            self.pos(self.len as int) as nat
        }
    }

    /// The length of the readable part that lies between the read position and the end of
    /// the storage.
    pub open spec fn first_data_len(self) -> nat {
        min_nat(self.len, (self.capacity() - self.head) as nat)
    }

    /// The length of the writable part that lies between the write position and the end of
    /// the storage.
    pub open spec fn first_free_len(self) -> nat {
        min_nat(self.available(), (self.capacity() - self.write_head()) as nat)
    }

    /// The storage after `first` and `second` have been written over the two writable
    /// slices: `first` over the one that begins at the write position, `second` over the one
    /// at the start of the storage (which exists only where the writable space wraps).
    pub open spec fn with_free_written(self, first: Seq<u8>, second: Seq<u8>) -> Seq<u8> {
        let ws = self.write_head() as int;
        let avail = self.available() as int;
        let cap = self.capacity() as int;
        if avail == 0 {
            self.storage
        } else if ws + avail < cap {
            self.storage.subrange(0, ws) + first + self.storage.subrange(ws + avail, cap)
        } else {
            second + self.storage.subrange(ws + avail - cap, ws) + first
        }
    }

    /// The readable data does not wrap around the end of the storage.
    pub open spec fn is_contiguous(self) -> bool {
        self.head + self.len <= self.capacity()
    }

    /// The buffer after `cnt` bytes have been read.
    pub open spec fn consumed(self, cnt: nat) -> BufferView {
        BufferView {
            storage: self.storage,
            head: wrap_index((self.head + cnt) as int, self.capacity() as int) as nat,
            len: (self.len - cnt) as nat,
        }
    }

    /// The buffer after `cnt` written bytes have been made readable.
    pub open spec fn committed(self, cnt: nat) -> BufferView {
        BufferView { storage: self.storage, head: self.head, len: self.len + cnt }
    }

    /// The buffer emptied, with its read position at the front and its storage untouched.
    pub open spec fn cleared(self) -> BufferView {
        BufferView { storage: self.storage, head: 0, len: 0 }
    }

    /// The buffer after its readable data has been made contiguous: nothing changes when
    /// the data does not wrap; otherwise the storage is rotated so that the data starts at
    /// index 0.
    pub open spec fn made_contiguous(self) -> BufferView {
        if self.is_contiguous() {
            self
        } else {
            BufferView { storage: rotated(self.storage, self.head as int), head: 0, len: self.len }
        }
    }

    /// The buffer after its storage has been extended with zeros to `new_capacity` bytes:
    /// the data is first made contiguous, so that none of it lies behind the new bytes. At
    /// the current capacity nothing changes.
    pub open spec fn grown(self, new_capacity: nat) -> BufferView {
        if new_capacity == self.capacity() {
            self
        } else {
            let c = self.made_contiguous();
            BufferView {
                storage: c.storage + zeros((new_capacity - c.capacity()) as nat),
                head: c.head,
                len: c.len,
            }
        }
    }

    /// The buffer after its storage has been cut to `new_capacity` bytes: the data is first
    /// made contiguous; where the read position or the data would then lie past
    /// `new_capacity`, the data is moved to the front of the storage.
    pub open spec fn shrunk(self, new_capacity: nat) -> BufferView {
        let c = self.made_contiguous();
        if c.head < new_capacity && c.head + c.len <= new_capacity {
            BufferView {
                storage: c.storage.subrange(0, new_capacity as int),
                head: c.head,
                len: c.len,
            }
        } else {
            BufferView {
                storage: rotated(c.storage, c.head as int).subrange(0, new_capacity as int),
                head: 0,
                len: c.len,
            }
        }
    }
}

/// `wrap_index` is `%` on the range where it applies.
pub proof fn lemma_wrap_index_is_mod(x: int, m: int)
    requires
        0 <= x < 2 * m,
    ensures
        wrap_index(x, m) == x % m,
        0 <= wrap_index(x, m) < m,
{
    if x < m {
        vstd::arithmetic::div_mod::lemma_small_mod(x as nat, m as nat);
    } else {
        vstd::arithmetic::div_mod::lemma_small_mod((x - m) as nat, m as nat);
        vstd::arithmetic::div_mod::lemma_mod_multiples_vanish(1, x - m, m);
    }
}

/// On a well-formed buffer the whole storage seen from the read position is the storage
/// rotated left by the read position.
pub proof fn lemma_ring_is_rotation(v: BufferView)
    requires
        v.wf(),
    ensures
        v.ring() == rotated(v.storage, v.head as int),
        v.ring() == v.data() + v.free(),
{
    let r = rotated(v.storage, v.head as int);
    assert(v.ring() =~= r);
    assert(v.ring() =~= v.data() + v.free());
}

/// Reading `cnt` bytes removes them from the front of the data and appends them, as free
/// space, behind the rest of the free space.
pub proof fn lemma_consumed(v: BufferView, cnt: nat)
    requires
        v.wf(),
        cnt <= v.len,
    ensures
        v.consumed(cnt).wf(),
        v.consumed(cnt).capacity() == v.capacity(),
        v.consumed(cnt).data() == v.data().subrange(cnt as int, v.len as int),
        v.consumed(cnt).free() == v.free() + v.data().subrange(0, cnt as int),
{
    let w = v.consumed(cnt);
    assert(w.data() =~= v.data().subrange(cnt as int, v.len as int));
    assert(w.free() =~= v.free() + v.data().subrange(0, cnt as int));
}

/// Making `cnt` written bytes readable appends the first `cnt` bytes of the free space to the
/// data.
pub proof fn lemma_committed(v: BufferView, cnt: nat)
    requires
        v.wf(),
        cnt <= v.available(),
    ensures
        v.committed(cnt).wf(),
        v.committed(cnt).capacity() == v.capacity(),
        v.committed(cnt).data() == v.data() + v.free().subrange(0, cnt as int),
        v.committed(cnt).free() == v.free().subrange(cnt as int, v.available() as int),
{
    let w = v.committed(cnt);
    assert(w.data() =~= v.data() + v.free().subrange(0, cnt as int));
    assert(w.free() =~= v.free().subrange(cnt as int, v.available() as int));
}

/// Making the data contiguous keeps the data, the free space and the whole ring as seen from
/// the read position, and leaves data that does not wrap.
pub proof fn lemma_made_contiguous(v: BufferView)
    requires
        v.wf(),
    ensures
        v.made_contiguous().wf(),
        v.made_contiguous().capacity() == v.capacity(),
        v.made_contiguous().len == v.len,
        v.made_contiguous().data() == v.data(),
        v.made_contiguous().free() == v.free(),
        v.made_contiguous().ring() == v.ring(),
        v.made_contiguous().is_contiguous(),
{
    let w = v.made_contiguous();
    if v.is_contiguous() {
    } else {
        lemma_ring_is_rotation(v);
        assert(w.ring() =~= v.ring());
        assert(w.data() =~= v.data());
        assert(w.free() =~= v.free());
    }
}

} // verus!
