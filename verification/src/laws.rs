//! Properties of the buffer that span several operations, stated over [`BufferView`].
//!
//! The operations of [`CircularBuffer`](crate::CircularBuffer) state in their contracts how
//! they change the view; these lemmas say what follows for sequences of operations.

use vstd::prelude::*;

use crate::view::{lemma_committed, lemma_consumed, lemma_made_contiguous, BufferView};

verus! {

/// Bytes read back come out in the order in which they were written, behind the data that
/// was already there: when `first` and `second` have been written over the writable slices
/// (as `as_mut_slices` hands them out) and `n` bytes are committed, the readable data is the
/// old data followed by the first `n` written bytes.
pub proof fn lemma_write_then_read(v: BufferView, first: Seq<u8>, second: Seq<u8>, n: nat)
    requires
        v.wf(),
        first.len() == v.first_free_len(),
        first.len() + second.len() == v.available(),
        n <= v.available(),
    ensures
        ({
            let w = BufferView {
                storage: v.with_free_written(first, second),
                head: v.head,
                len: v.len,
            };
            &&& w.committed(n).wf()
            &&& w.committed(n).data() == v.data() + (first + second).subrange(0, n as int)
        }),
{
    let w = BufferView { storage: v.with_free_written(first, second), head: v.head, len: v.len };
    lemma_write_into_free_space(v, first, second);
    lemma_committed(w, n);
}

/// Writing over the writable slices leaves the readable data as it was, and what was written
/// becomes the free space, in order.
pub proof fn lemma_write_into_free_space(v: BufferView, first: Seq<u8>, second: Seq<u8>)
    requires
        v.wf(),
        first.len() == v.first_free_len(),
        first.len() + second.len() == v.available(),
    ensures
        ({
            let w = BufferView {
                storage: v.with_free_written(first, second),
                head: v.head,
                len: v.len,
            };
            &&& w.wf()
            &&& w.capacity() == v.capacity()
            &&& w.data() == v.data()
            &&& w.free() == first + second
        }),
{
    let w = BufferView { storage: v.with_free_written(first, second), head: v.head, len: v.len };
    assert(w.storage.len() == v.capacity());
    assert(w.data() =~= v.data());
    assert(w.free() =~= first + second);
}

/// Reading `a` bytes and then `b` bytes is the same as reading `a + b` bytes at once.
pub proof fn lemma_consume_composes(v: BufferView, a: nat, b: nat)
    requires
        v.wf(),
        a + b <= v.len,
    ensures
        v.consumed(a).consumed(b) == v.consumed(a + b),
{
    lemma_consumed(v, a);
}

/// Committing `a` bytes and then `b` bytes is the same as committing `a + b` bytes at once.
pub proof fn lemma_commit_composes(v: BufferView, a: nat, b: nat)
    requires
        v.wf(),
        a + b <= v.available(),
    ensures
        v.committed(a).committed(b) == v.committed(a + b),
{
}

/// The readable and the writable parts together make up the whole storage: the remaining
/// bytes and the writable bytes add up to the capacity, and the first slice of each is a
/// prefix of it.
pub proof fn lemma_space_accounting(v: BufferView)
    requires
        v.wf(),
    ensures
        v.data().len() == v.len,
        v.free().len() == v.available(),
        v.len + v.available() == v.capacity(),
        v.first_data_len() <= v.len,
        v.first_free_len() <= v.available(),
        v.ring() == v.data() + v.free(),
{
    crate::view::lemma_ring_is_rotation(v);
}

/// The readable data comes in two non-empty slices exactly when it wraps around the end of
/// the storage; when it does not, the first slice holds all of it.
pub proof fn lemma_two_slices_iff_wrapped(v: BufferView)
    requires
        v.wf(),
    ensures
        (v.first_data_len() < v.len) <==> (v.head + v.len > v.capacity()),
        v.is_contiguous() ==> v.first_data_len() == v.len,
{
}

/// The writable space comes in two non-empty slices exactly when it wraps around the end of
/// the storage.
pub proof fn lemma_two_free_slices_iff_wrapped(v: BufferView)
    requires
        v.wf(),
    ensures
        (v.first_free_len() < v.available()) <==> (v.write_head() + v.available()
            > v.capacity()),
{
}

/// After `make_contiguous` the readable data is the same and lies in a single slice.
pub proof fn lemma_contiguous_single_slice(v: BufferView)
    requires
        v.wf(),
    ensures
        v.made_contiguous().data() == v.data(),
        v.made_contiguous().first_data_len() == v.len,
{
    lemma_made_contiguous(v);
}

/// A reset buffer holds nothing, reads and writes from the front of its storage whatever
/// its cursors were, and its whole storage, in storage order, is one writable slice.
pub proof fn lemma_cleared(v: BufferView)
    requires
        v.wf(),
    ensures
        v.cleared().wf(),
        v.cleared().head == 0,
        v.cleared().len == 0,
        v.cleared().storage == v.storage,
        v.cleared().data() == Seq::<u8>::empty(),
        v.cleared().available() == v.capacity(),
        v.cleared().capacity() == v.capacity(),
        v.cleared().write_head() == 0,
        v.cleared().first_free_len() == v.capacity(),
        v.cleared().free() == v.storage,
{
    assert(v.cleared().data() =~= Seq::<u8>::empty());
    assert(v.cleared().free() =~= v.storage);
}

/// Resetting forgets where the cursors were: two buffers over the same storage are equal
/// once both are reset.
pub proof fn lemma_reset_forgets_cursors(v: BufferView, w: BufferView)
    requires
        v.wf(),
        w.wf(),
        v.storage == w.storage,
    ensures
        v.cleared() == w.cleared(),
{
    lemma_cleared(v);
    lemma_cleared(w);
}

/// Shrinking a buffer whose data fits keeps the data and leaves the new capacity.
pub proof fn lemma_shrink_keeps_data(v: BufferView, new_capacity: nat)
    requires
        v.wf(),
        v.len <= new_capacity,
        new_capacity < v.capacity(),
    ensures
        v.shrunk(new_capacity).wf(),
        v.shrunk(new_capacity).capacity() == new_capacity,
        v.shrunk(new_capacity).data() == v.data(),
{
    lemma_made_contiguous(v);
    let c = v.made_contiguous();
    let s = v.shrunk(new_capacity);
    if c.head < new_capacity && c.head + c.len <= new_capacity {
        assert(s.data() =~= c.data());
    } else {
        crate::view::lemma_ring_is_rotation(c);
        assert(s.data() =~= c.data());
    }
}

/// The error of a refused shrink is what must be read first: after consuming that many bytes
/// the data fits the new capacity, so that the same resize then succeeds.
pub proof fn lemma_consume_refused_shrink(v: BufferView, new_capacity: nat)
    requires
        v.wf(),
        new_capacity < v.capacity(),
        v.len > new_capacity,
    ensures
        v.consumed((v.len - new_capacity) as nat).wf(),
        v.consumed((v.len - new_capacity) as nat).capacity() == v.capacity(),
        v.consumed((v.len - new_capacity) as nat).len == new_capacity,
{
    lemma_consumed(v, (v.len - new_capacity) as nat);
}

/// Growing a buffer keeps it well formed, with the new capacity and its data.
pub proof fn lemma_grow_keeps_data(v: BufferView, new_capacity: nat)
    requires
        v.wf(),
        v.capacity() <= new_capacity <= usize::MAX,
    ensures
        v.grown(new_capacity).wf(),
        v.grown(new_capacity).capacity() == new_capacity,
        v.grown(new_capacity).len == v.len,
        v.grown(new_capacity).data() == v.data(),
{
    lemma_made_contiguous(v);
    let c = v.made_contiguous();
    let g = v.grown(new_capacity);
    assert(g.data() =~= c.data());
}

/// One operation that changes a buffer without resizing it, as the contracts of
/// `consume`, `commit`, `reset`, `make_contiguous` and `as_mut_slices` (with the bytes
/// written over its two slices) describe it.
pub enum BufferOp {
    Consume(nat),
    Commit(nat),
    Reset,
    MakeContiguous,
    WriteFree(Seq<u8>, Seq<u8>),
}

/// The precondition of the operation `op` on `v`.
pub open spec fn op_allowed(v: BufferView, op: BufferOp) -> bool {
    match op {
        BufferOp::Consume(n) => n <= v.len,
        BufferOp::Commit(n) => n <= v.available(),
        BufferOp::Reset => true,
        BufferOp::MakeContiguous => true,
        BufferOp::WriteFree(first, second) => first.len() == v.first_free_len() && first.len()
            + second.len() == v.available(),
    }
}

/// The buffer after the operation `op`.
pub open spec fn apply_op(v: BufferView, op: BufferOp) -> BufferView {
    match op {
        BufferOp::Consume(n) => v.consumed(n),
        BufferOp::Commit(n) => v.committed(n),
        BufferOp::Reset => v.cleared(),
        BufferOp::MakeContiguous => v.made_contiguous(),
        BufferOp::WriteFree(first, second) => BufferView {
            storage: v.with_free_written(first, second),
            head: v.head,
            len: v.len,
        },
    }
}

/// Every operation of `ops`, applied in order from `v`, meets its precondition.
pub open spec fn ops_allowed(v: BufferView, ops: Seq<BufferOp>) -> bool
    decreases ops.len(),
{
    ops.len() == 0 || (op_allowed(v, ops[0]) && ops_allowed(
        apply_op(v, ops[0]),
        ops.subrange(1, ops.len() as int),
    ))
}

/// The buffer after the operations `ops`, applied in order from `v`.
pub open spec fn apply_ops(v: BufferView, ops: Seq<BufferOp>) -> BufferView
    decreases ops.len(),
{
    if ops.len() == 0 {
        v
    } else {
        apply_ops(apply_op(v, ops[0]), ops.subrange(1, ops.len() as int))
    }
}

/// One operation keeps the buffer well formed and keeps its capacity.
pub proof fn lemma_op_keeps_capacity(v: BufferView, op: BufferOp)
    requires
        v.wf(),
        op_allowed(v, op),
    ensures
        apply_op(v, op).wf(),
        apply_op(v, op).capacity() == v.capacity(),
{
    match op {
        BufferOp::Consume(n) => lemma_consumed(v, n),
        BufferOp::Commit(n) => lemma_committed(v, n),
        BufferOp::Reset => lemma_cleared(v),
        BufferOp::MakeContiguous => lemma_made_contiguous(v),
        BufferOp::WriteFree(first, second) => lemma_write_into_free_space(v, first, second),
    }
}

/// Any sequence of reads, writes, commits, resets and `make_contiguous` calls keeps the
/// capacity, keeps the buffer well formed, and keeps the readable and the writable bytes
/// adding up to the capacity.
pub proof fn lemma_ops_keep_capacity(v: BufferView, ops: Seq<BufferOp>)
    requires
        v.wf(),
        ops_allowed(v, ops),
    ensures
        apply_ops(v, ops).wf(),
        apply_ops(v, ops).capacity() == v.capacity(),
        apply_ops(v, ops).len + apply_ops(v, ops).available() == v.capacity(),
        apply_ops(v, ops).len <= v.capacity(),
    decreases ops.len(),
{
    if ops.len() > 0 {
        lemma_op_keeps_capacity(v, ops[0]);
        lemma_ops_keep_capacity(apply_op(v, ops[0]), ops.subrange(1, ops.len() as int));
    }
}

/// What one round of streaming writes over the writable slices: `chunk`, then the writable
/// bytes that `chunk` does not cover, which keep their values.
pub open spec fn round_fill(v: BufferView, chunk: Seq<u8>) -> Seq<u8> {
    chunk + v.free().subrange(chunk.len() as int, v.available() as int)
}

/// The buffer after `chunk` has been written over the writable slices and committed.
pub open spec fn round_written(v: BufferView, chunk: Seq<u8>) -> BufferView {
    let fill = round_fill(v, chunk);
    let f = v.first_free_len() as int;
    BufferView {
        storage: v.with_free_written(fill.subrange(0, f), fill.subrange(f, fill.len() as int)),
        head: v.head,
        len: v.len,
    }.committed(chunk.len())
}

/// One round of streaming: write `chunk`, commit it, read every readable byte, consume them
/// all. The result is the buffer afterwards and the bytes read.
pub open spec fn stream_round(v: BufferView, chunk: Seq<u8>) -> (BufferView, Seq<u8>) {
    let c = round_written(v, chunk);
    (c.consumed(c.len), c.data())
}

/// Rounds of streaming over `chunks`, in order: the buffer afterwards and all bytes read.
pub open spec fn stream(v: BufferView, chunks: Seq<Seq<u8>>) -> (BufferView, Seq<u8>)
    decreases chunks.len(),
{
    if chunks.len() == 0 {
        (v, Seq::<u8>::empty())
    } else {
        let prev = stream(v, chunks.drop_last());
        let step = stream_round(prev.0, chunks.last());
        (step.0, prev.1 + step.1)
    }
}

/// The chunks joined in order.
pub open spec fn concat(chunks: Seq<Seq<u8>>) -> Seq<u8>
    decreases chunks.len(),
{
    if chunks.len() == 0 {
        Seq::<u8>::empty()
    } else {
        concat(chunks.drop_last()) + chunks.last()
    }
}

/// One round of streaming from an empty buffer reads back exactly the chunk written and
/// leaves an empty buffer of the same capacity.
pub proof fn lemma_stream_round(v: BufferView, chunk: Seq<u8>)
    requires
        v.wf(),
        v.len == 0,
        chunk.len() <= v.capacity(),
    ensures
        stream_round(v, chunk).0.wf(),
        stream_round(v, chunk).0.capacity() == v.capacity(),
        stream_round(v, chunk).0.len == 0,
        stream_round(v, chunk).1 == chunk,
{
    let fill = round_fill(v, chunk);
    let f = v.first_free_len() as int;
    let first = fill.subrange(0, f);
    let second = fill.subrange(f, fill.len() as int);
    assert(first + second =~= fill);
    lemma_write_then_read(v, first, second, chunk.len());
    let c = round_written(v, chunk);
    lemma_write_into_free_space(v, first, second);
    lemma_committed(
        BufferView { storage: v.with_free_written(first, second), head: v.head, len: v.len },
        chunk.len(),
    );
    assert(v.data() =~= Seq::<u8>::empty());
    assert(fill.subrange(0, chunk.len() as int) =~= chunk);
    lemma_consumed(c, c.len);
}

/// Streaming through a buffer that starts empty gives back every byte written, in order,
/// across any number of rounds and wrap-arounds, as long as each chunk fits the capacity.
pub proof fn lemma_stream_gives_back_input(v: BufferView, chunks: Seq<Seq<u8>>)
    requires
        v.wf(),
        v.len == 0,
        forall|i: int| 0 <= i < chunks.len() ==> (#[trigger] chunks[i]).len() <= v.capacity(),
    ensures
        stream(v, chunks).0.wf(),
        stream(v, chunks).0.capacity() == v.capacity(),
        stream(v, chunks).0.len == 0,
        stream(v, chunks).1 == concat(chunks),
    decreases chunks.len(),
{
    if chunks.len() > 0 {
        let rest = chunks.drop_last();
        assert forall|i: int| 0 <= i < rest.len() implies (#[trigger] rest[i]).len()
            <= v.capacity() by {
            assert(rest[i] == chunks[i]);
        }
        lemma_stream_gives_back_input(v, rest);
        let prev = stream(v, rest);
        assert(chunks.last() == chunks[chunks.len() - 1]);
        lemma_stream_round(prev.0, chunks.last());
    }
}

} // verus!
