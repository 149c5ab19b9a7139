# ringo_buff

Ring buffers for bytes, with heap (`HeapBuffer`, a `Vec<u8>`) and stack (`StackBuffer<N>`,
an `[u8; N]`) storage, verified with Verus.

- `src/view.rs`: `BufferView`, the model of a buffer (storage, read position, readable
  length), the readable data and free space it defines, and how each operation changes it.
- `src/lib.rs`: the `Storage` trait and `CircularBuffer`, whose operations are specified
  over `BufferView`.
- `src/vec.rs`, `src/array.rs`: the two storage kinds, `HeapBuffer::try_resize` and the
  conversion from `Vec<u8>`.
- `src/wipe.rs`: zeroization through the `zeroize` crate.
- `src/laws.rs`: properties over several operations (bytes come back in the order they were
  written, reads and commits compose, resizing keeps data, ...).
- `app/`: adapters that give a buffer the `bytes::Buf`/`bytes::BufMut` and
  `zeroize::Zeroize` traits.
