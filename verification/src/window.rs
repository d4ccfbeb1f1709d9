//! Partial reads: the window of a file's content that a request covers.

use vstd::prelude::*;

verus! {

/// The part of `data` that a read of `size` bytes at `offset` covers: from
/// `offset` up to `offset + size` or the end of the data, whichever comes
/// first, and nothing when `offset` is at or past the end.
pub open spec fn window(data: Seq<u8>, offset: int, size: int) -> Seq<u8>
    recommends
        offset >= 0,
        size >= 0,
{
    if offset >= data.len() {
        Seq::empty()
    } else if offset + size >= data.len() {
        data.subrange(offset, data.len() as int)
    } else {
        data.subrange(offset, offset + size)
    }
}

/// Copies out the window of `data` that a read of `size` bytes at `offset`
/// covers. A read past the end is empty, never an error.
pub fn read_window(data: &Vec<u8>, offset: u64, size: u32) -> (out: Vec<u8>)
    ensures
        out@ == window(data@, offset as int, size as int),
{
    let len: usize = data.len();
    let mut out: Vec<u8> = Vec::new();
    if offset >= len as u64 {
        return out;
    }
    let first: usize = offset as usize;
    let rest: usize = len - first;
    let count: usize = if size as u64 >= rest as u64 {
        rest
    } else {
        size as usize
    };
    let mut k: usize = 0;
    while k < count
        invariant
            k <= count,
            first + count <= len,
            len == data@.len(),
            out@ == data@.subrange(first as int, first + k),
        decreases count - k,
    {
        out.push(data[first + k]);
        k = k + 1;
        assert(out@ =~= data@.subrange(first as int, first + k));
    }
    out
}

/// A window is the slice of the data that the request overlaps: it starts
/// at the offset, is as long as the request asks or as the data allows,
/// and is empty when the offset is at or past the end.
pub proof fn lemma_window_is_the_overlap(data: Seq<u8>, offset: int, size: int)
    requires
        offset >= 0,
        size >= 0,
    ensures
        offset >= data.len() ==> window(data, offset, size).len() == 0,
        offset < data.len() ==> window(data, offset, size).len() == if offset + size
            <= data.len() {
            size
        } else {
            data.len() - offset
        },
        forall|i: int|
            0 <= i < window(data, offset, size).len() ==> #[trigger] window(data, offset, size)[i]
                == data[offset + i],
{
}

/// Reading all of the data gives all of it, reading at its last byte gives
/// that byte alone, and reading at its end gives nothing.
pub proof fn lemma_window_edges(data: Seq<u8>, size: int)
    requires
        size > 0,
        data.len() > 0,
    ensures
        window(data, 0, data.len() as int) == data,
        window(data, data.len() - 1, size) == seq![data.last()],
        window(data, data.len() as int, size) == Seq::<u8>::empty(),
{
    assert(window(data, 0, data.len() as int) =~= data);
    assert(window(data, data.len() - 1, size) =~= seq![data.last()]);
}

} // verus!
