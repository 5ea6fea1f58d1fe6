//! The buffer manager: obtaining and reclaiming pixel buffers.
//!
//! A buffer is a plain vector of bytes whose ownership passes to the caller
//! on allocation and back on release; dropping the vector returns its
//! storage to the process-wide heap.

use vstd::prelude::*;

verus! {

/// Reserves a buffer of `size` bytes and transfers its ownership to the
/// caller. Every allocation succeeds at this level; exhausting the heap
/// aborts the process, as the host environment's out-of-memory behaviour
/// dictates, and is not reported here. The fresh buffer reads as all
/// zeroes.
pub fn allocate(size: usize) -> (buf: Vec<u8>)
    ensures
        buf@.len() == size,
        forall|i: int| 0 <= i < size ==> buf@[i] == 0u8,
{
    let mut buf: Vec<u8> = Vec::new();
    let mut filled: usize = 0;
    while filled < size
        invariant
            filled <= size,
            buf@.len() == filled,
            forall|i: int| 0 <= i < filled ==> buf@[i] == 0u8,
        decreases size - filled,
    {
        buf.push(0u8);
        filled = filled + 1;
    }
    buf
}

/// Reclaims a buffer previously obtained from [`allocate`]: consumes it and
/// returns its storage to the heap. The caller's handle is gone afterwards,
/// so no further read or write of the region is possible.
pub fn dealloc(buf: Vec<u8>) {
    let _ = buf;
}

} // verus!
