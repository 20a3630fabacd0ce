//! Chunks of output read from the PTY.

use vstd::prelude::*;

verus! {

/// Result of a non-blocking PTY read for the window loop.
#[derive(Debug)]
pub enum TryChunk {
    Data(Vec<u8>),
    Empty,
    Closed,
}

/// Copy as much of a chunk as fits into a buffer; returns how much that was.
pub fn copy_chunk(chunk: &[u8], buffer: &mut [u8]) -> (n: usize)
    ensures
        n == crate::screen::least(chunk@.len() as int, old(buffer)@.len() as int),
        final(buffer)@ == chunk@.take(n as int) + old(buffer)@.skip(n as int),
{
    let mut n: usize = 0;
    while n < chunk.len() && n < buffer.len()
        invariant
            n <= chunk@.len(),
            n <= buffer@.len(),
            buffer@.len() == old(buffer)@.len(),
            buffer@ =~= chunk@.take(n as int) + old(buffer)@.skip(n as int),
        decreases chunk@.len() - n,
    {
        buffer[n] = chunk[n];
        n += 1;
    }
    n
}

} // verus!
