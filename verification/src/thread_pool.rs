//! The size rule of the server's thread pool.
use vstd::prelude::*;

verus! {

/// The number of workers a pool asked for `size` threads starts: one per
/// thread. A pool of no threads is not allowed (creating one panics).
pub fn worker_count(size: u32) -> (count: usize)
    requires
        size > 0,
    ensures
        count == size,
        count > 0,
{
    size as usize
}

} // verus!
