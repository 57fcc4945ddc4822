//! Memory for the punch queue outside the scarce internal memory.

use vstd::prelude::*;

verus! {

/// The strictest alignment that the external memory gives.
pub const ALIGN_MAX: usize = 4;

/// Allocates in the external memory.
#[derive(Debug, Clone, Copy, Default)]
pub struct PsramAllocator;

impl PsramAllocator {
    /// The bytes to ask the memory for; `None` where nothing is to be allocated.
    pub fn bytes_for(&self, size: usize, align: usize) -> (r: Option<usize>)
        requires
            size == 0 || align <= ALIGN_MAX,
        ensures
            r == (if size == 0 {
                None
            } else {
                Some(size)
            }),
    {
        if size == 0 {
            None
        } else {
            Some(size)
        }
    }
}

} // verus!
