//! The identifier allocator: a single monotonically increasing 32-bit counter
//! behind an atomic-update interface. Reading the counter and advancing it are
//! one step, so no two allocations can ever observe the same value.

use crate::errors::Error;
use vstd::prelude::*;

verus! {

/// Issues globally unique identifiers in strictly increasing order, starting
/// at 0. The counter only ever moves forward, so an identifier, once issued,
/// is never issued again.
pub struct IdAllocator {
    next: u32,
}

impl View for IdAllocator {
    type V = u32;

    closed spec fn view(&self) -> u32 {
        self.next
    }
}

impl IdAllocator {
    /// A fresh allocator, about to issue identifier 0.
    pub fn new() -> (a: Self)
        ensures
            a@ == 0,
    {
        IdAllocator { next: 0 }
    }

    /// An allocator whose next identifier is `next`; every identifier below
    /// `next` counts as already issued.
    pub fn starting_at(next: u32) -> (a: Self)
        ensures
            a@ == next,
    {
        IdAllocator { next }
    }

    /// The identifier the next successful allocation will issue.
    pub fn current(&self) -> (r: u32)
        ensures
            r == self@,
    {
        self.next
    }

    /// Issues the current counter value and advances the counter by one, as a
    /// single step. When the advance would overflow the 32-bit range, fails
    /// with `KittiesIdOverflow` and leaves the counter unchanged.
    pub fn next_id(&mut self) -> (r: Result<u32, Error>)
        ensures
            r is Ok <==> old(self)@ < u32::MAX,
            r matches Ok(id) ==> id == old(self)@ && final(self)@ == old(self)@ + 1,
            r is Err ==> r == Err::<u32, Error>(Error::KittiesIdOverflow) && *final(self) == *old(
                self,
            ),
    {
        match self.next.checked_add(1) {
            Some(advanced) => {
                let id = self.next;
                self.next = advanced;
                Ok(id)
            },
            None => Err(Error::KittiesIdOverflow),
        }
    }
}

} // verus!
