//! A monotonic 16-bit counter; each call yields the next id.

use vstd::prelude::*;

verus! {

/// The width of addresses, label ids, function ids, and string lengths
/// in the bytecode.
pub type AddrSize = u16;

/// A counter that hands out 0, 1, 2, ... in turn.
pub struct SimpleCounter {
    pub counter: AddrSize,
}

impl SimpleCounter {
    /// A counter at zero.
    pub fn new() -> (r: Self)
        ensures
            r.counter == 0,
    {
        Self { counter: 0 }
    }

    /// The next id.
    pub fn count_one(&mut self) -> (r: AddrSize)
        requires
            old(self).counter < 0xffff,
        ensures
            r == old(self).counter,
            final (self).counter == old(self).counter + 1,
    {
        let output = self.counter;
        self.counter = self.counter + 1;
        output
    }

    /// Back to zero.
    pub fn reset(&mut self)
        ensures
            final (self).counter == 0,
    {
        self.counter = 0;
    }
}

} // verus!
