//! Memory as the linker lays it out: segments of addresses.

use vstd::prelude::*;

verus! {

/// A range of addresses: from `start`, up to `end` and without it. A segment
/// whose end is not above its start holds no address.
#[derive(Clone, Copy, PartialEq, Eq, Debug, Structural)]
pub struct Segment {
    pub start: usize,
    pub end: usize,
}

impl Segment {
    /// `addr` lies in the segment.
    pub open spec fn contains(self, addr: int) -> bool {
        self.start <= addr < self.end
    }

    /// The number of addresses in the segment.
    pub open spec fn len(self) -> nat {
        if self.start <= self.end {
            (self.end - self.start) as nat
        } else {
            0
        }
    }
}

/// Where the linker has put the parts of the kernel image.
#[derive(Clone, Copy, PartialEq, Eq, Debug, Structural)]
pub struct MemoryLayout {
    /// The code.
    pub text: Segment,
    /// The constants.
    pub rodata: Segment,
    /// The initialised variables.
    pub data: Segment,
    /// The variables that start as zero.
    pub bss: Segment,
    /// The boot stack, from its lower bound to its top.
    pub boot_stack: Segment,
}

} // verus!
