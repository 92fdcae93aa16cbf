use vstd::prelude::*;

verus! {

/// The hardware interrupt lines that the kernel serves.
#[derive(Debug, Clone, Copy)]
pub enum InterruptIndex {
    Timer,
    Keyboard,
}

impl InterruptIndex {
    /// The interrupt vector of the line: 32 for the timer, 33 for the keyboard.
    pub open spec fn vector(self) -> u8 {
        match self {
            InterruptIndex::Timer => 32u8,
            InterruptIndex::Keyboard => 33u8,
        }
    }

    pub fn as_u8(self) -> (vector: u8)
        ensures
            vector == self.vector(),
    {
        match self {
            InterruptIndex::Timer => 32u8,
            InterruptIndex::Keyboard => 33u8,
        }
    }

    pub fn as_usize(self) -> (vector: usize)
        ensures
            vector == self.vector(),
    {
        match self {
            InterruptIndex::Timer => 32usize,
            InterruptIndex::Keyboard => 33usize,
        }
    }
}

} // verus!
