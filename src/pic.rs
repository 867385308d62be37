//! Interrupt numbers of the two chained 8259 interrupt controllers.

use vstd::prelude::*;

verus! {

/// First vector of the primary controller.
pub const PIC_1_OFFSET: u8 = 32;

/// First vector of the secondary controller.
pub const PIC_2_OFFSET: u8 = 40;

/// The interrupt lines this kernel serves, on the primary controller.
#[derive(Debug, Clone, Copy, PartialEq, Eq, Structural)]
pub enum PicIRQ {
    Timer,
    Keyboard,
}

impl PicIRQ {
    /// Vector number of the line: the timer is the primary controller's
    /// first vector, the keyboard the one after it.
    pub open spec fn vector(self) -> u8 {
        match self {
            PicIRQ::Timer => PIC_1_OFFSET,
            PicIRQ::Keyboard => (PIC_1_OFFSET + 1) as u8,
        }
    }

    pub fn as_u8(self) -> (r: u8)
        ensures
            r == self.vector(),
    {
        match self {
            PicIRQ::Timer => PIC_1_OFFSET,
            PicIRQ::Keyboard => PIC_1_OFFSET + 1,
        }
    }

    pub fn as_usize(self) -> (r: usize)
        ensures
            r == self.vector() as usize,
    {
        self.as_u8() as usize
    }
}

} // verus!
