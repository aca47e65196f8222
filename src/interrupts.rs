use vstd::prelude::*;

verus! {

/// Vectors 0 to 31 are the processor's own exceptions.
pub const CPU_EXCEPTION_VECTORS: u8 = 32;

/// First vector of the primary interrupt controller.
pub const PIC_1_OFFSET: u8 = 32;

/// First vector of the secondary interrupt controller.
pub const PIC_2_OFFSET: u8 = PIC_1_OFFSET + 8;

/// Alternate stack slot used for the double-fault handler.
pub const DOUBLE_FAULT_STACK_INDEX: u16 = 0;

/// Hardware interrupt lines handled by the kernel, in line order from the
/// primary controller's first vector.
#[derive(Clone, Copy, Debug, PartialEq, Eq, Structural)]
pub enum InterruptIndex {
    Timer,
    Keyboard,
}

/// Line number of an interrupt on the primary controller.
pub open spec fn irq_line(i: InterruptIndex) -> u8 {
    match i {
        InterruptIndex::Timer => 0,
        InterruptIndex::Keyboard => 1,
    }
}

/// Vector number of an interrupt.
pub open spec fn vector_of(i: InterruptIndex) -> u8 {
    (PIC_1_OFFSET + irq_line(i)) as u8
}

impl InterruptIndex {
    /// The vector number, above the processor's exception vectors and
    /// within the primary controller's eight.
    pub fn as_u8(self) -> (r: u8)
        ensures
            r == vector_of(self),
            CPU_EXCEPTION_VECTORS <= r < PIC_2_OFFSET,
    {
        match self {
            InterruptIndex::Timer => PIC_1_OFFSET,
            InterruptIndex::Keyboard => PIC_1_OFFSET + 1,
        }
    }

    /// The vector number as a table index.
    pub fn as_usize(self) -> (r: usize)
        ensures
            r == vector_of(self) as usize,
            r < 256,
    {
        self.as_u8() as usize
    }
}

/// Distinct interrupt lines use distinct vectors.
pub proof fn lemma_vectors_distinct(a: InterruptIndex, b: InterruptIndex)
    requires
        a != b,
    ensures
        vector_of(a) != vector_of(b),
{
}

} // verus!
