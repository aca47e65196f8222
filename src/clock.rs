use vstd::prelude::*;

verus! {

/// Time since boot, kept as one 64-bit reading.
#[derive(Clone, Copy, Debug)]
pub struct Uptime {}

impl Uptime {
    pub fn new() -> (r: Uptime) {
        Uptime {}
    }

    /// Width of the reading in bytes.
    pub fn size() -> (r: usize)
        ensures
            r == 8,
    {
        8
    }
}

} // verus!
