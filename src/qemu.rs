use vstd::prelude::*;

verus! {

/// Outcome signalled to the emulator's exit device.
#[derive(Clone, Copy, Debug, PartialEq, Eq, Structural)]
pub enum QemuExitCode {
    Success,
    Fail,
}

/// The value written to the exit device for an outcome.
pub open spec fn exit_value(c: QemuExitCode) -> u32 {
    match c {
        QemuExitCode::Success => 0x10,
        QemuExitCode::Fail => 0x11,
    }
}

impl QemuExitCode {
    /// The value written to the exit device.
    pub fn value(self) -> (r: u32)
        ensures
            r == exit_value(self),
    {
        match self {
            QemuExitCode::Success => 0x10,
            QemuExitCode::Fail => 0x11,
        }
    }
}

/// I/O port of the emulator's exit device.
pub const EXIT_PORT: u16 = 0xf4;

} // verus!
