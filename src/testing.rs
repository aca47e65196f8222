use vstd::prelude::*;

use crate::qemu::QemuExitCode;

verus! {

/// A check that the test runner can run.
pub trait Testable {
    fn run(&self);
}

/// Runs every check in order; a failing check panics and never returns,
/// so reaching the end means success.
pub fn test_runner<T: Testable>(tests: &[T]) -> (r: QemuExitCode)
    ensures
        r == QemuExitCode::Success,
{
    let mut i: usize = 0;
    while i < tests.len()
        invariant
            i <= tests@.len(),
        decreases tests@.len() - i,
    {
        tests[i].run();
        i = i + 1;
    }
    QemuExitCode::Success
}

} // verus!
