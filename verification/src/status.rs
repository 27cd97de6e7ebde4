//! How a tracee ended, and why a tracee stopped.

use nix::sys::signal::Signal;
use vstd::prelude::*;

verus! {

/// `Signal` of nix, the signals of the platform by name. The library hands
/// such a value on as it got it, and reads nothing from it.
#[verifier::external_type_specification]
#[verifier::external_body]
pub struct ExSignal(nix::sys::signal::Signal);

/// The code with which the spawned child returns when it cannot ask to be
/// traced, for instance because a security policy forbids it. Nothing was
/// run in that case.
pub const CANNOT_TRACE: i32 = 125;

/// The code with which the spawned child returns when the command cannot
/// be executed.
pub const CANNOT_EXEC: i32 = 127;

/// Exit status from a process, either a return code or a signal.
#[derive(Debug, Clone, Copy, PartialEq, Eq)]
pub enum ExitStatus {
    /// The process returned with this code.
    Return(i32),
    /// The process was terminated by this signal.
    Signal(Signal),
}

/// The signal that a stopped tracee reports, as far as the tracer tells
/// signals apart.
#[derive(Debug, Clone, Copy, PartialEq, Eq, Structural)]
pub enum StopSignal {
    /// The trap signal, which the kernel raises for the tracer's own sake.
    Trap,
    /// The stop signal.
    Stop,
    /// Any other signal.
    Other,
}

} // verus!
