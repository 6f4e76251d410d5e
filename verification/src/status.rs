//! Classification of kernel wait reports.
//!
//! Every wait on the traced child yields a raw kernel report.  The engine
//! recognises exactly three meaningful outcomes — stopped by a signal,
//! exited with a code, killed by a signal — and treats anything else as a
//! protocol violation that the caller must abort on rather than guess about.

use vstd::prelude::*;

verus! {

/// Signal number of the trace trap that a software breakpoint raises and
/// that a freshly traced child stops with before running its own code.
pub const TRAP_SIGNAL: i32 = 5;

/// A raw wait report, as the kernel hands it back: the shell that performs
/// the wait maps the kernel's result onto these plain values before asking
/// the engine what it means.  `Other` stands for every report outside the
/// three states this engine knows.
#[derive(Clone, Copy, Debug, PartialEq, Eq, Structural)]
pub enum WaitReport {
    /// The child stopped under a signal (its number).
    Stopped(i32),
    /// The child exited normally with an exit code.
    Exited(i32),
    /// The child was terminated by a signal (its number).
    Signaled(i32),
    /// Any other kernel report (ptrace event, syscall stop, still alive...).
    Other,
}

/// The state of the traced child after a wait, as the engine exposes it.
/// The terminal variants (`Exited`, `Signaled`) invalidate the process
/// handle; `Stopped` carries the signal and the instruction pointer the
/// child is stopped at.
#[derive(Clone, Copy, Debug, PartialEq, Eq, Structural)]
pub enum Status {
    /// Stopped by a signal at an instruction pointer.
    Stopped(i32, usize),
    /// Exited normally with an exit code.
    Exited(i32),
    /// Terminated by a signal.
    Signaled(i32),
}

/// Classifies a raw wait report into the engine's status model.  `rip` is
/// the child's instruction pointer, read from its registers after a stop;
/// it only enters the result for a `Stopped` report.  A report outside the
/// three known variants yields `None`: an internal-consistency failure the
/// caller must abort on, never silently misclassify.
pub fn classify_wait(report: WaitReport, rip: usize) -> (r: Option<Status>)
    ensures
        r == match report {
            WaitReport::Stopped(sig) => Some(Status::Stopped(sig, rip)),
            WaitReport::Exited(code) => Some(Status::Exited(code)),
            WaitReport::Signaled(sig) => Some(Status::Signaled(sig)),
            WaitReport::Other => None::<Status>,
        },
{
    match report {
        WaitReport::Stopped(sig) => Some(Status::Stopped(sig, rip)),
        WaitReport::Exited(code) => Some(Status::Exited(code)),
        WaitReport::Signaled(sig) => Some(Status::Signaled(sig)),
        WaitReport::Other => None,
    }
}

/// Decides whether the first wait after spawning a traced child is the
/// expected trace-trap stop.  Only then does the spawn yield a process
/// handle; an immediate exit, a fatal signal, a stop under any other
/// signal, or an unexpected report all make the spawn a failure.
pub fn initial_stop_accepted(report: WaitReport) -> (r: bool)
    ensures
        r == (report == WaitReport::Stopped(TRAP_SIGNAL)),
{
    match report {
        WaitReport::Stopped(sig) => sig == TRAP_SIGNAL,
        _ => false,
    }
}

} // verus!
