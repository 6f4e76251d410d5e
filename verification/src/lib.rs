//! Verified engine of a process debugger: byte-exact breakpoint patching of
//! word-granular traced memory, a breakpoint store that survives restarts of
//! the traced process, the step-over-breakpoint protocol, classification of
//! kernel wait reports, frame-pointer stack unwinding, and breakpoint
//! specification parsing.
//!
//! The kernel tracing facility itself (spawning the child, peeking and poking
//! its memory, resuming and waiting on it) is driven by a thin unverified
//! shell around this crate; every decision that shell takes is computed here.

pub mod parse;
pub mod status;
pub mod store;
pub mod unwind;
pub mod words;
