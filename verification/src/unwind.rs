//! Frame-pointer stack unwinding.
//!
//! The walk starts at the stopped child's instruction pointer and follows
//! the saved frame-pointer linkage: each frame's return address sits one
//! word above the saved frame pointer, which in turn points at the caller's
//! saved pair.  The walker outside this crate reads those two words and
//! resolves each instruction pointer against the symbol data; this module
//! decides, step by step, what each resolution means: emit a frame and
//! continue, emit the entry function's frame and finish, or fail because
//! the symbol data has no answer.

use vstd::prelude::*;

use crate::words::WORD_SIZE;

verus! {

/// A frame of the reconstructed call chain: the instruction pointer the
/// walk reached, with the function name and source line it resolved to.
/// Frames exist for display only; they are never persisted.
pub struct StackFrame {
    /// Instruction pointer within the function.
    pub addr: usize,
    /// Resolved function name.
    pub function: String,
    /// Resolved source line, as display text.
    pub line: String,
}

/// Name of the designated entry function; emitting its frame ends the walk.
pub open spec fn entry_function_name() -> Seq<char> {
    "main"@
}

/// What one unwind step tells the walker to do next.
#[derive(Clone, Copy, Debug, PartialEq, Eq, Structural)]
pub enum UnwindAction {
    /// A frame was emitted; follow the saved frame pointer to the caller.
    Next,
    /// The entry function's frame was emitted; the walk is complete.
    Finished,
    /// The instruction pointer resolved to no function or no source line:
    /// the symbol data is missing or corrupted, and the walk stops with an
    /// error rather than silently truncating the chain.
    Failed,
}

/// The frames after one step: on a full resolution the new frame joins the
/// end of the chain, on a failed resolution nothing is emitted.
pub open spec fn step_frames(
    frames: Seq<StackFrame>,
    addr: usize,
    function: Option<String>,
    line: Option<String>,
) -> Seq<StackFrame> {
    if function is Some && line is Some {
        frames.push(StackFrame { addr: addr, function: function.unwrap(), line: line.unwrap() })
    } else {
        frames
    }
}

/// The walker's next move after one step: fail on a missing resolution,
/// finish on the entry function, otherwise keep walking.
pub open spec fn step_action(function: Option<String>, line: Option<String>) -> UnwindAction {
    if function is Some && line is Some {
        if function.unwrap()@ == entry_function_name() {
            UnwindAction::Finished
        } else {
            UnwindAction::Next
        }
    } else {
        UnwindAction::Failed
    }
}

/// One step of the walk.  `addr` is the instruction pointer the walk has
/// reached; `function` and `line` are what the symbol data resolved it to.
/// On a full resolution the frame is appended to `frames`; the result says
/// whether to keep walking, stop at the entry function, or give up because
/// the resolution came back empty.
pub fn unwind_step(
    frames: &mut Vec<StackFrame>,
    addr: usize,
    function: Option<String>,
    line: Option<String>,
) -> (r: UnwindAction)
    ensures
        final(frames)@ == step_frames(old(frames)@, addr, function, line),
        r == step_action(function, line),
{
    match (function, line) {
        (Some(f), Some(l)) => {
            let entry: String = "main".to_owned();
            let at_entry: bool = f == entry;
            frames.push(StackFrame { addr: addr, function: f, line: l });
            if at_entry {
                UnwindAction::Finished
            } else {
                UnwindAction::Next
            }
        },
        _ => UnwindAction::Failed,
    }
}

/// Address of the word holding the current frame's return address: one
/// word above the saved frame pointer.  `None` when the alleged frame
/// pointer sits too high for the slot to exist, which only corrupt linkage
/// produces; the walker treats that as exhausted data.
pub fn return_address_slot(frame_pointer: usize) -> (r: Option<usize>)
    ensures
        r == if frame_pointer + WORD_SIZE <= usize::MAX {
            Some((frame_pointer + WORD_SIZE) as usize)
        } else {
            None::<usize>
        },
{
    if frame_pointer <= usize::MAX - WORD_SIZE {
        Some(frame_pointer + WORD_SIZE)
    } else {
        None
    }
}

/// Unwind termination: on a call chain whose instruction pointers resolve,
/// in walk order, to two non-entry functions and then the entry function,
/// the walk emits exactly those three frames in that order and finishes on
/// the third step — whatever frame-pointer data may lie beyond it.
pub proof fn lemma_unwind_three_frames(
    a1: usize,
    a2: usize,
    a3: usize,
    f1: String,
    f2: String,
    f3: String,
    l1: String,
    l2: String,
    l3: String,
)
    requires
        f1@ != entry_function_name(),
        f2@ != entry_function_name(),
        f3@ == entry_function_name(),
    ensures
        step_action(Some(f1), Some(l1)) == UnwindAction::Next,
        step_action(Some(f2), Some(l2)) == UnwindAction::Next,
        step_action(Some(f3), Some(l3)) == UnwindAction::Finished,
        ({
            let s1 = step_frames(Seq::<StackFrame>::empty(), a1, Some(f1), Some(l1));
            let s2 = step_frames(s1, a2, Some(f2), Some(l2));
            let s3 = step_frames(s2, a3, Some(f3), Some(l3));
            &&& s3.len() == 3
            &&& s3[0] == (StackFrame { addr: a1, function: f1, line: l1 })
            &&& s3[1] == (StackFrame { addr: a2, function: f2, line: l2 })
            &&& s3[2] == (StackFrame { addr: a3, function: f3, line: l3 })
        }),
{
}

} // verus!
