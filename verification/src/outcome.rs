//! The events and outcomes of a selection run.
//!
//! One draw of the selection loop is evaluated in two stages: the result of
//! re-reading the candidate's metadata ([`StatInfo`]) yields a decision
//! ([`DrawDecision`]); if that decision is to attempt the copy, the result of
//! the attempt ([`CopyResult`]) yields the final per-draw [`Outcome`].

use vstd::prelude::*;

verus! {

/// The state of a whole run. `Full` and `Exhausted` are terminal.
#[derive(Clone, Copy, PartialEq, Eq, Debug)]
pub enum RunState {
    /// Candidates may still be drawn.
    Running,
    /// A drawn candidate's size exceeded the remaining budget; the run halted.
    Full,
    /// The candidate pool emptied before the budget was used up.
    Exhausted,
}

/// What re-reading a drawn candidate's metadata showed.
#[derive(Clone, Copy, PartialEq, Eq, Debug)]
pub enum StatInfo {
    /// The path vanished, or is no longer a regular file.
    NotRegular,
    /// The path is a regular file of the given current size in bytes.
    Regular { size: u64 },
}

/// What to do with a drawn candidate, given its [`StatInfo`].
#[derive(Clone, Copy, PartialEq, Eq, Debug)]
pub enum DrawDecision {
    /// Drop the candidate without charging the budget; keep drawing.
    SkipNotRegular,
    /// The candidate does not fit the remaining budget: halt the run.
    HaltFull,
    /// The candidate fits: attempt to copy it to the destination.
    TryCopy,
}

/// How an attempted copy of a fitting candidate went.
#[derive(Clone, Copy, PartialEq, Eq, Debug)]
pub enum CopyResult {
    /// A file with the candidate's base name already exists at the
    /// destination; the copy was not attempted.
    DestExists,
    /// The copy succeeded and wrote this many bytes.
    Done { written: u64 },
    /// The copy failed; nothing is charged to the budget.
    Failed,
}

/// The outcome of processing one drawn candidate.
#[derive(Clone, Copy, PartialEq, Eq, Debug)]
pub enum Outcome {
    /// The candidate was copied and this many bytes were charged.
    Copied { written: u64 },
    /// The candidate was no longer a regular file at draw time.
    SkippedNotARegularFile,
    /// A same-named destination file already existed; silently skipped.
    SkippedAlreadyExistsAtDestination,
    /// The copy failed; the run continues and the budget is unchanged.
    SkippedCopyFailed,
    /// The candidate did not fit the remaining budget; the run halted.
    RunHalted,
}

} // verus!
