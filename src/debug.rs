//! Decisions of the step debugger.
//!
//! The debugger runs around the interpreter: before each instruction it
//! announces the step, waits for a command and acts on it. What it does with
//! a command is decided here; waiting, announcing and rewinding the
//! interpreter happen around it.

use vstd::prelude::*;

verus! {

/// A command sent to the debugger.
#[derive(Clone, Copy, Debug, PartialEq, Eq)]
pub enum DebugCommand {
    /// Steps backwards, if a previous instruction pointer exists.
    StepBackwards,
    /// Steps forwards.
    StepForwards,
    /// Stops execution.
    Stop,
}

/// Why the debugger stopped execution.
#[derive(Clone, Copy, Debug, PartialEq, Eq)]
pub enum DebugError {
    /// The command channel was closed.
    CommandChannelClosed,
    /// Execution was stopped by one of the commanders.
    ExecutionStopped,
}

/// What is announced to listeners at each step.
#[derive(Clone, Copy, Debug, PartialEq, Eq)]
pub struct StepInfo {}

/// What the debugger does before an instruction.
#[derive(Clone, Copy, Debug, PartialEq, Eq)]
pub enum StepAction {
    /// Go on; `rewind` restores the last recorded step, `record_pointer`
    /// keeps the current instruction pointer.
    Continue { rewind: bool, record_pointer: bool },
    /// Stop execution with this error.
    Halt(DebugError),
}

/// The action for a received command (`None` when the channel is closed),
/// given how many steps are recorded.
pub fn step_action(command: Option<DebugCommand>, history_len: usize) -> (r: StepAction)
    ensures
        r == match command {
            None => StepAction::Halt(DebugError::CommandChannelClosed),
            Some(DebugCommand::Stop) => StepAction::Halt(DebugError::ExecutionStopped),
            Some(DebugCommand::StepBackwards) => StepAction::Continue {
                rewind: history_len > 0,
                record_pointer: false,
            },
            Some(DebugCommand::StepForwards) => StepAction::Continue {
                rewind: false,
                record_pointer: true,
            },
        },
{
    match command {
        None => StepAction::Halt(DebugError::CommandChannelClosed),
        Some(DebugCommand::Stop) => StepAction::Halt(DebugError::ExecutionStopped),
        Some(DebugCommand::StepBackwards) => StepAction::Continue { rewind: history_len > 0, record_pointer: false },
        Some(DebugCommand::StepForwards) => StepAction::Continue { rewind: false, record_pointer: true },
    }
}

} // verus!
