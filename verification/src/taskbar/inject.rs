//! Loading the painter into the shell's process and talking to it.
//!
//! The loader installs a hook on the taskbar's thread, makes the system map the library
//! by sending that thread a message, waits until the library says that it is connected,
//! and takes the hook out again. Each step may fail, and the first failure ends it.

use vstd::prelude::*;

verus! {

/// How long the loaded library may take to connect.
pub const READY_TIMEOUT_MS: u32 = 300_000;

/// How long a command may take. If the shell does not answer, a lost repaint is better
/// than a hanging thread.
pub const COMMAND_TIMEOUT_MS: u32 = 2_000;

/// The wait was satisfied.
pub const WAIT_OBJECT_0: u32 = 0;

/// The wait ran out of time.
pub const WAIT_TIMEOUT: u32 = 258;

/// Where the loader stands.
#[derive(Clone, Copy, Debug, PartialEq, Eq, Structural)]
pub enum Stage {
    /// Work out where the library is.
    Locate,
    /// See whether it is there.
    CheckFile,
    Load,
    FindExport,
    /// Find the taskbar's thread.
    FindThread,
    CreateEvent,
    InstallHook,
    /// Send the message that maps the library, and wait for it to connect.
    AwaitReady,
    /// Take the hook out and close the event, whatever the wait came to.
    CleanUp(u32),
    Loaded,
    Failed(InjectError),
}

/// Why nothing was loaded.
#[derive(Clone, Copy, Debug, PartialEq, Eq, Structural)]
pub enum InjectError {
    NoDirectory,
    Missing,
    NotLoaded,
    NoExport,
    TaskbarGone,
    NoEvent,
    NoHook,
    NotReady,
    WaitFailed(u32),
}

/// What a step came to: whether it went well, and for a wait its outcome.
#[derive(Clone, Copy, Debug, PartialEq, Eq, Structural)]
pub struct StepOutcome {
    pub done: bool,
    pub code: u32,
}

/// The stage after a step.
pub open spec fn after_step(stage: Stage, outcome: StepOutcome) -> Stage {
    match stage {
        Stage::Locate => if outcome.done {
            Stage::CheckFile
        } else {
            Stage::Failed(InjectError::NoDirectory)
        },
        Stage::CheckFile => if outcome.done {
            Stage::Load
        } else {
            Stage::Failed(InjectError::Missing)
        },
        Stage::Load => if outcome.done {
            Stage::FindExport
        } else {
            Stage::Failed(InjectError::NotLoaded)
        },
        Stage::FindExport => if outcome.done {
            Stage::FindThread
        } else {
            Stage::Failed(InjectError::NoExport)
        },
        Stage::FindThread => if outcome.done {
            Stage::CreateEvent
        } else {
            Stage::Failed(InjectError::TaskbarGone)
        },
        Stage::CreateEvent => if outcome.done {
            Stage::InstallHook
        } else {
            Stage::Failed(InjectError::NoEvent)
        },
        Stage::InstallHook => if outcome.done {
            Stage::AwaitReady
        } else {
            Stage::Failed(InjectError::NoHook)
        },
        Stage::AwaitReady => Stage::CleanUp(outcome.code),
        Stage::CleanUp(code) => if code == WAIT_OBJECT_0 {
            Stage::Loaded
        } else if code == WAIT_TIMEOUT {
            Stage::Failed(InjectError::NotReady)
        } else {
            Stage::Failed(InjectError::WaitFailed(code))
        },
        Stage::Loaded => Stage::Loaded,
        Stage::Failed(error) => Stage::Failed(error),
    }
}

/// Go on from a stage with what its step came to.
pub fn inject(stage: Stage, outcome: StepOutcome) -> (r: Stage)
    ensures
        r == after_step(stage, outcome),
{
    match stage {
        Stage::Locate => if outcome.done {
            Stage::CheckFile
        } else {
            Stage::Failed(InjectError::NoDirectory)
        },
        Stage::CheckFile => if outcome.done {
            Stage::Load
        } else {
            Stage::Failed(InjectError::Missing)
        },
        Stage::Load => if outcome.done {
            Stage::FindExport
        } else {
            Stage::Failed(InjectError::NotLoaded)
        },
        Stage::FindExport => if outcome.done {
            Stage::FindThread
        } else {
            Stage::Failed(InjectError::NoExport)
        },
        Stage::FindThread => if outcome.done {
            Stage::CreateEvent
        } else {
            Stage::Failed(InjectError::TaskbarGone)
        },
        Stage::CreateEvent => if outcome.done {
            Stage::InstallHook
        } else {
            Stage::Failed(InjectError::NoEvent)
        },
        Stage::InstallHook => if outcome.done {
            Stage::AwaitReady
        } else {
            Stage::Failed(InjectError::NoHook)
        },
        Stage::AwaitReady => Stage::CleanUp(outcome.code),
        Stage::CleanUp(code) => if code == WAIT_OBJECT_0 {
            Stage::Loaded
        } else if code == WAIT_TIMEOUT {
            Stage::Failed(InjectError::NotReady)
        } else {
            Stage::Failed(InjectError::WaitFailed(code))
        },
        Stage::Loaded => Stage::Loaded,
        Stage::Failed(error) => Stage::Failed(error),
    }
}

/// Was a command applied? It was delivered, and the painter said yes.
pub fn send(delivered: isize, result: usize) -> (r: bool)
    ensures
        r == (delivered != 0 && result != 0),
{
    delivered != 0 && result != 0
}

/// The painter's command window, given what the search for it found.
pub fn find_channel(found: Option<isize>) -> (r: Option<isize>)
    ensures
        r == crate::taskbar::shell::found_window(found),
{
    crate::taskbar::shell::primary_taskbar(found)
}

/// A hook that was installed is always taken out again before the end, whatever came of
/// the wait.
pub proof fn an_installed_hook_is_taken_out(outcome: StepOutcome, later: StepOutcome)
    ensures
        after_step(Stage::AwaitReady, outcome) is CleanUp,
        after_step(after_step(Stage::AwaitReady, outcome), later) is Loaded || after_step(
            after_step(Stage::AwaitReady, outcome),
            later,
        ) is Failed,
{
}

/// The place of a stage on the way to a loaded library.
pub open spec fn stage_number(stage: Stage) -> int {
    match stage {
        Stage::Locate => 0,
        Stage::CheckFile => 1,
        Stage::Load => 2,
        Stage::FindExport => 3,
        Stage::FindThread => 4,
        Stage::CreateEvent => 5,
        Stage::InstallHook => 6,
        Stage::AwaitReady => 7,
        Stage::CleanUp(_) => 8,
        Stage::Loaded => 9,
        Stage::Failed(_) => 10,
    }
}

/// A step that goes well leads to the next stage and a step that fails ends the loading, with
/// an error of its own. The wait is always followed by cleaning up, and then its outcome
/// decides: zero is success, 258 a painter that was not ready in time, anything else a wait
/// that failed. An end is an end.
pub proof fn loading_goes_step_by_step(
    stage: Stage,
    other: Stage,
    outcome: StepOutcome,
    later: StepOutcome,
)
    ensures
        stage_number(stage) < 7 && outcome.done ==> stage_number(after_step(stage, outcome))
            == stage_number(stage) + 1,
        stage_number(stage) < 7 && !outcome.done ==> after_step(stage, outcome) is Failed,
        stage_number(stage) < 7 && stage_number(other) < 7 && stage != other && !outcome.done
            ==> after_step(stage, outcome) != after_step(other, outcome),
        after_step(Stage::AwaitReady, outcome) == Stage::CleanUp(outcome.code),
        after_step(Stage::CleanUp(outcome.code), later) is Loaded <==> outcome.code == 0,
        outcome.code == 258 ==> after_step(Stage::CleanUp(outcome.code), later) == Stage::Failed(
            InjectError::NotReady,
        ),
        outcome.code != 0 && outcome.code != 258 ==> after_step(
            Stage::CleanUp(outcome.code),
            later,
        ) == Stage::Failed(InjectError::WaitFailed(outcome.code)),
        stage_number(stage) >= 9 ==> after_step(stage, outcome) == stage,
{
}

/// Each failing step says what was missing.
pub proof fn a_failed_step_says_why(code: u32)
    ensures
        ({
            let failed = StepOutcome { done: false, code };
            &&& after_step(Stage::Locate, failed) == Stage::Failed(InjectError::NoDirectory)
            &&& after_step(Stage::CheckFile, failed) == Stage::Failed(InjectError::Missing)
            &&& after_step(Stage::Load, failed) == Stage::Failed(InjectError::NotLoaded)
            &&& after_step(Stage::FindExport, failed) == Stage::Failed(InjectError::NoExport)
            &&& after_step(Stage::FindThread, failed) == Stage::Failed(InjectError::TaskbarGone)
            &&& after_step(Stage::CreateEvent, failed) == Stage::Failed(InjectError::NoEvent)
            &&& after_step(Stage::InstallHook, failed) == Stage::Failed(InjectError::NoHook)
        }),
{
}

/// The library has five minutes to connect, and a command two seconds.
pub proof fn loading_has_its_time()
    ensures
        READY_TIMEOUT_MS == 5 * 60 * 1000,
        COMMAND_TIMEOUT_MS == 2 * 1000,
{
}

} // verus!
