//! The decisions of the process supervisor: what to do on each poll of the
//! child, and how to shut its process group down on an interrupt.
use vstd::prelude::*;
use vstd::string::*;
use crate::error::LaunchError;

verus! {

/// How long to wait between two polls of the child, in milliseconds.
pub const POLL_INTERVAL_MS: u64 = 100;

/// How long to let the runtime's window shell close, in milliseconds.
pub const SHELL_SETTLE_MS: u64 = 200;

/// How long to wait between the polite and the forceful signal, in milliseconds.
pub const TERM_GRACE_MS: u64 = 500;

/// What to do after one poll of the child.
#[derive(PartialEq, Eq, Structural, Clone, Copy, Debug)]
pub enum PollStep {
    /// The child exited with status 0.
    Succeeded,
    /// The child exited otherwise; its exit code, if it had one.
    Failed(Option<i32>),
    /// The child runs and an interrupt was requested: shut it down.
    Interrupt,
    /// The child runs: wait this many milliseconds and poll again.
    Wait(u64),
}

/// The signal sent to the child's process group.
#[derive(PartialEq, Eq, Structural, Clone, Copy, Debug)]
pub enum GroupSignal {
    /// The polite request to terminate.
    Terminate,
    /// The forceful kill.
    Kill,
}

/// One step of the shutdown sequence.
#[derive(PartialEq, Eq, Structural, Clone, Copy, Debug)]
pub enum ShutdownAction {
    /// Ask the runtime to force-close the launched program (best effort).
    CloseProgram,
    /// Ask the runtime to force-close its window shell (best effort).
    CloseShell,
    /// Sleep this many milliseconds.
    Pause(u64),
    /// Send a signal to the whole process group.
    SignalGroup(GroupSignal),
    /// Wait for the child so that it is reaped.
    Reap,
}

/// The decision after a poll: `exited` is the child's exit, if it has
/// exited, with its code when it had one.
pub open spec fn poll_spec(exited: Option<Option<i32>>, interrupted: bool) -> PollStep {
    match exited {
        Some(code) => if code == Some(0i32) {
            PollStep::Succeeded
        } else {
            PollStep::Failed(code)
        },
        None => if interrupted {
            PollStep::Interrupt
        } else {
            PollStep::Wait(POLL_INTERVAL_MS)
        },
    }
}

/// Decides what to do after polling the child (see `poll_spec`).
pub fn poll_step(exited: Option<Option<i32>>, interrupted: bool) -> (r: PollStep)
    ensures
        r == poll_spec(exited, interrupted),
{
    match exited {
        Some(code) => {
            if code == Some(0i32) {
                PollStep::Succeeded
            } else {
                PollStep::Failed(code)
            }
        },
        None => {
            if interrupted {
                PollStep::Interrupt
            } else {
                PollStep::Wait(POLL_INTERVAL_MS)
            }
        },
    }
}

/// The result of a supervised run that ended with `step`: success for a clean
/// exit and for an interrupted run, the exit status otherwise.
pub open spec fn outcome_spec(step: PollStep, r: Result<(), LaunchError>) -> bool {
    match step {
        PollStep::Failed(code) => r is Err && r->Err_0 is ExitStatus && r->Err_0->ExitStatus_0
            == code,
        _ => r is Ok,
    }
}

/// The result that a supervised run reports once it ends with `step`.
pub fn run_outcome(step: PollStep) -> (r: Result<(), LaunchError>)
    ensures
        outcome_spec(step, r),
{
    match step {
        PollStep::Failed(code) => Err(LaunchError::ExitStatus(code)),
        _ => Ok(()),
    }
}

/// A child that exits with status 0 makes the run succeed; one that exits
/// with another code makes it fail with that code; a child still running
/// when an interrupt is seen is shut down, and the run then succeeds.
pub proof fn lemma_run_outcomes(code: i32, interrupted: bool, r: Result<(), LaunchError>)
    ensures
        poll_spec(Some(Some(0i32)), interrupted) == PollStep::Succeeded,
        outcome_spec(poll_spec(Some(Some(0i32)), interrupted), r) ==> r is Ok,
        code != 0 ==> poll_spec(Some(Some(code)), interrupted) == PollStep::Failed(Some(code)),
        code != 0 && outcome_spec(poll_spec(Some(Some(code)), interrupted), r) ==> (r is Err
            && r->Err_0 is ExitStatus && r->Err_0->ExitStatus_0 == Some(code)),
        poll_spec(None, true) == PollStep::Interrupt,
        outcome_spec(PollStep::Interrupt, r) ==> r is Ok,
{
}

/// The shutdown sequence: close the program if the runtime and the program
/// are known; close the window shell and let it settle if the launch used a
/// virtual desktop and the runtime is known; then terminate the group, wait,
/// kill it, and reap the child.
pub open spec fn shutdown_spec(has_runtime: bool, has_program: bool, bypass: bool) -> Seq<
    ShutdownAction,
> {
    (if has_runtime && has_program {
        seq![ShutdownAction::CloseProgram]
    } else {
        Seq::empty()
    }) + (if bypass && has_runtime {
        seq![ShutdownAction::CloseShell, ShutdownAction::Pause(SHELL_SETTLE_MS)]
    } else {
        Seq::empty()
    }) + seq![
        ShutdownAction::SignalGroup(GroupSignal::Terminate),
        ShutdownAction::Pause(TERM_GRACE_MS),
        ShutdownAction::SignalGroup(GroupSignal::Kill),
        ShutdownAction::Reap,
    ]
}

/// The steps that shut the child's process group down (see `shutdown_spec`).
pub fn shutdown_plan(has_runtime: bool, has_program: bool, bypass: bool) -> (r: Vec<ShutdownAction>)
    ensures
        r@ == shutdown_spec(has_runtime, has_program, bypass),
{
    let mut r: Vec<ShutdownAction> = Vec::new();
    if has_runtime && has_program {
        r.push(ShutdownAction::CloseProgram);
    }
    if bypass && has_runtime {
        r.push(ShutdownAction::CloseShell);
        r.push(ShutdownAction::Pause(SHELL_SETTLE_MS));
    }
    r.push(ShutdownAction::SignalGroup(GroupSignal::Terminate));
    r.push(ShutdownAction::Pause(TERM_GRACE_MS));
    r.push(ShutdownAction::SignalGroup(GroupSignal::Kill));
    r.push(ShutdownAction::Reap);
    assert(r@ =~= shutdown_spec(has_runtime, has_program, bypass));
    r
}

/// The target that signals the whole process group led by the child: the
/// negated process id, which must fit a signed process id.
pub fn group_target(pid: u32) -> (r: Result<i32, LaunchError>)
    ensures
        pid <= i32::MAX ==> (r is Ok && r->Ok_0 == -(pid as int)),
        pid > i32::MAX ==> (r is Err && r->Err_0 is PidOutOfRange),
{
    if pid <= 2147483647u32 {
        let p = pid as i32;
        Ok(-p)
    } else {
        Err(LaunchError::PidOutOfRange)
    }
}

/// The runtime invocation that force-closes a program by its image name.
pub fn close_command(runtime: &str, image: &str) -> (r: Vec<String>)
    ensures
        r@.len() == 5,
        r@[0]@ == runtime@,
        r@[1]@ == "taskkill"@,
        r@[2]@ == "/F"@,
        r@[3]@ == "/IM"@,
        r@[4]@ == image@,
{
    let mut r: Vec<String> = Vec::new();
    r.push(String::from_str(runtime));
    r.push(String::from_str("taskkill"));
    r.push(String::from_str("/F"));
    r.push(String::from_str("/IM"));
    r.push(String::from_str(image));
    r
}

/// The image name of the runtime's window shell.
pub fn shell_image() -> (r: String)
    ensures
        r@ == "explorer.exe"@,
{
    String::from_str("explorer.exe")
}

} // verus!
