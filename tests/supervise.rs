use prex::error::LaunchError;
use prex::process::{
    close_command, group_target, poll_step, run_outcome, shell_image, shutdown_plan, GroupSignal,
    PollStep, ShutdownAction,
};

#[test]
fn exit_zero_succeeds() {
    let step = poll_step(Some(Some(0)), false);
    assert_eq!(step, PollStep::Succeeded);
    assert!(run_outcome(step).is_ok());
}

#[test]
fn exit_two_fails_with_code_two() {
    let step = poll_step(Some(Some(2)), true);
    assert_eq!(step, PollStep::Failed(Some(2)));
    assert!(matches!(run_outcome(step), Err(LaunchError::ExitStatus(Some(2)))));
}

#[test]
fn signalled_exit_has_no_code() {
    let step = poll_step(Some(None), false);
    assert_eq!(step, PollStep::Failed(None));
    assert!(matches!(run_outcome(step), Err(LaunchError::ExitStatus(None))));
}

#[test]
fn interrupt_while_running_shuts_down_and_succeeds() {
    let step = poll_step(None, true);
    assert_eq!(step, PollStep::Interrupt);
    assert!(run_outcome(step).is_ok());
}

#[test]
fn running_child_is_polled_again() {
    assert_eq!(poll_step(None, false), PollStep::Wait(100));
}

#[test]
fn full_shutdown_sequence() {
    assert_eq!(
        shutdown_plan(true, true, true),
        vec![
            ShutdownAction::CloseProgram,
            ShutdownAction::CloseShell,
            ShutdownAction::Pause(200),
            ShutdownAction::SignalGroup(GroupSignal::Terminate),
            ShutdownAction::Pause(500),
            ShutdownAction::SignalGroup(GroupSignal::Kill),
            ShutdownAction::Reap,
        ]
    );
}

#[test]
fn shutdown_without_runtime_only_signals() {
    assert_eq!(
        shutdown_plan(false, true, true),
        vec![
            ShutdownAction::SignalGroup(GroupSignal::Terminate),
            ShutdownAction::Pause(500),
            ShutdownAction::SignalGroup(GroupSignal::Kill),
            ShutdownAction::Reap,
        ]
    );
}

#[test]
fn group_target_negates_pid() {
    assert_eq!(group_target(1234).unwrap(), -1234);
    assert_eq!(group_target(2147483647).unwrap(), -2147483647);
    assert!(matches!(group_target(2147483648), Err(LaunchError::PidOutOfRange)));
}

#[test]
fn close_command_names_the_image() {
    assert_eq!(
        close_command("/p/wine64", "game.exe"),
        vec!["/p/wine64", "taskkill", "/F", "/IM", "game.exe"]
    );
    assert_eq!(shell_image(), "explorer.exe");
}
