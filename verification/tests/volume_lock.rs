//! The protocol with the process that holds volume locks.
use e_waste::volume_lock::{
    acquire, build_helper_script, release, wait_for_exit, AcquireAction, AcquireEvent, ExitPoll,
    HelperStage, LockError, LockHelper, LockLifecycle, ReleaseAction, ReleaseEvent, SignalOutcome,
    WaitStep,
};

#[test]
fn build_helper_script_embeds_each_drive_letter() {
    let script = build_helper_script(&['E', 'F']);
    assert!(script.contains("@('E','F')"));
}

#[test]
fn build_helper_script_handles_no_letters() {
    let script = build_helper_script(&[]);
    assert!(script.contains("@()"));
}

#[test]
fn lock_error_display_includes_stderr_when_present() {
    let e = LockError::HelperExited {
        stderr: "boom".to_string(),
    };
    assert!(e.message().contains("boom"));
}

#[test]
fn lock_error_display_omits_empty_stderr() {
    let e = LockError::HelperExited {
        stderr: "".to_string(),
    };
    assert!(!e.message().contains(':'));
}

/// A helper that was started and waits for its first line.
fn waiting() -> LockHelper {
    let (mut helper, action) = LockHelper::start(&['E']);
    match action {
        AcquireAction::Spawn(script) => assert_eq!(script, build_helper_script(&['E'])),
        other => panic!("expected a start, got {:?}", other),
    }
    assert!(matches!(
        acquire(&mut helper, AcquireEvent::Spawned),
        AcquireAction::AwaitLine
    ));
    helper
}

/// A helper that holds its locks and is being told to release them.
fn signalling() -> LockHelper {
    let mut helper = waiting();
    acquire(&mut helper, AcquireEvent::Line("LOCKED".to_string()));
    assert_eq!(helper.stage, HelperStage::Held);
    assert_eq!(helper.begin_release(), ReleaseAction::Signal);
    helper
}

fn error_after(events: Vec<AcquireEvent>) -> LockError {
    let mut helper = waiting();
    let mut last = AcquireAction::AwaitLine;
    for event in events {
        last = acquire(&mut helper, event);
    }
    assert_eq!(helper.stage, HelperStage::Gone);
    match last {
        AcquireAction::Finish(Err(e)) => e,
        other => panic!("expected a failure, got {:?}", other),
    }
}

fn lifecycle_after(events: Vec<ReleaseEvent>) -> LockLifecycle {
    let mut helper = signalling();
    let mut last = ReleaseAction::Signal;
    for event in events {
        last = release(&mut helper, event);
    }
    assert_eq!(helper.stage, HelperStage::Gone);
    match last {
        ReleaseAction::Finish(outcome) => outcome,
        other => panic!("expected an end, got {:?}", other),
    }
}

fn line(s: &str) -> ReleaseEvent {
    ReleaseEvent::Line(s.to_string())
}

#[test]
fn the_script_is_complete() {
    let script = build_helper_script(&['E', 'F']);
    assert!(script.starts_with(
        "[Console]::OutputEncoding=[Text.Encoding]::UTF8; \
$OutputEncoding=[Text.Encoding]::UTF8;\n$ErrorActionPreference = 'Stop'\ntry {\n    Add-Type"
    ));
    assert!(script.contains("\n    $letters = @('E','F')\n    $handles = New-Object"));
    assert!(script.contains("$path = \"\\\\.\\${letter}:\"\n"));
    assert!(script.contains("    Write-Output \"LOCKED\"\n"));
    assert!(script.ends_with("    exit 1\n}\n"));
    assert!(!script.contains("{{") && !script.contains("}}"));
}

#[test]
fn locks_are_held_only_when_confirmed() {
    let mut helper = waiting();
    assert!(matches!(
        acquire(&mut helper, AcquireEvent::Line("LOCKED".to_string())),
        AcquireAction::Finish(Ok(()))
    ));
    assert_eq!(helper.stage, HelperStage::Held);
    assert!(matches!(
        error_after(vec![AcquireEvent::Line("LOCKED ".to_string())]),
        LockError::UnexpectedMessage(_)
    ));
}

#[test]
fn failed_acquisitions_say_why() {
    let (mut helper, _) = LockHelper::start(&[]);
    match acquire(&mut helper, AcquireEvent::SpawnFailed("missing".to_string())) {
        AcquireAction::Finish(Err(e)) => assert_eq!(
            e.message(),
            "could not start volume-lock helper: missing"
        ),
        other => panic!("expected a failure, got {:?}", other),
    }
    assert_eq!(
        error_after(vec![AcquireEvent::Line("ERROR: lock failed".to_string())]).message(),
        "volume-lock helper reported: lock failed"
    );
    assert_eq!(
        error_after(vec![AcquireEvent::Line("say \"hi\"".to_string())]).message(),
        "volume-lock helper sent an unexpected message: \"say \\\"hi\\\"\""
    );
    assert_eq!(
        error_after(vec![AcquireEvent::ReadFailed("broken".to_string())]).message(),
        "I/O error talking to the volume-lock helper: broken"
    );
    assert_eq!(
        error_after(vec![AcquireEvent::TimedOut, AcquireEvent::Killed]).message(),
        "timed out waiting for the volume-lock helper"
    );
    assert_eq!(
        error_after(vec![
            AcquireEvent::Disconnected,
            AcquireEvent::Drained(" boom\r\n".to_string())
        ])
        .message(),
        "volume-lock helper exited before confirming a lock: boom"
    );
    assert_eq!(
        LockError::UnexpectedMessage("x".to_string()).describe("<x>"),
        "volume-lock helper sent an unexpected message: <x>"
    );
}

#[test]
fn releases_are_reported_as_they_went() {
    let sent = || ReleaseEvent::Signalled(SignalOutcome::Sent);
    assert_eq!(
        lifecycle_after(vec![
            sent(),
            line("noise"),
            line("RELEASED"),
            ReleaseEvent::Exited
        ]),
        LockLifecycle::CleanRelease
    );
    assert_eq!(
        lifecycle_after(vec![
            ReleaseEvent::Signalled(SignalOutcome::NoPipe),
            line("RELEASED"),
            ReleaseEvent::Exited
        ]),
        LockLifecycle::CleanRelease
    );
    assert_eq!(
        lifecycle_after(vec![sent(), line("RELEASED"), ReleaseEvent::Killed]),
        LockLifecycle::ReleaseTimedOut
    );
    assert_eq!(
        lifecycle_after(vec![sent(), ReleaseEvent::Disconnected, ReleaseEvent::Exited]),
        LockLifecycle::ReleaseUnconfirmed
    );
    assert_eq!(
        lifecycle_after(vec![sent(), ReleaseEvent::ReadFailed, ReleaseEvent::Exited]),
        LockLifecycle::ReleaseUnconfirmed
    );
    assert_eq!(
        lifecycle_after(vec![sent(), ReleaseEvent::TimedOut, ReleaseEvent::Killed]),
        LockLifecycle::ReleaseTimedOut
    );
    assert_eq!(
        lifecycle_after(vec![
            ReleaseEvent::Signalled(SignalOutcome::Failed),
            ReleaseEvent::Exited
        ]),
        LockLifecycle::HelperAlreadyGone
    );
    assert_eq!(
        lifecycle_after(vec![
            ReleaseEvent::Signalled(SignalOutcome::Failed),
            ReleaseEvent::Killed
        ]),
        LockLifecycle::ReleaseTimedOut
    );
}

#[test]
fn a_process_is_awaited_until_time_is_up() {
    assert_eq!(wait_for_exit(ExitPoll::Exited, true), WaitStep::Exited);
    assert_eq!(wait_for_exit(ExitPoll::Running, false), WaitStep::Sleep);
    assert_eq!(
        wait_for_exit(ExitPoll::Running, true),
        WaitStep::KillAndGiveUp
    );
    assert_eq!(wait_for_exit(ExitPoll::Exited, false), WaitStep::Exited);
    assert_eq!(wait_for_exit(ExitPoll::Unknown, false), WaitStep::Sleep);
    assert_eq!(
        wait_for_exit(ExitPoll::Unknown, true),
        WaitStep::KillAndGiveUp
    );
    let helper = signalling();
    assert!(helper.is_alive(ExitPoll::Running));
    assert!(!helper.is_alive(ExitPoll::Exited));
    assert!(!helper.is_alive(ExitPoll::Unknown));
}

#[test]
fn only_the_letter_list_changes_in_the_script() {
    let blank = build_helper_script(&[]);
    for (letters, list) in [
        (vec!['E'], "@('E')"),
        (vec!['E', 'F'], "@('E','F')"),
        (vec![], "@()"),
    ] {
        assert_eq!(
            build_helper_script(&letters),
            blank.replacen("@()", list, 1)
        );
    }
}

#[test]
fn a_helper_whose_state_cannot_be_told_is_killed_when_time_is_up() {
    let mut helper = signalling();
    release(&mut helper, ReleaseEvent::Signalled(SignalOutcome::Sent));
    assert_eq!(
        release(&mut helper, ReleaseEvent::Disconnected),
        ReleaseAction::AwaitExit
    );
    let mut steps = vec![];
    for time_is_up in [false, false, true] {
        steps.push(wait_for_exit(ExitPoll::Unknown, time_is_up));
    }
    assert_eq!(
        steps,
        vec![WaitStep::Sleep, WaitStep::Sleep, WaitStep::KillAndGiveUp]
    );
    assert_eq!(
        release(&mut helper, ReleaseEvent::Killed),
        ReleaseAction::Finish(LockLifecycle::ReleaseTimedOut)
    );
}
