use textspill::audio::{
    confirm_started, start, stop, Sig, StopAction, StopEvent, StopStage, SHUTDOWN_TIMEOUT_MS,
};
use textspill::failure::Failure;

fn seen(running: bool, waited_ms: u64) -> StopEvent {
    StopEvent::Seen { running, waited_ms }
}

#[test]
fn the_recorder_captures_what_the_model_wants() {
    assert_eq!(
        start("/run/r.wav"),
        ["--rate", "16000", "--channels", "1", "--format", "s16", "--", "/run/r.wav"]
    );
}

#[test]
fn a_recorder_that_died_is_explained_by_its_log() {
    assert!(confirm_started(true, "noise").is_ok());
    let e = confirm_started(false, " no source\n").unwrap_err();
    assert_eq!(e.message(), "pw-record exited immediately: no source");
    let e = confirm_started(false, "\n").unwrap_err();
    assert_eq!(e.message(), "pw-record exited immediately");
}

#[test]
fn an_obedient_recorder_gets_one_interrupt() {
    let begin = StopStage::Checking(Sig::Interrupt);
    let (stage, action) = stop(7, begin, seen(true, 0));
    assert!(matches!(action, StopAction::Send(Sig::Interrupt)));
    let (stage, action) = stop(7, stage, StopEvent::Sent);
    assert!(matches!(action, StopAction::Look));
    let (stage, action) = stop(7, stage, seen(true, 20));
    assert!(matches!(action, StopAction::LookLater));
    let (stage, action) = stop(7, stage, seen(false, 30));
    assert!(matches!(action, StopAction::End(Ok(()))));
    assert_eq!(stage, StopStage::Over);
}

#[test]
fn a_recycled_pid_is_never_signalled() {
    let (stage, action) = stop(7, StopStage::Checking(Sig::Interrupt), seen(false, 0));
    assert!(matches!(action, StopAction::Look));
    let (_, action) = stop(7, stage, seen(false, 0));
    assert!(matches!(action, StopAction::End(Ok(()))));
    // Gone between the look and the signal.
    let (_, action) = stop(7, StopStage::Sending(Sig::Interrupt), StopEvent::Gone);
    assert!(matches!(action, StopAction::Look));
}

#[test]
fn a_stubborn_recorder_is_killed() {
    let waiting = StopStage::Waiting(Sig::Interrupt);
    let (stage, action) = stop(7, waiting, seen(true, SHUTDOWN_TIMEOUT_MS));
    assert!(matches!(action, StopAction::Look));
    let (stage, action) = stop(7, stage, seen(true, 0));
    assert!(matches!(action, StopAction::Send(Sig::Kill)));
    let (stage, _) = stop(7, stage, StopEvent::Sent);
    let (_, action) = stop(7, stage, seen(true, SHUTDOWN_TIMEOUT_MS));
    match action {
        StopAction::End(Err(e)) => assert_eq!(e.message(), "pw-record (pid 7) would not exit"),
        _ => panic!("expected a failure"),
    }
}

#[test]
fn a_signal_that_fails_is_told() {
    let event = StopEvent::SendFailed("EPERM".into());
    match stop(7, StopStage::Sending(Sig::Kill), event).1 {
        StopAction::End(Err(e)) => {
            assert_eq!(e.message(), "failed to send SIGKILL to pid 7: EPERM");
        }
        _ => panic!("expected a failure"),
    }
    match stop(7, StopStage::Over, StopEvent::Sent).1 {
        StopAction::End(Err(Failure::OutOfTurn)) => {}
        _ => panic!("expected a failure"),
    }
}
