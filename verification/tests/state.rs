use textspill::failure::Failure;
use textspill::host::Removal;
use textspill::state::{
    acquire_lock, current, is_running, live_pid, read_pid, remove_pid, write_pid, LockAttempt,
    LockStep, Probe, State, LOCK_POLL_MS, LOCK_TIMEOUT_MS,
};

fn probe(file: Option<&str>, stat: Option<&str>, named: Option<&str>) -> Probe {
    Probe {
        file: file.map(String::from),
        stat: stat.map(String::from),
        named: named.map(String::from),
    }
}

#[test]
fn state_is_displayed_as_the_documented_status_words() {
    assert_eq!(State::Idle.as_str(), "idle");
    assert_eq!(State::Recording { pid: 1 }.as_str(), "recording");
    assert_eq!(State::Transcribing.as_str(), "transcribing");
}

#[test]
fn is_running_matches_only_the_expected_process() {
    let stat = "4242 (own name) S 1 4242";
    assert!(is_running(Some(stat), Some("own name\n"), "own name"));
    // Same PID, wrong program: this is what a recycled PID looks like.
    assert!(!is_running(Some(stat), Some("own name\n"), "definitely-not-this"));
}

#[test]
fn is_running_is_false_for_a_dead_process() {
    assert!(!is_running(None, None, "pw-record"));
}

#[test]
fn zombies_do_not_run() {
    assert!(!is_running(Some("7 (pw-record) Z 1"), Some("pw-record\n"), "pw-record"));
    assert!(!is_running(Some("7 (pw-record) X 1"), Some("pw-record\n"), "pw-record"));
    // The letter behind the last bracket counts, whatever the name holds.
    assert!(is_running(Some("7 (a) Z) S 1"), Some("a) Z\n"), "a) Z"));
    assert!(is_running(Some("7 (pw-record)"), Some("pw-record\n"), "pw-record"));
}

#[test]
fn the_kernel_truncates_names() {
    assert!(is_running(None, Some("definitely-not-\n"), "definitely-not-this"));
    assert!(!is_running(None, Some("definitely-not-this\n"), "definitely-not-this"));
}

#[test]
fn pid_file_round_trips() {
    let missing = live_pid(&probe(None, None, None), "pw-record");
    assert_eq!(missing.pid, None, "missing file reads as None");
    assert!(!missing.discard);

    let text = write_pid(4242);
    assert_eq!(text, "4242\n");
    assert_eq!(read_pid(&text), Some(4242));
    assert!(remove_pid("recording.pid", Removal::Removed).is_ok());
    // Removing again is not an error: cleanup runs on paths that may be gone.
    assert!(remove_pid("recording.pid", Removal::Missing).is_ok());
    assert_eq!(live_pid(&probe(None, None, None), "pw-record").pid, None);
    let failed = remove_pid("recording.pid", Removal::Failed("busy".into())).unwrap_err();
    assert_eq!(failed.message(), "failed to remove recording.pid: busy");
}

#[test]
fn malformed_pid_file_is_discarded() {
    for junk in ["", "not-a-pid", "0", "-1", "99999999999999999999"] {
        assert_eq!(read_pid(junk), None, "junk: {junk:?}");
        let found = live_pid(&probe(Some(junk), None, None), "any-name");
        assert_eq!(found.pid, None);
        assert!(found.discard, "junk {junk:?} should have been removed");
        let reading = current(&probe(Some(junk), None, None), &probe(None, None, None));
        assert!(reading.discard_recording, "junk {junk:?} should have been removed");
        assert_eq!(reading.state, State::Idle);
    }
    assert_eq!(read_pid("2147483648"), None);
    assert_eq!(read_pid(" +2147483647 \n"), Some(i32::MAX));
    assert_eq!(read_pid("+"), None);
}

#[test]
fn live_pid_keeps_a_matching_process_and_cleans_up_a_stale_one() {
    let live = probe(Some("4242\n"), Some("4242 (pw-record) S 1"), Some("pw-record\n"));
    let found = live_pid(&live, "pw-record");
    assert_eq!(found.pid, Some(4242));
    assert!(!found.discard, "a live pid file must survive");
    let reading = current(&live, &probe(None, None, None));
    assert_eq!(reading.state, State::Recording { pid: 4242 });
    assert!(!reading.discard_recording, "a live pid file must survive");

    let stale = probe(Some("1073741823\n"), None, None);
    let found = live_pid(&stale, "pw-record");
    assert_eq!(found.pid, None);
    assert!(found.discard, "a stale pid file must be removed");
    // Under another name the file is stale, too.
    let found = live_pid(&live, "other");
    assert!(found.pid.is_none() && found.discard);
    let reading = current(&stale, &probe(None, None, None));
    assert!(reading.discard_recording, "a stale pid file must be removed");
}

#[test]
fn a_recorder_decides_before_a_transcriber() {
    let recorder = probe(Some("1\n"), None, Some("pw-record\n"));
    let transcriber = probe(Some("2\n"), None, Some("textspill\n"));
    let none = probe(None, None, None);
    assert_eq!(current(&recorder, &transcriber).state, State::Recording { pid: 1 });
    assert_eq!(current(&none, &transcriber).state, State::Transcribing);
    let crashed = probe(Some("1\n"), None, Some("bash\n"));
    let reading = current(&crashed, &transcriber);
    assert_eq!(reading.state, State::Transcribing);
    assert!(reading.discard_recording && !reading.discard_transcribing);
    let gone = probe(Some("2\n"), None, None);
    let reading = current(&none, &gone);
    assert_eq!(reading.state, State::Idle);
    assert!(!reading.discard_recording && reading.discard_transcribing);
    // With a live recorder the other file is not looked at.
    assert!(!current(&recorder, &gone).discard_transcribing);
}

#[test]
fn a_waiting_command_gets_the_lock_when_the_holder_finishes() {
    let path = "/run/user/1000/textspill/textspill.lock";
    assert!(matches!(acquire_lock(path, LockAttempt::Held, 0), LockStep::Wait));
    assert!(matches!(acquire_lock(path, LockAttempt::Held, 100), LockStep::Wait));
    assert!(matches!(acquire_lock(path, LockAttempt::Taken, 120), LockStep::Proceed));
}

#[test]
fn waiting_for_the_lock_gives_up_eventually() {
    let path = "/run/user/1000/textspill/textspill.lock";
    assert!(matches!(
        acquire_lock(path, LockAttempt::Held, LOCK_TIMEOUT_MS - 1),
        LockStep::Wait
    ));
    match acquire_lock(path, LockAttempt::Held, LOCK_TIMEOUT_MS) {
        LockStep::Refuse(e) => assert!(e.message().contains("held the lock"), "{}", e.message()),
        _ => panic!("a wedged holder must not block forever"),
    }
    // The lock is taken even at the last moment.
    assert!(matches!(
        acquire_lock(path, LockAttempt::Taken, LOCK_TIMEOUT_MS + 1),
        LockStep::Proceed
    ));
}

#[test]
fn a_broken_lock_is_reported() {
    match acquire_lock("l", LockAttempt::Broken("EIO".into()), 0) {
        LockStep::Refuse(Failure::LockBroken { path, cause }) => {
            assert_eq!((path.as_str(), cause.as_str()), ("l", "EIO"));
        }
        _ => panic!("expected a refusal"),
    }
    match acquire_lock("l", LockAttempt::Unopened("EACCES".into()), 0) {
        LockStep::Refuse(e) => {
            assert_eq!(e.message(), "failed to open lock file l: EACCES");
        }
        _ => panic!("expected a refusal"),
    }
}

/// Asks for a lock every `gap` ms that is let go after `free` ms: when it was taken, or
/// when the wait was given up.
fn wait_for_lock(gap: u64, free: u64) -> Result<u64, (u64, Failure)> {
    let mut waited = 0;
    loop {
        let attempt = if waited < free { LockAttempt::Held } else { LockAttempt::Taken };
        match acquire_lock("/r/textspill.lock", attempt, waited) {
            LockStep::Proceed => return Ok(waited),
            LockStep::Refuse(failure) => return Err((waited, failure)),
            LockStep::Wait => waited += gap,
        }
    }
}

#[test]
fn a_command_waits_for_the_lock_and_no_longer_than_it_may() {
    assert!(matches!(wait_for_lock(LOCK_POLL_MS, 0), Ok(0)));
    assert!(matches!(wait_for_lock(LOCK_POLL_MS, 2990), Ok(3000)));
    for gap in [LOCK_POLL_MS, 700, 1999] {
        match wait_for_lock(gap, u64::MAX) {
            Err((waited, failure)) => {
                assert!(LOCK_TIMEOUT_MS <= waited && waited < LOCK_TIMEOUT_MS + gap);
                assert!(failure.message().contains("held the lock"));
            }
            Ok(_) => panic!("the lock was never let go"),
        }
    }
}
