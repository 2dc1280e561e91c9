//! Microphone capture.
//!
//! Recording is done by `pw-record`, which already handles device selection,
//! resampling and WAV muxing, and finalises the RIFF header on SIGINT.
//! Everything PipeWire-specific is confined to this module.

use crate::failure::Failure;
use crate::text::{texts, to_text, trim, trimmed};
use vstd::prelude::*;

verus! {

/// The executable we spawn, and the `comm` we expect to find in `/proc`.
pub const PROCESS_NAME: &'static str = "pw-record";

/// How long a stopped recorder gets to flush the WAV header before SIGKILL.
pub const SHUTDOWN_TIMEOUT_MS: u64 = 2000;

/// How long to wait between two looks at a recorder that is to exit.
pub const POLL_INTERVAL_MS: u64 = 10;

/// How long we wait to notice that capture failed to come up at all.
pub const STARTUP_CHECK_MS: u64 = 150;

/// The arguments for `pw-record` to write `wav`.
pub open spec fn recorder_args(wav: Seq<char>) -> Seq<Seq<char>> {
    seq![
        "--rate"@,
        "16000"@,
        "--channels"@,
        "1"@,
        "--format"@,
        "s16"@,
        "--"@,
        wav,
    ]
}

/// The arguments for `pw-record` to write `wav`: what the ASR model wants, 16 kHz
/// mono 16-bit PCM.
pub fn start(wav: &str) -> (args: Vec<String>)
    ensures
        texts(args@) == recorder_args(wav@),
{
    let args = vec![
        to_text("--rate"),
        to_text("16000"),
        to_text("--channels"),
        to_text("1"),
        to_text("--format"),
        to_text("s16"),
        to_text("--"),
        to_text(wav),
    ];
    assert(texts(args@) =~= seq![
        "--rate"@,
        "16000"@,
        "--channels"@,
        "1"@,
        "--format"@,
        "s16"@,
        "--"@,
        wav@,
    ]);
    args
}

/// What seeing whether the recorder came up comes to.
pub open spec fn comes_up(running: bool, log: Seq<char>, r: Result<(), Failure>) -> bool {
    match r {
        Ok(()) => running,
        Err(failure) => {
            &&& !running
            &&& failure matches Failure::RecorderExited { reason } && reason@ == trimmed(log)
        },
    }
}

/// Returns an error if the recorder died right after starting, with what it
/// wrote to its log.
pub fn confirm_started(running: bool, log: &str) -> (r: Result<(), Failure>)
    ensures
        comes_up(running, log@, r),
{
    if running {
        return Ok(());
    }
    Err(Failure::RecorderExited { reason: trim(log) })
}

/// The signals that a recorder is sent.
#[derive(Clone, Copy, Debug, PartialEq, Eq, Structural)]
pub enum Sig {
    /// Makes `pw-record` write a valid RIFF header before exiting.
    Interrupt,
    /// A backstop; leaves whatever was flushed to disk.
    Kill,
}

/// What stopping a recorder waits for.
#[derive(Clone, Copy, Debug, PartialEq, Eq, Structural)]
pub enum StopStage {
    /// To hear whether the process still is the recorder, to be signalled.
    Checking(Sig),
    /// To hear how sending the signal went.
    Sending(Sig),
    /// For the recorder to exit after the signal.
    Waiting(Sig),
    Over,
}

/// What a stage asks for.
pub enum StopAction {
    /// Look whether the recorder runs; answered by `Seen`.
    Look,
    /// Wait a little, then look.
    LookLater,
    /// Send the signal.
    Send(Sig),
    End(Result<(), Failure>),
}

/// What came of it.
pub enum StopEvent {
    /// Whether the process still is the recorder, and how long ago waiting for
    /// its exit began.
    Seen { running: bool, waited_ms: u64 },
    Sent,
    /// There was no such process to signal.
    Gone,
    SendFailed(String),
}

/// What stopping the recorder `pid` does at `stage` when told `event`.
pub open spec fn stop_step(
    pid: i32,
    stage: StopStage,
    event: StopEvent,
    next: StopStage,
    action: StopAction,
) -> bool {
    match (stage, event) {
        (StopStage::Checking(sig), StopEvent::Seen { running, .. }) => if running {
            next == StopStage::Sending(sig) && action == StopAction::Send(sig)
        } else {
            next == StopStage::Waiting(sig) && action is Look
        },
        (StopStage::Sending(sig), StopEvent::Sent) => {
            next == StopStage::Waiting(sig) && action is Look
        },
        (StopStage::Sending(sig), StopEvent::Gone) => {
            next == StopStage::Waiting(sig) && action is Look
        },
        (StopStage::Sending(sig), StopEvent::SendFailed(cause)) => {
            &&& next is Over
            &&& action == StopAction::End(Err(Failure::SignalFailed { sig, pid, cause }))
        },
        (StopStage::Waiting(sig), StopEvent::Seen { running, waited_ms }) => if !running {
            next is Over && action == StopAction::End(Ok(()))
        } else if waited_ms < SHUTDOWN_TIMEOUT_MS {
            next == stage && action is LookLater
        } else {
            match sig {
                Sig::Interrupt => next == StopStage::Checking(Sig::Kill) && action is Look,
                Sig::Kill => {
                    &&& next is Over
                    &&& action == StopAction::End(Err(Failure::RecorderStuck { pid }))
                },
            }
        },
        _ => next is Over && action == StopAction::End(Err(Failure::OutOfTurn)),
    }
}

/// Stops the recorder and waits for it to close the WAV file: the next step of
/// it, from `Checking(Interrupt)` and a look on.
pub fn stop(pid: i32, stage: StopStage, event: StopEvent) -> (out: (StopStage, StopAction))
    ensures
        stop_step(pid, stage, event, out.0, out.1),
{
    match (stage, event) {
        (StopStage::Checking(sig), StopEvent::Seen { running, .. }) => if running {
            (StopStage::Sending(sig), StopAction::Send(sig))
        } else {
            (StopStage::Waiting(sig), StopAction::Look)
        },
        (StopStage::Sending(sig), StopEvent::Sent) => (StopStage::Waiting(sig), StopAction::Look),
        (StopStage::Sending(sig), StopEvent::Gone) => (StopStage::Waiting(sig), StopAction::Look),
        (StopStage::Sending(sig), StopEvent::SendFailed(cause)) => (
            StopStage::Over,
            StopAction::End(Err(Failure::SignalFailed { sig, pid, cause })),
        ),
        (StopStage::Waiting(sig), StopEvent::Seen { running, waited_ms }) => if !running {
            (StopStage::Over, StopAction::End(Ok(())))
        } else if waited_ms < SHUTDOWN_TIMEOUT_MS {
            (stage, StopAction::LookLater)
        } else {
            match sig {
                Sig::Interrupt => (StopStage::Checking(Sig::Kill), StopAction::Look),
                Sig::Kill => (
                    StopStage::Over,
                    StopAction::End(Err(Failure::RecorderStuck { pid })),
                ),
            }
        },
        _ => (StopStage::Over, StopAction::End(Err(Failure::OutOfTurn))),
    }
}

/// A run of `stop`: `stages[i]` is told `events[i]` and answers `actions[i]`.
pub open spec fn stop_run(
    pid: i32,
    stages: Seq<StopStage>,
    events: Seq<StopEvent>,
    actions: Seq<StopAction>,
) -> bool {
    &&& stages.len() == events.len() + 1
    &&& actions.len() == events.len()
    &&& stages[0] == StopStage::Checking(Sig::Interrupt)
    &&& forall|i: int|
        0 <= i < events.len() ==> stop_step(
            pid,
            stages[i],
            #[trigger] events[i],
            stages[i + 1],
            actions[i],
        )
}

/// The recorder was seen to outlive the time it has to exit after SIGINT, at or
/// before `i`.
pub open spec fn outlived(events: Seq<StopEvent>, i: int) -> bool {
    exists|j: int|
        0 <= j < i && (#[trigger] events[j] matches StopEvent::Seen { running, waited_ms }
            && running && waited_ms >= SHUTDOWN_TIMEOUT_MS)
}

proof fn lemma_kill_stage(
    pid: i32,
    stages: Seq<StopStage>,
    events: Seq<StopEvent>,
    actions: Seq<StopAction>,
    i: int,
)
    requires
        stop_run(pid, stages, events, actions),
        0 <= i <= events.len(),
    ensures
        stages[i] == StopStage::Checking(Sig::Kill) || stages[i] == StopStage::Sending(Sig::Kill)
            || stages[i] == StopStage::Waiting(Sig::Kill) ==> outlived(events, i),
    decreases i,
{
    if i > 0 {
        lemma_kill_stage(pid, stages, events, actions, i - 1);
        let event = events[i - 1];
        assert(stop_step(pid, stages[i - 1], event, stages[i], actions[i - 1]));
        if outlived(events, i - 1) {
            let j = choose|j: int|
                0 <= j < i - 1 && (#[trigger] events[j] matches StopEvent::Seen {
                    running,
                    waited_ms,
                } && running && waited_ms >= SHUTDOWN_TIMEOUT_MS);
            assert(0 <= j < i && events[j] is Seen);
        }
    }
}

/// A signal is only ever sent to a process that was seen to be the recorder
/// immediately before, so never to a recycled PID; and SIGKILL only to one that
/// was seen to outlive the time it had to exit.
pub proof fn signals_hit_only_the_recorder(
    pid: i32,
    stages: Seq<StopStage>,
    events: Seq<StopEvent>,
    actions: Seq<StopAction>,
    i: int,
)
    requires
        stop_run(pid, stages, events, actions),
        0 <= i < events.len(),
        actions[i] is Send,
    ensures
        events[i] matches StopEvent::Seen { running, .. } && running,
        actions[i]->Send_0 == Sig::Kill ==> outlived(events, i),
{
    assert(stop_step(pid, stages[i], events[i], stages[i + 1], actions[i]));
    lemma_kill_stage(pid, stages, events, actions, i);
}

/// Stopping succeeds only once the recorder was seen to be gone.
pub proof fn stopped_means_gone(
    pid: i32,
    stages: Seq<StopStage>,
    events: Seq<StopEvent>,
    actions: Seq<StopAction>,
    i: int,
)
    requires
        stop_run(pid, stages, events, actions),
        0 <= i < events.len(),
        actions[i] == StopAction::End(Ok(())),
    ensures
        events[i] matches StopEvent::Seen { running, .. } && !running,
{
    assert(stop_step(pid, stages[i], events[i], stages[i + 1], actions[i]));
}

/// The recorder is told to write the file that it is given, and where to: nothing behind
/// `--` is read as a flag.
pub proof fn the_recorder_writes_the_given_file(wav: Seq<char>)
    ensures
        recorder_args(wav).last() == wav,
        recorder_args(wav)[recorder_args(wav).len() - 2] == "--"@,
        recorder_args(wav).take(6) == seq![
            "--rate"@,
            "16000"@,
            "--channels"@,
            "1"@,
            "--format"@,
            "s16"@,
        ],
{
    assert(recorder_args(wav).take(6) =~= seq![
        "--rate"@,
        "16000"@,
        "--channels"@,
        "1"@,
        "--format"@,
        "s16"@,
    ]);
}

/// A recorder is believed to have come up exactly where it runs; of one that does not,
/// the user is told all that it wrote to its log, but for white space around it.
pub proof fn a_recorder_that_runs_has_come_up(running: bool, log: Seq<char>, r: Result<(), Failure>)
    requires
        comes_up(running, log, r),
    ensures
        r is Ok <==> running,
        r matches Err(failure) ==> failure.told() == if trimmed(log).len() == 0 {
            "pw-record exited immediately"@
        } else {
            "pw-record exited immediately: "@ + trimmed(log)
        },
{
}

/// A recorder that runs is sent SIGINT, and one that is gone, also while the signal was
/// sent, is not; either way it is then looked at until it is gone, which ends the stop
/// well. It has two seconds for that; then SIGKILL takes its turn in the same way, and a
/// recorder that outlives that too is told of.
pub proof fn a_recorder_is_stopped(
    pid: i32,
    stages: Seq<StopStage>,
    events: Seq<StopEvent>,
    actions: Seq<StopAction>,
    i: int,
)
    requires
        stop_run(pid, stages, events, actions),
        0 <= i < events.len(),
    ensures
        stages[0] == StopStage::Checking(Sig::Interrupt),
        match (stages[i], events[i]) {
            (StopStage::Checking(sig), StopEvent::Seen { running, .. }) => {
                &&& running ==> actions[i] == StopAction::Send(sig)
                &&& !running ==> actions[i] is Look
                &&& i + 1 < events.len() && running && (events[i + 1] is Sent || events[i + 1]
                    is Gone) ==> actions[i + 1] is Look && stages[i + 2] == StopStage::Waiting(
                    sig,
                )
                &&& i + 1 < events.len() && running && events[i + 1] is SendFailed ==> (actions[i
                    + 1] matches StopAction::End(Err(failure)) && failure == (
                Failure::SignalFailed { sig, pid, cause: events[i + 1]->SendFailed_0 }))
                &&& !running ==> stages[i + 1] == StopStage::Waiting(sig)
            },
            (StopStage::Waiting(sig), StopEvent::Seen { running, waited_ms }) => {
                &&& !running ==> actions[i] == StopAction::End(Ok(()))
                &&& running && waited_ms < 2000 ==> actions[i] is LookLater && stages[i + 1]
                    == stages[i]
                &&& running && waited_ms >= 2000 && sig == Sig::Interrupt ==> actions[i] is Look
                    && stages[i + 1] == StopStage::Checking(Sig::Kill)
                &&& running && waited_ms >= 2000 && sig == Sig::Kill ==> actions[i]
                    == StopAction::End(Err(Failure::RecorderStuck { pid }))
            },
            _ => true,
        },
{
    assert(stop_step(pid, stages[i], events[i], stages[i + 1], actions[i]));
    if i + 1 < events.len() {
        assert(stop_step(pid, stages[i + 1], events[i + 1], stages[i + 2], actions[i + 1]));
    }
}

}
