//! One detached worker owns the Deepgram connection and all transcript delivery.
//! Stop requests a drain under the command lock, then waits without that lock.

use crate::config::SessionConfig;
use crate::deepgram::{StreamRequest, StreamResult};
use crate::delivery::{
    deliver, delivery_begins, delivery_begins_with_one_line, delivery_keeps_one_line,
    delivery_step, keeps_one_line, Delivery, DeliveryStage, DeliveryStep,
};
use crate::failure::Failure;
use crate::host::{hears, Action, Event, Note, Payload, Worker};
use crate::json::{json_field, text_field};
use crate::live::{comes_after, holds_token, mint, minted, with_error, Preview};
use crate::paths::Mark;
use crate::text::{maybe, one_line, same_text, sanitized, to_text};
use crate::transcription::Transcription;
use vstd::prelude::*;
use vstd::slice::{slice_subrange, slice_to_vec};
use vstd::string::*;

verus! {

broadcast use vstd::string::group_string_axioms;

/// How often a stream looks for something to do.
pub const TICK_MS: u64 = 100;

/// How long one message may take to send.
pub const SEND_TIMEOUT_MS: u64 = 5000;

/// How long a stream gets to drain.
pub const FINISH_TIMEOUT_MS: u64 = 30000;

/// How often a stream that drains is looked at.
pub const FINISH_POLL_MS: u64 = 50;

/// How long a stream may be idle before it is kept alive.
pub const KEEP_ALIVE_MS: u64 = 3000;

/// At most this much audio is sent in one go: one second, to catch up after
/// connection setup.
pub const BURST_BYTES: usize = 32000;

/// At most this much audio goes into one message.
pub const CHUNK_BYTES: usize = 3200;

/// How far a stream has come.
#[derive(Clone, Copy, Debug, PartialEq, Eq, Structural)]
pub enum Phase {
    Recording,
    Finishing,
    Done,
    Error,
}

impl Phase {
    /// The word that stands for it.
    pub open spec fn word(self) -> Seq<char> {
        match self {
            Phase::Recording => "recording"@,
            Phase::Finishing => "finishing"@,
            Phase::Done => "done"@,
            Phase::Error => "error"@,
        }
    }

    pub fn as_str(self) -> (word: &'static str)
        ensures
            word@ == self.word(),
    {
        match self {
            Phase::Recording => "recording",
            Phase::Finishing => "finishing",
            Phase::Done => "done",
            Phase::Error => "error",
        }
    }
}

/// A stream and its worker.
#[derive(Debug)]
pub struct StreamState {
    pub session: String,
    pub worker_pid: i32,
    pub phase: Phase,
    pub error: Option<String>,
}

/// Where streaming in `language` begins.
pub fn empty_preview(language: &str) -> (preview: Preview)
    ensures
        preview.is_blank(),
        maybe(preview.language) == Some(language@),
        !preview.provisional,
{
    Preview::blank(Some(to_text(language)), false)
}

/// What starting a stream waits for.
pub enum LaunchStage {
    Ready,
    /// The time.
    Timing,
    /// The token to be written.
    Writing(String),
    /// The empty transcription to be published.
    Publishing(String),
    /// The worker's log to be opened.
    Opening(String),
    /// The worker to be started.
    Spawning(String),
    /// The worker's identity to be published.
    Saving,
    Over,
}

/// What starting a stream does at `stage` when told `event`.
pub open spec fn launch_step(
    recorder: i32,
    language: Seq<char>,
    stage: LaunchStage,
    event: Event,
    next: LaunchStage,
    action: Action,
) -> bool {
    match (stage, event) {
        (LaunchStage::Ready, Event::Begin) => next is Timing && action is AskClock,
        (LaunchStage::Timing, Event::Clock { process, nanos }) => {
            next matches LaunchStage::Writing(session) && session@ == minted(
                process as nat,
                nanos as nat,
            ) && action == Action::WriteToken(session)
        },
        (LaunchStage::Writing(session), Event::Done) => {
            &&& next == LaunchStage::Publishing(session)
            &&& action matches Action::Publish(preview) && preview.is_blank() && maybe(
                preview.language,
            ) == Some(language) && !preview.provisional
        },
        (LaunchStage::Publishing(session), Event::Done) => {
            next == LaunchStage::Opening(session) && action is OpenLog
        },
        (LaunchStage::Opening(session), Event::Done) => {
            &&& next == LaunchStage::Spawning(session)
            &&& action == Action::Spawn { worker: Worker::Stream, session, recorder }
        },
        (LaunchStage::Spawning(session), Event::Started { pid }) => {
            &&& next is Saving
            &&& action == Action::SaveStream(
                StreamState { session, worker_pid: pid, phase: Phase::Recording, error: None },
            )
        },
        (LaunchStage::Spawning(_), Event::NotSpawned { cause }) => {
            next is Over && action == Action::End(Err(Failure::StreamWorkerNotStarted { cause }))
        },
        (LaunchStage::Saving, Event::Done) => next is Over && action == Action::End(Ok(())),
        (_, Event::Failed(failure)) => next is Over && action == Action::End(Err(failure)),
        _ => next is Over && action == Action::End(Err(Failure::OutOfTurn)),
    }
}

/// Starts a stream, with the command lock held also while the worker's identity
/// is published: the next step of it.
pub fn start(recorder: i32, language: &str, stage: LaunchStage, event: Event) -> (out: (
    LaunchStage,
    Action,
))
    ensures
        launch_step(recorder, language@, stage, event, out.0, out.1),
{
    match (stage, event) {
        (LaunchStage::Ready, Event::Begin) => (LaunchStage::Timing, Action::AskClock),
        (LaunchStage::Timing, Event::Clock { process, nanos }) => {
            let session = mint(process, nanos);
            let action = Action::WriteToken(session.clone());
            (LaunchStage::Writing(session), action)
        },
        (LaunchStage::Writing(session), Event::Done) => (
            LaunchStage::Publishing(session),
            Action::Publish(empty_preview(language)),
        ),
        (LaunchStage::Publishing(session), Event::Done) => (
            LaunchStage::Opening(session),
            Action::OpenLog,
        ),
        (LaunchStage::Opening(session), Event::Done) => {
            let named = session.clone();
            let action = Action::Spawn { worker: Worker::Stream, session: named, recorder };
            (LaunchStage::Spawning(session), action)
        },
        (LaunchStage::Spawning(session), Event::Started { pid }) => (
            LaunchStage::Saving,
            Action::SaveStream(
                StreamState { session, worker_pid: pid, phase: Phase::Recording, error: None },
            ),
        ),
        (LaunchStage::Spawning(_), Event::NotSpawned { cause }) => (
            LaunchStage::Over,
            Action::End(Err(Failure::StreamWorkerNotStarted { cause })),
        ),
        (LaunchStage::Saving, Event::Done) => (LaunchStage::Over, Action::End(Ok(()))),
        (_, Event::Failed(failure)) => (LaunchStage::Over, Action::End(Err(failure))),
        _ => (LaunchStage::Over, Action::End(Err(Failure::OutOfTurn))),
    }
}

/// What asking a stream's worker to finish comes to.
pub open spec fn asks_to_finish(
    status: Result<StreamState, Failure>,
    token: Option<String>,
    r: Result<StreamState, Failure>,
) -> bool {
    match status {
        Err(failure) => r matches Err(told) && told matches Failure::StreamUnavailable {
            cause,
        } && cause@ == failure.told(),
        Ok(status) => if maybe(token) != Some(status.session@) {
            r == Err::<StreamState, Failure>(Failure::StreamInactive)
        } else {
            r == Ok::<StreamState, Failure>(
                StreamState {
                    phase: if status.phase == Phase::Recording {
                        Phase::Finishing
                    } else {
                        status.phase
                    },
                    ..status
                },
            )
        },
    }
}

/// Asks the stream's worker to finish, after the recorder has exited and with
/// the command lock still held: the state to save. `status` is what the stream's
/// state came to, `token` what the token file holds.
pub fn request_finish(status: Result<StreamState, Failure>, token: &Option<String>) -> (r: Result<
    StreamState,
    Failure,
>)
    ensures
        asks_to_finish(status, *token, r),
{
    match status {
        Err(failure) => Err(Failure::StreamUnavailable { cause: failure.message() }),
        Ok(status) => {
            if !holds_token(token, status.session.as_str()) {
                return Err(Failure::StreamInactive);
            }
            let mut status = status;
            if status.phase == Phase::Recording {
                status.phase = Phase::Finishing;
            }
            Ok(status)
        },
    }
}

/// What waiting for a stream to drain waits for.
pub enum DrainStage {
    Ready,
    Locking,
    /// To hear whether the session still may deliver, with the lock held.
    Checking,
    /// To hear how far the stream has come.
    Reading,
    /// To hear whether the worker still runs.
    Watching(StreamState),
    /// The lock to be released, for the worker to go on.
    Pausing,
    Sleeping,
    /// The whole transcription of a stream that is done.
    Loading,
    /// The whole text to be on the clipboard.
    Copying(Preview),
    /// The user to be told what was typed, if anything was.
    Telling { typed: bool },
    RemovingWav,
    Invalidating,
    RemovingStream,
    /// The session's right to deliver to be taken away, after this error.
    Withdrawing(StreamState, String),
    Saving(String),
    /// The transcription so far, to publish the error with it.
    Reporting(String),
    Publishing(String),
    /// The lock to be released, to end so.
    Unlocking(Result<(), Failure>),
    Over,
}

/// The lock is held at this stage.
pub open spec fn drain_holds_lock(stage: DrainStage) -> bool {
    match stage {
        DrainStage::Ready => false,
        DrainStage::Locking => false,
        DrainStage::Pausing => false,
        DrainStage::Sleeping => false,
        DrainStage::Unlocking(_) => false,
        DrainStage::Over => false,
        _ => true,
    }
}

/// What is wrong with a stream whose worker reports an error.
pub open spec fn reported_error(error: Option<String>) -> Seq<char> {
    match error {
        Some(error) => error@,
        None => "Deepgram worker failed"@,
    }
}

/// The stream is given up for `error`: its session's right to deliver is taken
/// away first. The lock is held from here to the publication of the failure, so
/// no paste can race it.
pub open spec fn withdraws(
    status: StreamState,
    error: Seq<char>,
    next: DrainStage,
    action: Action,
) -> bool {
    &&& next matches DrainStage::Withdrawing(s, e) && s == status && e@ == error
    &&& action == Action::Remove(Mark::LiveSession)
}

/// What waiting for the stream of `session` does at `stage` when told `event`.
pub open spec fn drain_step(
    session: Seq<char>,
    stage: DrainStage,
    event: Event,
    next: DrainStage,
    action: Action,
) -> bool {
    let leave = next == DrainStage::Unlocking(Ok(())) && action is Unlock;
    let wait = next is Pausing && action is Unlock;
    match (stage, event) {
        (DrainStage::Ready, Event::Begin) => next is Locking && action is Lock,
        (DrainStage::Locking, Event::Done) => next is Checking && action is ReadToken,
        (DrainStage::Checking, Event::Token(token)) => if maybe(token) == Some(session) {
            next is Reading && action is ReadStream
        } else {
            leave
        },
        (DrainStage::Reading, Event::Stream(status)) => if status.session@ != session {
            leave
        } else {
            match status.phase {
                Phase::Done => next is Loading && action is LoadPreview,
                Phase::Error => if reported_error(status.error).len() == 0 {
                    wait
                } else {
                    withdraws(status, reported_error(status.error), next, action)
                },
                _ => {
                    &&& next == DrainStage::Watching(status)
                    &&& action == (Action::LookWorker { pid: status.worker_pid })
                },
            }
        },
        (DrainStage::Watching(status), Event::Running { running, waited_ms }) => if !running {
            withdraws(
                status,
                "Deepgram worker exited before completing the stream"@,
                next,
                action,
            )
        } else if waited_ms >= FINISH_TIMEOUT_MS {
            withdraws(status, "Deepgram stream did not finish within 30s"@, next, action)
        } else {
            wait
        },
        (DrainStage::Pausing, _) => {
            next is Sleeping && action == (Action::Sleep { ms: FINISH_POLL_MS })
        },
        (DrainStage::Sleeping, _) => next is Locking && action is Lock,
        (DrainStage::Loading, Event::Progress(Some(progress))) => if progress.text@.len() > 0 {
            next == DrainStage::Copying(progress) && action == Action::Copy(progress.text)
        } else {
            next == (DrainStage::Telling { typed: false }) && crate::live::shows_typed(
                progress,
                action,
            )
        },
        (DrainStage::Copying(progress), Event::Done) => {
            next == (DrainStage::Telling { typed: true }) && crate::live::shows_typed(
                progress,
                action,
            )
        },
        (DrainStage::Telling { typed }, _) => if typed {
            next is RemovingWav && action == Action::Remove(Mark::RecordingWav)
        } else {
            next is Invalidating && action is Invalidate
        },
        (DrainStage::RemovingWav, Event::Done) => next is Invalidating && action is Invalidate,
        (DrainStage::Invalidating, Event::Done) => {
            next is RemovingStream && action == Action::Remove(Mark::StreamState)
        },
        (DrainStage::RemovingStream, Event::Done) => leave,
        (DrainStage::Withdrawing(status, error), Event::Done) => {
            &&& next == DrainStage::Saving(error)
            &&& action == Action::SaveStream(
                StreamState { phase: Phase::Error, error: Some(error), ..status },
            )
        },
        (DrainStage::Saving(error), Event::Done) => {
            next == DrainStage::Reporting(error) && action is LoadPreview
        },
        (DrainStage::Reporting(error), Event::Progress(Some(progress))) => {
            &&& next == DrainStage::Publishing(error)
            &&& action matches Action::Publish(published) && with_error(
                progress,
                published,
                error@,
            )
        },
        (DrainStage::Publishing(error), Event::Done) => {
            &&& next == DrainStage::Unlocking(Err(Failure::StreamFailed { error }))
            &&& action is Unlock
        },
        (DrainStage::Unlocking(result), _) => next is Over && action == Action::End(result),
        (_, Event::Failed(failure)) => if drain_holds_lock(stage) {
            next == DrainStage::Unlocking(Err(failure)) && action is Unlock
        } else {
            next is Over && action == Action::End(Err(failure))
        },
        _ => if drain_holds_lock(stage) {
            next == DrainStage::Unlocking(Err(Failure::OutOfTurn)) && action is Unlock
        } else {
            next is Over && action == Action::End(Err(Failure::OutOfTurn))
        },
    }
}

fn drain_fails(stage: DrainStage, failure: Failure) -> (out: (DrainStage, Action))
    ensures
        if drain_holds_lock(stage) {
            out == (DrainStage::Unlocking(Err(failure)), Action::Unlock)
        } else {
            out == (DrainStage::Over, Action::End(Err(failure)))
        },
{
    match stage {
        DrainStage::Ready => (DrainStage::Over, Action::End(Err(failure))),
        DrainStage::Locking => (DrainStage::Over, Action::End(Err(failure))),
        DrainStage::Pausing => (DrainStage::Over, Action::End(Err(failure))),
        DrainStage::Sleeping => (DrainStage::Over, Action::End(Err(failure))),
        DrainStage::Unlocking(_) => (DrainStage::Over, Action::End(Err(failure))),
        DrainStage::Over => (DrainStage::Over, Action::End(Err(failure))),
        _ => (DrainStage::Unlocking(Err(failure)), Action::Unlock),
    }
}

fn withdraw(status: StreamState, error: String) -> (out: (DrainStage, Action))
    ensures
        withdraws(status, error@, out.0, out.1),
{
    (DrainStage::Withdrawing(status, error), Action::Remove(Mark::LiveSession))
}

/// Waits until the stream of `session` is drained, and takes what it typed as
/// the dictation: the next step of it. The lock is only held to look; the worker
/// takes it for each delivery.
pub fn finish(session: &str, stage: DrainStage, event: Event) -> (out: (DrainStage, Action))
    ensures
        drain_step(session@, stage, event, out.0, out.1),
{
    match (stage, event) {
        (DrainStage::Ready, Event::Begin) => (DrainStage::Locking, Action::Lock),
        (DrainStage::Locking, Event::Done) => (DrainStage::Checking, Action::ReadToken),
        (DrainStage::Checking, Event::Token(token)) => if holds_token(&token, session) {
            (DrainStage::Reading, Action::ReadStream)
        } else {
            (DrainStage::Unlocking(Ok(())), Action::Unlock)
        },
        (DrainStage::Reading, Event::Stream(status)) => {
            if !same_text(status.session.as_str(), session) {
                return (DrainStage::Unlocking(Ok(())), Action::Unlock);
            }
            match status.phase {
                Phase::Done => (DrainStage::Loading, Action::LoadPreview),
                Phase::Error => {
                    let error = match &status.error {
                        Some(error) => error.clone(),
                        None => to_text("Deepgram worker failed"),
                    };
                    if error.as_str().is_empty() {
                        (DrainStage::Pausing, Action::Unlock)
                    } else {
                        withdraw(status, error)
                    }
                },
                _ => {
                    let pid = status.worker_pid;
                    (DrainStage::Watching(status), Action::LookWorker { pid })
                },
            }
        },
        (DrainStage::Watching(status), Event::Running { running, waited_ms }) => if !running {
            withdraw(status, to_text("Deepgram worker exited before completing the stream"))
        } else if waited_ms >= FINISH_TIMEOUT_MS {
            withdraw(status, to_text("Deepgram stream did not finish within 30s"))
        } else {
            (DrainStage::Pausing, Action::Unlock)
        },
        (DrainStage::Pausing, _) => (DrainStage::Sleeping, Action::Sleep { ms: FINISH_POLL_MS }),
        (DrainStage::Sleeping, _) => (DrainStage::Locking, Action::Lock),
        (DrainStage::Loading, Event::Progress(Some(progress))) => {
            if progress.text.as_str().is_empty() {
                (DrainStage::Telling { typed: false }, Action::Notify(progress.typed()))
            } else {
                let action = Action::Copy(progress.text.clone());
                (DrainStage::Copying(progress), action)
            }
        },
        (DrainStage::Copying(progress), Event::Done) => (
            DrainStage::Telling { typed: true },
            Action::Notify(progress.typed()),
        ),
        // A recording that nothing was typed of stays.
        (DrainStage::Telling { typed }, _) => if typed {
            (DrainStage::RemovingWav, Action::Remove(Mark::RecordingWav))
        } else {
            (DrainStage::Invalidating, Action::Invalidate)
        },
        (DrainStage::RemovingWav, Event::Done) => (DrainStage::Invalidating, Action::Invalidate),
        (DrainStage::Invalidating, Event::Done) => (
            DrainStage::RemovingStream,
            Action::Remove(Mark::StreamState),
        ),
        (DrainStage::RemovingStream, Event::Done) => (
            DrainStage::Unlocking(Ok(())),
            Action::Unlock,
        ),
        (DrainStage::Withdrawing(status, error), Event::Done) => {
            let mut status = status;
            status.phase = Phase::Error;
            status.error = Some(error.clone());
            (DrainStage::Saving(error), Action::SaveStream(status))
        },
        (DrainStage::Saving(error), Event::Done) => (
            DrainStage::Reporting(error),
            Action::LoadPreview,
        ),
        (DrainStage::Reporting(error), Event::Progress(Some(progress))) => {
            let mut published = progress;
            published.error = Some(error.clone());
            (DrainStage::Publishing(error), Action::Publish(published))
        },
        (DrainStage::Publishing(error), Event::Done) => (
            DrainStage::Unlocking(Err(Failure::StreamFailed { error })),
            Action::Unlock,
        ),
        (DrainStage::Unlocking(result), _) => (DrainStage::Over, Action::End(result)),
        (stage, Event::Failed(failure)) => drain_fails(stage, failure),
        (stage, _) => drain_fails(stage, Failure::OutOfTurn),
    }
}

/// A run of waiting: `events[i]`, told at `stages[i]`, is answered by
/// `actions[i]`.
pub open spec fn drain_run(
    session: Seq<char>,
    stages: Seq<DrainStage>,
    events: Seq<Event>,
    actions: Seq<Action>,
) -> bool {
    &&& stages.len() == events.len() + 1
    &&& actions.len() == events.len()
    &&& stages[0] is Ready
    &&& forall|i: int|
        0 <= i < events.len() ==> drain_step(
            session,
            stages[i],
            #[trigger] events[i],
            stages[i + 1],
            actions[i],
        )
}

/// The stream was seen to be done at event `j`, before `i`; it typed something, and all
/// of it was then copied.
pub open spec fn drained(events: Seq<Event>, actions: Seq<Action>, j: int, i: int) -> bool {
    &&& 0 <= j
    &&& j + 2 < i
    &&& events[j] matches Event::Stream(status) && status.phase == Phase::Done
    &&& events[j + 1] matches Event::Progress(Some(progress)) && progress.text@.len() > 0
        && actions[j + 1] == Action::Copy(progress.text)
    &&& events[j + 2] is Done
}

proof fn lemma_drained(
    session: Seq<char>,
    stages: Seq<DrainStage>,
    events: Seq<Event>,
    actions: Seq<Action>,
    m: int,
)
    requires
        drain_run(session, stages, events, actions),
        0 <= m <= events.len(),
    ensures
        stages[m] is Loading ==> m >= 1 && (events[m - 1] matches Event::Stream(status)
            && status.phase == Phase::Done),
        stages[m] matches DrainStage::Copying(progress) ==> m >= 2 && (events[m - 2] matches
            Event::Stream(status) && status.phase == Phase::Done) && events[m - 1]
            == Event::Progress(Some(progress)) && actions[m - 1] == Action::Copy(progress.text)
            && progress.text@.len() > 0,
        stages[m] == (DrainStage::Telling { typed: true }) ==> exists|j: int|
            #[trigger] drained(events, actions, j, m),
        stages[m] is Sleeping ==> m >= 2 && actions[m - 2] is Unlock,
    decreases m,
{
    if m > 0 {
        lemma_drained(session, stages, events, actions, m - 1);
        assert(drain_step(session, stages[m - 1], events[m - 1], stages[m], actions[m - 1]));
        if m > 1 {
            assert(drain_step(
                session,
                stages[m - 2],
                events[m - 2],
                stages[m - 1],
                actions[m - 2],
            ));
        }
        if stages[m] == (DrainStage::Telling { typed: true }) {
            assert(drained(events, actions, m - 3, m));
        }
    }
}

/// Waiting for a stream removes the recording only after the stream was done and its
/// whole text, which is not empty, was put on the clipboard. Every failure leaves it in
/// place, and so does a stream that typed nothing.
pub proof fn draining_keeps_the_recording(
    session: Seq<char>,
    stages: Seq<DrainStage>,
    events: Seq<Event>,
    actions: Seq<Action>,
    i: int,
)
    requires
        drain_run(session, stages, events, actions),
        0 <= i < events.len(),
        actions[i] == Action::Remove(Mark::RecordingWav),
    ensures
        exists|j: int| #[trigger] drained(events, actions, j, i),
{
    assert(drain_step(session, stages[i], events[i], stages[i + 1], actions[i]));
    lemma_drained(session, stages, events, actions, i);
}

/// Waiting never sleeps on the lock: it is released right before.
pub proof fn draining_sleeps_without_the_lock(
    session: Seq<char>,
    stages: Seq<DrainStage>,
    events: Seq<Event>,
    actions: Seq<Action>,
    i: int,
)
    requires
        drain_run(session, stages, events, actions),
        0 <= i < events.len(),
        actions[i] is Sleep,
    ensures
        i >= 1,
        actions[i - 1] is Unlock,
{
    assert(drain_step(session, stages[i], events[i], stages[i + 1], actions[i]));
    if i > 0 {
        assert(drain_step(session, stages[i - 1], events[i - 1], stages[i], actions[i - 1]));
    }
}

/// The session can no longer deliver when the failure of its stream is saved and
/// published: its token was removed under the lock that is still held.
pub proof fn failed_stream_cannot_deliver(
    session: Seq<char>,
    stages: Seq<DrainStage>,
    events: Seq<Event>,
    actions: Seq<Action>,
    i: int,
)
    requires
        drain_run(session, stages, events, actions),
        0 <= i < events.len(),
        actions[i] is SaveStream,
    ensures
        i >= 1,
        actions[i - 1] == Action::Remove(Mark::LiveSession),
        events[i] is Done,
        drain_holds_lock(stages[i]),
        drain_holds_lock(stages[i - 1]),
{
    assert(drain_step(session, stages[i], events[i], stages[i + 1], actions[i]));
    if i > 0 {
        assert(drain_step(session, stages[i - 1], events[i - 1], stages[i], actions[i - 1]));
    }
}

/// What becomes of a streaming result.
pub enum Commit {
    /// Nothing: it is interim, or was heard before.
    Nothing,
    Refuse(Failure),
    /// It is delivered, with this as the first action.
    Deliver(Delivery, Action),
}

/// What becomes of `result`, with `sent` bytes of audio submitted: `before` and
/// `after` are the progress around it.
pub open spec fn commits(
    before: Preview,
    result: StreamResult,
    sent: u64,
    after: Preview,
    commit: Commit,
) -> bool {
    if !result.is_final {
        after == before && commit is Nothing
    } else {
        match result.end {
            None => after == before && commit == Commit::Refuse(Failure::InvalidTiming),
            Some(end) => if end <= before.consumed_bytes {
                after == before && commit is Nothing
            } else if end > sent + CHUNK_BYTES {
                after == before && commit == Commit::Refuse(Failure::BeyondSubmitted)
            } else {
                match result.channel.best() {
                    None => after == before && commit == Commit::Refuse(
                        Failure::NoStreamAlternative,
                    ),
                    Some(text) => commit matches Commit::Deliver(delivery, action)
                        && delivery_begins(
                        before,
                        before.consumed_bytes,
                        if end <= sent {
                            end
                        } else {
                            sent
                        },
                        Transcription { text, language: before.language },
                        after,
                        delivery,
                        action,
                    ),
                }
            },
        }
    }
}

/// Takes a streaming result: a final one that tells of new audio is delivered.
pub fn commit_result(progress: Preview, result: StreamResult, sent: u64) -> (out: (Preview, Commit))
    ensures
        commits(progress, result, sent, out.0, out.1),
{
    if !result.is_final {
        return (progress, Commit::Nothing);
    }
    match result.end {
        None => (progress, Commit::Refuse(Failure::InvalidTiming)),
        Some(end) => {
            if end <= progress.consumed_bytes {
                return (progress, Commit::Nothing);
            }
            if end > sent && end - sent > CHUNK_BYTES as u64 {
                return (progress, Commit::Refuse(Failure::BeyondSubmitted));
            }
            match result.channel.best_transcript() {
                None => (progress, Commit::Refuse(Failure::NoStreamAlternative)),
                Some(text) => {
                    let start = progress.consumed_bytes;
                    let end = if end <= sent {
                        end
                    } else {
                        sent
                    };
                    let language = match &progress.language {
                        Some(language) => Some(language.clone()),
                        None => None,
                    };
                    let (progress, delivery, action) = deliver(
                        progress,
                        start,
                        end,
                        Transcription { text, language },
                    );
                    (progress, Commit::Deliver(delivery, action))
                },
            }
        },
    }
}

/// Interim results and results on audio that is accounted for reach neither the
/// clipboard nor the keyboard, and change nothing.
pub proof fn interim_and_duplicate_results_change_nothing(
    before: Preview,
    result: StreamResult,
    sent: u64,
    after: Preview,
    commit: Commit,
)
    requires
        commits(before, result, sent, after, commit),
        !result.is_final || (result.end matches Some(end) && end <= before.consumed_bytes),
    ensures
        commit is Nothing,
        after == before,
{
}

/// A stream under way.
pub struct Stream {
    pub session: String,
    pub recorder: i32,
    pub progress: Preview,
    /// The PCM up to here was submitted.
    pub sent: u64,
    /// When something was last sent to keep the stream from idling.
    pub last_send_ms: u64,
    /// When the end of the audio was announced, if it was.
    pub closing_ms: Option<u64>,
    /// The announced end was confirmed.
    pub metadata: bool,
}

/// What a stream waits for.
pub enum RunStage {
    Ready(Result<StreamRequest, Failure>),
    Connecting,
    /// To hear whether the session still may deliver.
    Looking,
    /// For a tick, or a message.
    Waiting,
    /// To hear how far the stream has come, after a tick.
    Polling { now_ms: u64 },
    /// To hear whether the recorder runs.
    Probing { now_ms: u64 },
    /// The lock, to look again at a stream whose recorder is gone: stop may be
    /// finalizing the recording while holding it.
    Suspecting,
    Rereading,
    /// PCM that was not submitted yet.
    Hearing { finishing: bool, now_ms: u64 },
    /// To hear whether the session still may deliver, before the next chunk.
    Chunking { rest: Vec<u8> },
    /// A chunk of this size to be sent.
    Sending { size: usize, rest: Vec<u8> },
    Closing,
    Keeping,
    Ponging,
    /// A result to be read.
    Parsing,
    /// The lock, to deliver under it.
    Locking(StreamResult),
    /// To hear whether the session still may deliver, with the lock held.
    Confirming(StreamResult),
    Delivering(Delivery),
    /// The lock to be released, to go on.
    Resuming,
    /// The lock to be released, to end so.
    Leaving(Result<(), Failure>),
    Over,
}

impl Stream {
    /// The same stream with other progress.
    pub open spec fn with(self, progress: Preview) -> Stream {
        Stream { progress, ..self }
    }

    /// The stream of `session`, which `recorder` records, in `language`, has not begun.
    pub open spec fn is_new(self, session: String, recorder: i32, language: Seq<char>) -> bool {
        &&& self.session == session
        &&& self.recorder == recorder
        &&& self.progress.is_blank()
        &&& maybe(self.progress.language) == Some(language)
        &&& !self.progress.provisional
        &&& self.sent == 0
        &&& self.last_send_ms == 0
        &&& self.closing_ms is None
        &&& !self.metadata
    }

    /// A stream that has not begun.
    pub fn new(session: String, recorder: i32, language: &str) -> (stream: Stream)
        ensures
            stream.is_new(session, recorder, language@),
    {
        Stream {
            session,
            recorder,
            progress: empty_preview(language),
            sent: 0,
            last_send_ms: 0,
            closing_ms: None,
            metadata: false,
        }
    }
}

/// The lock is held at this stage.
pub open spec fn run_holds_lock(stage: RunStage) -> bool {
    stage is Rereading || stage is Confirming || stage is Delivering
}

/// At least `span` ms lie between `since` and `now`.
pub open spec fn elapsed(since: u64, now: u64, span: u64) -> bool {
    now >= since + span
}

fn has_elapsed(since: u64, now: u64, span: u64) -> (r: bool)
    ensures
        r == elapsed(since, now, span),
{
    now >= since && now - since >= span
}

/// What a text message is, by its `type`: an error message where it is no JSON.
pub open spec fn text_step(
    pre: Stream,
    text: Vec<u8>,
    kind: Result<Option<Seq<char>>, Seq<char>>,
    post: Stream,
    next: RunStage,
    action: Action,
) -> bool {
    match kind {
        Err(message) => {
            &&& post == pre
            &&& next is Over
            &&& action matches Action::End(Err(Failure::InvalidStreamJson { cause })) && cause@
                == message
        },
        Ok(kind) => if kind == Some("Results"@) {
            post == pre && next is Parsing && action == Action::Parse(text)
        } else if kind == Some("Metadata"@) && pre.closing_ms is Some {
            post == (Stream { metadata: true, ..pre }) && next is Looking && action is ReadToken
        } else if kind == Some("Error"@) {
            post == pre && next is Over && action == Action::End(Err(Failure::StreamApiError))
        } else {
            post == pre && next is Looking && action is ReadToken
        },
    }
}

/// Takes a text message of this `kind`.
pub fn take_text(stream: Stream, text: Vec<u8>, kind: Result<Option<String>, String>) -> (out: (
    Stream,
    RunStage,
    Action,
))
    ensures
        text_step(
            stream,
            text,
            match kind {
                Ok(kind) => Ok(maybe(kind)),
                Err(message) => Err(message@),
            },
            out.0,
            out.1,
            out.2,
        ),
{
    let kind = match kind {
        Err(cause) => {
            return (
                stream,
                RunStage::Over,
                Action::End(Err(Failure::InvalidStreamJson { cause })),
            );
        },
        Ok(Some(kind)) => kind,
        Ok(None) => {
            return (stream, RunStage::Looking, Action::ReadToken);
        },
    };
    proof {
        reveal_strlit("Results");
        reveal_strlit("Metadata");
        reveal_strlit("Error");
        assert("Results"@.len() == 7 && "Metadata"@.len() == 8 && "Error"@.len() == 5);
    }
    if same_text(kind.as_str(), "Results") {
        (stream, RunStage::Parsing, Action::Parse(text))
    } else if same_text(kind.as_str(), "Metadata") && stream.closing_ms.is_some() {
        let mut stream = stream;
        stream.metadata = true;
        (stream, RunStage::Looking, Action::ReadToken)
    } else if same_text(kind.as_str(), "Error") {
        (stream, RunStage::Over, Action::End(Err(Failure::StreamApiError)))
    } else {
        (stream, RunStage::Looking, Action::ReadToken)
    }
}

/// What a stream whose delivery is told `event` does.
pub open spec fn stream_delivering(
    pre: Stream,
    delivery: Delivery,
    event: Event,
    post: Stream,
    next: RunStage,
    action: Action,
) -> bool {
    &&& post == pre.with(post.progress)
    &&& {
        ||| next matches RunStage::Delivering(later) && delivery_step(
            delivery,
            pre.progress,
            event,
            post.progress,
            DeliveryStep::Go(later, action),
        )
        ||| {
            &&& delivery_step(
                delivery,
                pre.progress,
                event,
                post.progress,
                DeliveryStep::Settled(Ok(())),
            )
            &&& next is Resuming
            &&& action is Unlock
        }
        ||| {
            &&& next matches RunStage::Leaving(Err(failure)) && delivery_step(
                delivery,
                pre.progress,
                event,
                post.progress,
                DeliveryStep::Settled(Err(failure)),
            )
            &&& action is Unlock
        }
    }
}

/// A stream at `stage` fails: it releases the lock where it holds it.
pub open spec fn run_fails(
    stage: RunStage,
    failure: Failure,
    next: RunStage,
    action: Action,
) -> bool {
    if run_holds_lock(stage) {
        next == RunStage::Leaving(Err(failure)) && action is Unlock
    } else {
        next is Over && action == Action::End(Err(failure))
    }
}

/// The first `n` bytes, or all where there are fewer.
pub open spec fn at_most(bytes: Seq<u8>, n: int) -> Seq<u8> {
    if bytes.len() <= n {
        bytes
    } else {
        bytes.take(n)
    }
}

/// The next chunk of `rest` is sent.
pub open spec fn sends_chunk(rest: Seq<u8>, next: RunStage, action: Action) -> bool {
    let chunk = at_most(rest, CHUNK_BYTES as int);
    &&& next matches RunStage::Sending { size, rest: left } && size == chunk.len() && left@
        == rest.skip(chunk.len() as int)
    &&& action matches Action::Send(Payload::Audio(audio)) && audio@ == chunk
}

/// What a stream at `stage` does when told `event`.
pub open spec fn run_step(
    pre: Stream,
    stage: RunStage,
    event: Event,
    post: Stream,
    next: RunStage,
    action: Action,
) -> bool {
    let again = next is Looking && action is ReadToken;
    let canceled = next is Over && action == Action::End(Ok(()));
    let hear = Action::Snapshot { from: pre.sent };
    match (stage, event) {
        (RunStage::Connecting, Event::Connected { now_ms }) => {
            post == (Stream { last_send_ms: now_ms, ..pre }) && again
        },
        (RunStage::Sending { size, rest }, Event::Sent { now_ms }) => if pre.sent + size
            > u64::MAX {
            post == pre && run_fails(stage, Failure::OutOfTurn, next, action)
        } else if rest@.len() > 0 {
            &&& post == Stream { sent: (pre.sent + size) as u64, ..pre }
            &&& next == RunStage::Chunking { rest }
            &&& action is ReadToken
        } else {
            &&& post == Stream { sent: (pre.sent + size) as u64, last_send_ms: now_ms, ..pre }
            &&& again
        },
        (RunStage::Closing, Event::Sent { now_ms }) => {
            post == (Stream { closing_ms: Some(now_ms), ..pre }) && again
        },
        (RunStage::Keeping, Event::Sent { now_ms }) => {
            post == (Stream { last_send_ms: now_ms, ..pre }) && again
        },
        (RunStage::Waiting, Event::Text(text)) => text_step(
            pre,
            text,
            json_field(text@, "type"@),
            post,
            next,
            action,
        ),
        (RunStage::Confirming(result), Event::Token(token)) => if maybe(token) == Some(
            pre.session@,
        ) {
            &&& post == pre.with(post.progress)
            &&& {
                ||| next matches RunStage::Delivering(delivery) && commits(
                    pre.progress,
                    result,
                    pre.sent,
                    post.progress,
                    Commit::Deliver(delivery, action),
                )
                ||| {
                    &&& commits(pre.progress, result, pre.sent, post.progress, Commit::Nothing)
                    &&& next is Resuming
                    &&& action is Unlock
                }
                ||| {
                    &&& next matches RunStage::Leaving(Err(failure)) && commits(
                        pre.progress,
                        result,
                        pre.sent,
                        post.progress,
                        Commit::Refuse(failure),
                    )
                    &&& action is Unlock
                }
            }
        } else {
            post == pre && next == RunStage::Leaving(Ok(())) && action is Unlock
        },
        (RunStage::Delivering(delivery), _) => stream_delivering(
            pre,
            delivery,
            event,
            post,
            next,
            action,
        ),
        _ => {
            &&& post == pre
            &&& match (stage, event) {
                (RunStage::Ready(Ok(request)), Event::Begin) => {
                    next is Connecting && action == Action::Connect(request)
                },
                (RunStage::Ready(Err(failure)), Event::Begin) => {
                    next is Over && action == Action::End(Err(failure))
                },
                (RunStage::Looking, Event::Token(token)) => if maybe(token) == Some(
                    pre.session@,
                ) {
                    next is Waiting && action is Await
                } else {
                    canceled
                },
                (RunStage::Waiting, Event::Tick { now_ms }) => match pre.closing_ms {
                    Some(since) => if elapsed(since, now_ms, FINISH_TIMEOUT_MS) {
                        next is Over && action == Action::End(Err(Failure::FinalTimeout))
                    } else {
                        again
                    },
                    None => next == (RunStage::Polling { now_ms }) && action is ReadStream,
                },
                (RunStage::Polling { now_ms }, Event::Stream(status)) => if status.session@
                    != pre.session@ {
                    canceled
                } else if status.phase == Phase::Recording {
                    &&& next == (RunStage::Probing { now_ms })
                    &&& action == (Action::LookRecorder { pid: pre.recorder })
                } else {
                    &&& next == (RunStage::Hearing {
                        finishing: status.phase == Phase::Finishing,
                        now_ms,
                    })
                    &&& action == hear
                },
                (RunStage::Probing { now_ms }, Event::Running { running, .. }) => if running {
                    next == (RunStage::Hearing { finishing: false, now_ms }) && action == hear
                } else {
                    next is Suspecting && action is Lock
                },
                (RunStage::Suspecting, Event::Done) => next is Rereading && action is ReadStream,
                (RunStage::Rereading, Event::Stream(status)) => if status.phase
                    == Phase::Recording {
                    next == RunStage::Leaving(Err(Failure::RecorderLost)) && action is Unlock
                } else {
                    next is Resuming && action is Unlock
                },
                (RunStage::Hearing { .. }, Event::Heard(Some(frame))) => if frame.well_formed()
                    && pre.sent == frame.start < frame.end {
                    &&& next matches RunStage::Chunking { rest } && rest@ == at_most(
                        frame.pcm@,
                        BURST_BYTES as int,
                    )
                    &&& action is ReadToken
                } else {
                    run_fails(stage, Failure::OutOfTurn, next, action)
                },
                (RunStage::Hearing { finishing, now_ms }, Event::Heard(None)) => if finishing {
                    next is Closing && action == Action::Send(Payload::CloseStream)
                } else if elapsed(pre.last_send_ms, now_ms, KEEP_ALIVE_MS) {
                    next is Keeping && action == Action::Send(Payload::KeepAlive)
                } else {
                    again
                },
                (RunStage::Chunking { rest }, Event::Token(token)) => if maybe(token) == Some(
                    pre.session@,
                ) {
                    sends_chunk(rest@, next, action)
                } else {
                    canceled
                },
                (RunStage::Ponging, Event::Sent { .. }) => again,
                (RunStage::Parsing, Event::Parsed(Ok(result))) => if result.is_final {
                    next == RunStage::Locking(result) && action is Lock
                } else {
                    again
                },
                (RunStage::Parsing, Event::Parsed(Err(cause))) => {
                    &&& next is Over
                    &&& action == Action::End(Err(Failure::InvalidStreamResult { cause }))
                },
                (RunStage::Locking(result), Event::Done) => {
                    next == RunStage::Confirming(result) && action is ReadToken
                },
                (RunStage::Waiting, Event::Ping(payload)) => {
                    next is Ponging && action == Action::Send(Payload::Pong(payload))
                },
                (RunStage::Waiting, Event::Closed) => if pre.closing_ms is Some && pre.metadata {
                    next is Over && action == Action::End(Ok(()))
                } else {
                    next is Over && action == Action::End(Err(Failure::ClosedEarly))
                },
                (RunStage::Waiting, Event::Broke) => {
                    next is Over && action == Action::End(Err(Failure::Disconnected))
                },
                (RunStage::Waiting, Event::Noise) => again,
                (RunStage::Resuming, _) => again,
                (RunStage::Leaving(result), _) => next is Over && action == Action::End(result),
                (_, Event::Failed(failure)) => run_fails(stage, failure, next, action),
                _ => run_fails(stage, Failure::OutOfTurn, next, action),
            }
        },
    }
}

fn run_failing(stage: RunStage, failure: Failure) -> (out: (RunStage, Action))
    ensures
        run_fails(stage, failure, out.0, out.1),
{
    match stage {
        RunStage::Rereading => (RunStage::Leaving(Err(failure)), Action::Unlock),
        RunStage::Confirming(_) => (RunStage::Leaving(Err(failure)), Action::Unlock),
        RunStage::Delivering(_) => (RunStage::Leaving(Err(failure)), Action::Unlock),
        _ => (RunStage::Over, Action::End(Err(failure))),
    }
}

fn send_chunk(rest: Vec<u8>) -> (out: (RunStage, Action))
    ensures
        sends_chunk(rest@, out.0, out.1),
{
    let size = if rest.len() <= CHUNK_BYTES {
        rest.len()
    } else {
        CHUNK_BYTES
    };
    let chunk = slice_to_vec(slice_subrange(rest.as_slice(), 0, size));
    let left = slice_to_vec(slice_subrange(rest.as_slice(), size, rest.len()));
    assert(chunk@ =~= at_most(rest@, CHUNK_BYTES as int));
    assert(left@ =~= rest@.skip(size as int));
    (RunStage::Sending { size, rest: left }, Action::Send(Payload::Audio(chunk)))
}

/// Streams the recording and delivers what comes back: the next step of it, from
/// `Ready` and `Begin` on.
pub fn run_stream(stream: Stream, stage: RunStage, event: Event) -> (out: (
    Stream,
    RunStage,
    Action,
))
    ensures
        run_step(stream, stage, event, out.0, out.1, out.2),
{
    let mut stream = stream;
    match (stage, event) {
        (RunStage::Connecting, Event::Connected { now_ms }) => {
            stream.last_send_ms = now_ms;
            (stream, RunStage::Looking, Action::ReadToken)
        },
        (RunStage::Sending { size, rest }, Event::Sent { now_ms }) => {
            match stream.sent.checked_add(size as u64) {
                None => (stream, RunStage::Over, Action::End(Err(Failure::OutOfTurn))),
                Some(sent) => {
                    stream.sent = sent;
                    if rest.len() > 0 {
                        (stream, RunStage::Chunking { rest }, Action::ReadToken)
                    } else {
                        stream.last_send_ms = now_ms;
                        (stream, RunStage::Looking, Action::ReadToken)
                    }
                },
            }
        },
        (RunStage::Closing, Event::Sent { now_ms }) => {
            stream.closing_ms = Some(now_ms);
            (stream, RunStage::Looking, Action::ReadToken)
        },
        (RunStage::Keeping, Event::Sent { now_ms }) => {
            stream.last_send_ms = now_ms;
            (stream, RunStage::Looking, Action::ReadToken)
        },
        (RunStage::Waiting, Event::Text(text)) => {
            let kind = text_field(text.as_slice(), "type");
            take_text(stream, text, kind)
        },
        (RunStage::Confirming(result), Event::Token(token)) => {
            if !holds_token(&token, stream.session.as_str()) {
                return (stream, RunStage::Leaving(Ok(())), Action::Unlock);
            }
            let (progress, commit) = commit_result(stream.progress, result, stream.sent);
            stream.progress = progress;
            match commit {
                Commit::Nothing => (stream, RunStage::Resuming, Action::Unlock),
                Commit::Refuse(failure) => (
                    stream,
                    RunStage::Leaving(Err(failure)),
                    Action::Unlock,
                ),
                Commit::Deliver(delivery, action) => (
                    stream,
                    RunStage::Delivering(delivery),
                    action,
                ),
            }
        },
        (RunStage::Delivering(delivery), event) => {
            let (progress, step) = delivery.advance(stream.progress, event);
            stream.progress = progress;
            match step {
                DeliveryStep::Go(later, action) => (stream, RunStage::Delivering(later), action),
                DeliveryStep::Settled(Ok(())) => (stream, RunStage::Resuming, Action::Unlock),
                DeliveryStep::Settled(Err(failure)) => (
                    stream,
                    RunStage::Leaving(Err(failure)),
                    Action::Unlock,
                ),
            }
        },
        (RunStage::Ready(Ok(request)), Event::Begin) => (
            stream,
            RunStage::Connecting,
            Action::Connect(request),
        ),
        (RunStage::Ready(Err(failure)), Event::Begin) => (
            stream,
            RunStage::Over,
            Action::End(Err(failure)),
        ),
        (RunStage::Looking, Event::Token(token)) => {
            if holds_token(&token, stream.session.as_str()) {
                (stream, RunStage::Waiting, Action::Await)
            } else {
                (stream, RunStage::Over, Action::End(Ok(())))
            }
        },
        (RunStage::Waiting, Event::Tick { now_ms }) => match stream.closing_ms {
            Some(since) => if has_elapsed(since, now_ms, FINISH_TIMEOUT_MS) {
                (stream, RunStage::Over, Action::End(Err(Failure::FinalTimeout)))
            } else {
                (stream, RunStage::Looking, Action::ReadToken)
            },
            None => (stream, RunStage::Polling { now_ms }, Action::ReadStream),
        },
        (RunStage::Polling { now_ms }, Event::Stream(status)) => {
            if !same_text(status.session.as_str(), stream.session.as_str()) {
                (stream, RunStage::Over, Action::End(Ok(())))
            } else if status.phase == Phase::Recording {
                let pid = stream.recorder;
                (stream, RunStage::Probing { now_ms }, Action::LookRecorder { pid })
            } else {
                let finishing = status.phase == Phase::Finishing;
                let from = stream.sent;
                (stream, RunStage::Hearing { finishing, now_ms }, Action::Snapshot { from })
            }
        },
        (RunStage::Probing { now_ms }, Event::Running { running, .. }) => {
            let from = stream.sent;
            if running {
                (
                    stream,
                    RunStage::Hearing { finishing: false, now_ms },
                    Action::Snapshot { from },
                )
            } else {
                (stream, RunStage::Suspecting, Action::Lock)
            }
        },
        (RunStage::Suspecting, Event::Done) => (stream, RunStage::Rereading, Action::ReadStream),
        (RunStage::Rereading, Event::Stream(status)) => if status.phase == Phase::Recording {
            (stream, RunStage::Leaving(Err(Failure::RecorderLost)), Action::Unlock)
        } else {
            (stream, RunStage::Resuming, Action::Unlock)
        },
        (RunStage::Hearing { .. }, Event::Heard(Some(frame))) => {
            if stream.sent == frame.start && frame.start < frame.end && frame.is_whole() {
                let mut rest = frame.pcm;
                let ghost pcm = rest@;
                if rest.len() > BURST_BYTES {
                    rest.truncate(BURST_BYTES);
                }
                assert(rest@ =~= at_most(pcm, BURST_BYTES as int));
                (stream, RunStage::Chunking { rest }, Action::ReadToken)
            } else {
                (stream, RunStage::Over, Action::End(Err(Failure::OutOfTurn)))
            }
        },
        (RunStage::Hearing { finishing, now_ms }, Event::Heard(None)) => {
            if finishing {
                (stream, RunStage::Closing, Action::Send(Payload::CloseStream))
            } else if has_elapsed(stream.last_send_ms, now_ms, KEEP_ALIVE_MS) {
                (stream, RunStage::Keeping, Action::Send(Payload::KeepAlive))
            } else {
                (stream, RunStage::Looking, Action::ReadToken)
            }
        },
        (RunStage::Chunking { rest }, Event::Token(token)) => {
            if holds_token(&token, stream.session.as_str()) {
                let (next, action) = send_chunk(rest);
                (stream, next, action)
            } else {
                (stream, RunStage::Over, Action::End(Ok(())))
            }
        },
        (RunStage::Ponging, Event::Sent { .. }) => (stream, RunStage::Looking, Action::ReadToken),
        (RunStage::Parsing, Event::Parsed(Ok(result))) => if result.is_final {
            (stream, RunStage::Locking(result), Action::Lock)
        } else {
            (stream, RunStage::Looking, Action::ReadToken)
        },
        (RunStage::Parsing, Event::Parsed(Err(cause))) => (
            stream,
            RunStage::Over,
            Action::End(Err(Failure::InvalidStreamResult { cause })),
        ),
        (RunStage::Locking(result), Event::Done) => (
            stream,
            RunStage::Confirming(result),
            Action::ReadToken,
        ),
        (RunStage::Waiting, Event::Ping(payload)) => (
            stream,
            RunStage::Ponging,
            Action::Send(Payload::Pong(payload)),
        ),
        (RunStage::Waiting, Event::Closed) => if stream.closing_ms.is_some() && stream.metadata {
            (stream, RunStage::Over, Action::End(Ok(())))
        } else {
            (stream, RunStage::Over, Action::End(Err(Failure::ClosedEarly)))
        },
        (RunStage::Waiting, Event::Broke) => (
            stream,
            RunStage::Over,
            Action::End(Err(Failure::Disconnected)),
        ),
        (RunStage::Waiting, Event::Noise) => (stream, RunStage::Looking, Action::ReadToken),
        (RunStage::Resuming, _) => (stream, RunStage::Looking, Action::ReadToken),
        (RunStage::Leaving(result), _) => (stream, RunStage::Over, Action::End(result)),
        (stage, Event::Failed(failure)) => {
            let (next, action) = run_failing(stage, failure);
            (stream, next, action)
        },
        (stage, _) => {
            let (next, action) = run_failing(stage, Failure::OutOfTurn);
            (stream, next, action)
        },
    }
}

/// A run of a stream: `events[i]`, told at `stages[i]`, is answered by
/// `actions[i]`; `streams[i]` is the stream at that stage.
pub open spec fn stream_run(
    streams: Seq<Stream>,
    stages: Seq<RunStage>,
    events: Seq<Event>,
    actions: Seq<Action>,
) -> bool {
    &&& stages.len() == events.len() + 1
    &&& streams.len() == stages.len()
    &&& actions.len() == events.len()
    &&& stages[0] is Ready
    &&& streams[0].progress.is_blank()
    &&& streams[0].sent == 0
    &&& streams[0].closing_ms is None
    &&& !streams[0].metadata
    &&& forall|i: int|
        0 <= i < events.len() ==> run_step(
            streams[i],
            stages[i],
            #[trigger] events[i],
            streams[i + 1],
            stages[i + 1],
            actions[i],
        )
}

/// The audio that was sent, as far as that was confirmed before event `m`.
pub open spec fn submitted(events: Seq<Event>, actions: Seq<Action>, m: int) -> Seq<u8>
    decreases m,
{
    if m <= 1 {
        Seq::empty()
    } else {
        match (actions[m - 2], events[m - 1]) {
            (Action::Send(Payload::Audio(chunk)), Event::Sent { .. }) => submitted(
                events,
                actions,
                m - 1,
            ) + chunk@,
            _ => submitted(events, actions, m - 1),
        }
    }
}

/// What a stream is about to send comes next in `source`.
spec fn sends_next(source: Seq<u8>, sent: u64, stage: RunStage) -> bool {
    match stage {
        RunStage::Chunking { rest } => {
            &&& rest@.len() > 0
            &&& sent + rest@.len() <= source.len()
            &&& sent + rest@.len() <= u64::MAX
            &&& rest@ == source.subrange(sent as int, sent + rest@.len())
        },
        RunStage::Sending { size, rest } => {
            &&& sent + size + rest@.len() <= source.len()
            &&& sent + size + rest@.len() <= u64::MAX
            &&& rest@ == source.subrange(sent + size, sent + size + rest@.len())
        },
        _ => true,
    }
}

/// The audio that goes over a stream is the recording from its beginning on: in
/// order, without a gap, and no byte twice.
pub proof fn audio_is_sent_in_order(
    streams: Seq<Stream>,
    stages: Seq<RunStage>,
    events: Seq<Event>,
    actions: Seq<Action>,
    source: Seq<u8>,
    m: int,
)
    requires
        stream_run(streams, stages, events, actions),
        hears(source, events),
        0 <= m <= events.len(),
    ensures
        streams[m].sent <= source.len(),
        submitted(events, actions, m) == source.take(streams[m].sent as int),
        m < events.len() ==> (actions[m] matches Action::Send(Payload::Audio(chunk)) ==> {
            &&& 0 < chunk@.len() <= CHUNK_BYTES
            &&& streams[m].sent + chunk@.len() <= source.len()
            &&& chunk@ == source.subrange(
                streams[m].sent as int,
                streams[m].sent + chunk@.len(),
            )
        }),
{
    lemma_sent(streams, stages, events, actions, source, m);
    if m < events.len() {
        lemma_sent(streams, stages, events, actions, source, m + 1);
        assert(run_step(
            streams[m],
            stages[m],
            events[m],
            streams[m + 1],
            stages[m + 1],
            actions[m],
        ));
        if let RunStage::Chunking { rest } = stages[m] {
            let chunk = at_most(rest@, CHUNK_BYTES as int);
            assert(chunk =~= source.subrange(
                streams[m].sent as int,
                streams[m].sent + chunk.len(),
            ));
        }
    }
}

proof fn lemma_sent(
    streams: Seq<Stream>,
    stages: Seq<RunStage>,
    events: Seq<Event>,
    actions: Seq<Action>,
    source: Seq<u8>,
    m: int,
)
    requires
        stream_run(streams, stages, events, actions),
        hears(source, events),
        0 <= m <= events.len(),
    ensures
        streams[m].sent <= source.len(),
        submitted(events, actions, m) == source.take(streams[m].sent as int),
        sends_next(source, streams[m].sent, stages[m]),
        stages[m] matches RunStage::Sending { size, rest } ==> m >= 1 && (actions[m - 1] matches
            Action::Send(Payload::Audio(chunk)) && chunk@ == source.subrange(
            streams[m].sent as int,
            streams[m].sent + size,
        )),
        !(stages[m] is Sending) && m >= 1 ==> !(actions[m - 1] matches Action::Send(
            Payload::Audio(_),
        )),
    decreases m,
{
    if m == 0 {
        assert(source.take(0) =~= Seq::empty());
    } else {
        lemma_sent(streams, stages, events, actions, source, m - 1);
        let pre = streams[m - 1];
        let event = events[m - 1];
        assert(run_step(pre, stages[m - 1], event, streams[m], stages[m], actions[m - 1]));
        match (stages[m - 1], event) {
            (RunStage::Sending { size, rest }, Event::Sent { .. }) => {
                let sent = pre.sent as int;
                assert(source.take(sent) + source.subrange(sent, sent + size) =~= source.take(
                    sent + size,
                ));
                assert(submitted(events, actions, m) =~= source.take(sent + size));
            },
            (RunStage::Hearing { .. }, Event::Heard(Some(frame))) => {
                if let RunStage::Chunking { rest } = stages[m] {
                    assert(rest@ =~= source.subrange(
                        pre.sent as int,
                        pre.sent + rest@.len(),
                    ));
                }
            },
            (RunStage::Chunking { rest }, Event::Token(_)) => {
                if let RunStage::Sending { size, rest: left } = stages[m] {
                    let sent = pre.sent as int;
                    let chunk = at_most(rest@, CHUNK_BYTES as int);
                    assert(chunk =~= source.subrange(sent, sent + size));
                    assert(left@ =~= source.subrange(sent + size, sent + size + left@.len()));
                }
            },
            _ => {},
        }
    }
}

/// The session was seen to be over.
pub open spec fn session_over(session: Seq<char>, event: Event) -> bool {
    match event {
        Event::Token(token) => maybe(token) != Some(session),
        Event::Stream(status) => status.session@ != session,
        _ => false,
    }
}

/// Action `a` announces the end of the audio, when none was left, and was carried
/// out.
pub open spec fn announced(events: Seq<Event>, actions: Seq<Action>, a: int) -> bool {
    &&& 0 <= a
    &&& a + 1 < events.len()
    &&& events[a] == Event::Heard(None)
    &&& actions[a] == Action::Send(Payload::CloseStream)
    &&& events[a + 1] is Sent
}

/// Event `b` confirms that the results are final.
pub open spec fn confirmed(events: Seq<Event>, b: int) -> bool {
    &&& 0 <= b < events.len()
    &&& events[b] matches Event::Text(text) && json_field(text@, "type"@)
        == Ok::<Option<Seq<char>>, Seq<char>>(Some("Metadata"@))
}

/// The announced end, and after it the confirmation, before `m`.
pub open spec fn finalized(
    events: Seq<Event>,
    actions: Seq<Action>,
    a: int,
    b: int,
    m: int,
) -> bool {
    announced(events, actions, a) && confirmed(events, b) && a + 1 < b < m
}

proof fn lemma_finalized(
    streams: Seq<Stream>,
    stages: Seq<RunStage>,
    events: Seq<Event>,
    actions: Seq<Action>,
    m: int,
)
    requires
        stream_run(streams, stages, events, actions),
        0 <= m <= events.len(),
    ensures
        streams[m].session == streams[0].session,
        stages[m] is Closing ==> m >= 1 && events[m - 1] == Event::Heard(None) && actions[m - 1]
            == Action::Send(Payload::CloseStream),
        streams[m].closing_ms is Some ==> exists|a: int|
            #[trigger] announced(events, actions, a) && a + 1 < m,
        streams[m].metadata ==> exists|a: int, b: int|
            #[trigger] finalized(events, actions, a, b, m),
        stages[m] matches RunStage::Leaving(Ok(_)) ==> m >= 1 && session_over(
            streams[0].session@,
            events[m - 1],
        ),
    decreases m,
{
    if m > 0 {
        lemma_finalized(streams, stages, events, actions, m - 1);
        let pre = streams[m - 1];
        assert(run_step(
            pre,
            stages[m - 1],
            events[m - 1],
            streams[m],
            stages[m],
            actions[m - 1],
        ));
        if streams[m].closing_ms is Some {
            if pre.closing_ms is Some {
                let a = choose|a: int| #[trigger] announced(events, actions, a) && a + 1 < m - 1;
                assert(announced(events, actions, a) && a + 1 < m);
            } else {
                assert(announced(events, actions, m - 2));
            }
        }
        if streams[m].metadata {
            if pre.metadata {
                let (a, b) = choose|a: int, b: int|
                    #[trigger] finalized(events, actions, a, b, m - 1);
                assert(finalized(events, actions, a, b, m));
            } else {
                let a = choose|a: int| #[trigger] announced(events, actions, a) && a + 1 < m - 1;
                assert(confirmed(events, m - 1));
                assert(finalized(events, actions, a, m - 1, m));
            }
        }
    }
}

/// A stream ends well only if its session is over, or once all audio was sent, its
/// end was announced, and the server confirmed after that that the results are
/// final, and then closed the stream.
pub proof fn stream_ends_well_only_when_final(
    streams: Seq<Stream>,
    stages: Seq<RunStage>,
    events: Seq<Event>,
    actions: Seq<Action>,
    i: int,
)
    requires
        stream_run(streams, stages, events, actions),
        0 <= i < events.len(),
        actions[i] == Action::End(Ok(())),
    ensures
        ({
            ||| session_over(streams[0].session@, events[i])
            ||| i >= 1 && session_over(streams[0].session@, events[i - 1])
            ||| events[i] is Closed && exists|a: int, b: int|
                #[trigger] finalized(events, actions, a, b, i)
        }),
{
    lemma_finalized(streams, stages, events, actions, i);
    assert(run_step(
        streams[i],
        stages[i],
        events[i],
        streams[i + 1],
        stages[i + 1],
        actions[i],
    ));
}

/// What a stream delivers tells of submitted audio that follows what was consumed.
pub open spec fn delivers_next(stream: Stream, stage: RunStage) -> bool {
    &&& stream.progress.consumed_bytes <= stream.sent
    &&& stage matches RunStage::Delivering(delivery) ==> (delivery.stage
        != DeliveryStage::Committing ==> stream.progress.consumed_bytes == delivery.start
        <= delivery.end <= stream.sent)
}

/// Streaming is append-only: typed text only grows at its end, consumed audio is
/// never consumed again, and only submitted audio is consumed.
pub proof fn streaming_is_append_only(
    streams: Seq<Stream>,
    stages: Seq<RunStage>,
    events: Seq<Event>,
    actions: Seq<Action>,
    i: int,
    k: int,
)
    requires
        stream_run(streams, stages, events, actions),
        0 <= i <= k <= events.len(),
    ensures
        comes_after(streams[i].progress, streams[k].progress),
        streams[i].sent <= streams[k].sent,
        delivers_next(streams[k], stages[k]),
    decreases k,
{
    if k > 0 {
        streaming_is_append_only(streams, stages, events, actions, 0, k - 1);
        assert(run_step(
            streams[k - 1],
            stages[k - 1],
            events[k - 1],
            streams[k],
            stages[k],
            actions[k - 1],
        ));
        assert(comes_after(streams[k - 1].progress, streams[k].progress));
        if i < k {
            streaming_is_append_only(streams, stages, events, actions, i, k - 1);
        }
    }
}

/// Action `i` happens under the lock that was asked for by action `j`: it was
/// taken, the session was then seen to be the one that may deliver, and the
/// lock was not released since.
pub open spec fn under_lock(
    session: Seq<char>,
    events: Seq<Event>,
    actions: Seq<Action>,
    j: int,
    i: int,
) -> bool {
    &&& 0 <= j
    &&& j + 2 <= i
    &&& actions[j] is Lock
    &&& events[j + 1] is Done
    &&& actions[j + 1] is ReadToken
    &&& events[j + 2] matches Event::Token(token) && maybe(token) == Some(session)
    &&& forall|k: int| j < k < i ==> !(#[trigger] actions[k] is Unlock)
}

proof fn lemma_locked(
    streams: Seq<Stream>,
    stages: Seq<RunStage>,
    events: Seq<Event>,
    actions: Seq<Action>,
    m: int,
)
    requires
        stream_run(streams, stages, events, actions),
        0 <= m <= events.len(),
    ensures
        streams[m].session == streams[0].session,
        stages[m] is Locking ==> m >= 1 && actions[m - 1] is Lock,
        stages[m] is Confirming ==> m >= 2 && actions[m - 2] is Lock && events[m - 1] is Done
            && actions[m - 1] is ReadToken,
        stages[m] is Delivering ==> exists|j: int|
            #[trigger] under_lock(streams[0].session@, events, actions, j, m),
    decreases m,
{
    if m > 0 {
        lemma_locked(streams, stages, events, actions, m - 1);
        assert(run_step(
            streams[m - 1],
            stages[m - 1],
            events[m - 1],
            streams[m],
            stages[m],
            actions[m - 1],
        ));
        if stages[m] is Delivering {
            if stages[m - 1] is Delivering {
                let j = choose|j: int|
                    #[trigger] under_lock(streams[0].session@, events, actions, j, m - 1);
                assert(under_lock(streams[0].session@, events, actions, j, m));
            } else {
                assert(under_lock(streams[0].session@, events, actions, m - 3, m));
            }
        }
    }
}

/// A stream copies and pastes only under the command lock, and only after it saw
/// under that lock that its session is still the one that may deliver.
pub proof fn stream_delivers_under_the_lock(
    streams: Seq<Stream>,
    stages: Seq<RunStage>,
    events: Seq<Event>,
    actions: Seq<Action>,
    i: int,
)
    requires
        stream_run(streams, stages, events, actions),
        0 <= i < events.len(),
        actions[i] is Copy || actions[i] is Paste,
    ensures
        exists|j: int| #[trigger] under_lock(streams[0].session@, events, actions, j, i),
{
    assert(run_step(
        streams[i],
        stages[i],
        events[i],
        streams[i + 1],
        stages[i + 1],
        actions[i],
    ));
    lemma_locked(streams, stages, events, actions, i);
    if stages[i] is Confirming {
        assert(under_lock(streams[0].session@, events, actions, i - 2, i));
    }
}

/// A stream asks for a keystroke only right after the progress that announces it was
/// published.
pub proof fn streamed_paste_is_announced(
    streams: Seq<Stream>,
    stages: Seq<RunStage>,
    events: Seq<Event>,
    actions: Seq<Action>,
    i: int,
)
    requires
        stream_run(streams, stages, events, actions),
        0 <= i < events.len(),
        actions[i] is Paste,
    ensures
        i >= 1,
        actions[i - 1] matches Action::Publish(progress) && progress.delivery_pending,
        events[i] is Done,
{
    assert(run_step(
        streams[i],
        stages[i],
        events[i],
        streams[i + 1],
        stages[i + 1],
        actions[i],
    ));
    if i > 0 {
        assert(run_step(
            streams[i - 1],
            stages[i - 1],
            events[i - 1],
            streams[i],
            stages[i],
            actions[i - 1],
        ));
    }
}

/// All that a stream copies, and all that it has typed, holds no line break.
pub proof fn streaming_is_one_line(
    streams: Seq<Stream>,
    stages: Seq<RunStage>,
    events: Seq<Event>,
    actions: Seq<Action>,
    m: int,
)
    requires
        stream_run(streams, stages, events, actions),
        0 <= m <= events.len(),
    ensures
        one_line(streams[m].progress.text@),
        stages[m] matches RunStage::Delivering(delivery) ==> keeps_one_line(
            delivery,
            streams[m].progress,
        ),
        m > 0 ==> (actions[m - 1] matches Action::Copy(text) ==> one_line(text@)),
    decreases m,
{
    if m > 0 {
        streaming_is_one_line(streams, stages, events, actions, m - 1);
        let (pre, post) = (streams[m - 1], streams[m]);
        let event = events[m - 1];
        let action = actions[m - 1];
        assert(run_step(pre, stages[m - 1], event, post, stages[m], action));
        match (stages[m - 1], event) {
            (RunStage::Confirming(result), Event::Token(_)) => {
                if let RunStage::Delivering(delivery) = stages[m] {
                    let end = result.end->0;
                    delivery_begins_with_one_line(
                        pre.progress,
                        pre.progress.consumed_bytes,
                        if end <= pre.sent {
                            end
                        } else {
                            pre.sent
                        },
                        Transcription {
                            text: result.channel.best()->0,
                            language: pre.progress.language,
                        },
                        post.progress,
                        delivery,
                        action,
                    );
                }
            },
            (RunStage::Delivering(delivery), _) => {
                if let RunStage::Delivering(later) = stages[m] {
                    delivery_keeps_one_line(
                        delivery,
                        pre.progress,
                        event,
                        post.progress,
                        DeliveryStep::Go(later, action),
                    );
                } else if stages[m] is Resuming {
                    delivery_keeps_one_line(
                        delivery,
                        pre.progress,
                        event,
                        post.progress,
                        DeliveryStep::Settled(Ok(())),
                    );
                } else if let RunStage::Leaving(Err(failure)) = stages[m] {
                    delivery_keeps_one_line(
                        delivery,
                        pre.progress,
                        event,
                        post.progress,
                        DeliveryStep::Settled(Err(failure)),
                    );
                }
            },
            _ => {},
        }
    } else {
        assert(one_line(streams[0].progress.text@));
    }
}

/// The stream of `session` was seen to be asked to finish at event `j`.
pub open spec fn asked_to_finish(session: Seq<char>, events: Seq<Event>, j: int) -> bool {
    &&& 0 <= j < events.len()
    &&& events[j] matches Event::Stream(status) && status.session@ == session && status.phase
        == Phase::Finishing
}

/// Only an explicit stop drains a stream: the end of the audio is announced only right
/// after the stream was seen to be asked to finish, with no audio left. A recorder
/// that is gone by itself is a failure.
pub proof fn only_a_stop_drains_a_stream(
    streams: Seq<Stream>,
    stages: Seq<RunStage>,
    events: Seq<Event>,
    actions: Seq<Action>,
    i: int,
)
    requires
        stream_run(streams, stages, events, actions),
        0 <= i < events.len(),
        actions[i] == Action::Send(Payload::CloseStream),
    ensures
        asked_to_finish(streams[0].session@, events, i - 1),
        events[i] == Event::Heard(None),
{
    lemma_finalized(streams, stages, events, actions, i);
    assert(run_step(
        streams[i],
        stages[i],
        events[i],
        streams[i + 1],
        stages[i + 1],
        actions[i],
    ));
    if i > 0 {
        lemma_finalized(streams, stages, events, actions, i - 1);
        assert(run_step(
            streams[i - 1],
            stages[i - 1],
            events[i - 1],
            streams[i],
            stages[i],
            actions[i - 1],
        ));
    }
}

/// What a stream's worker waits for.
pub enum ServeStage {
    Ready,
    Locking,
    /// To hear whether the session may deliver, with the lock held.
    Checking,
    /// To hear whose stream it is.
    Reading,
    /// The settings that the recording was started with.
    Loading,
    /// The recording to be opened.
    Opening(SessionConfig),
    /// The lock to be released, to stream.
    Releasing(SessionConfig),
    Running,
    /// The lock, to publish how it went.
    Relocking(Preview, Result<(), Failure>),
    Rechecking(Preview, Result<(), Failure>),
    Rereading(Preview, Result<(), Failure>),
    /// The failure to be published.
    Publishing(StreamState),
    Telling(StreamState),
    Saving,
    /// The lock to be released, to end so.
    Unlocking(Result<(), Failure>),
    Over,
}

/// The lock is held at this stage.
pub open spec fn serve_holds_lock(stage: ServeStage) -> bool {
    match stage {
        ServeStage::Ready => false,
        ServeStage::Locking => false,
        ServeStage::Releasing(_) => false,
        ServeStage::Running => false,
        ServeStage::Relocking(_, _) => false,
        ServeStage::Unlocking(_) => false,
        ServeStage::Over => false,
        _ => true,
    }
}

/// What the worker `pid` of the stream `session` does at `stage` when told `event`.
pub open spec fn serve_step(
    session: Seq<char>,
    pid: i32,
    stage: ServeStage,
    event: Event,
    next: ServeStage,
    action: Action,
) -> bool {
    let leave = next == ServeStage::Unlocking(Ok(())) && action is Unlock;
    match (stage, event) {
        (ServeStage::Ready, Event::Begin) => next is Locking && action is Lock,
        (ServeStage::Locking, Event::Done) => next is Checking && action is ReadToken,
        (ServeStage::Checking, Event::Token(token)) => if maybe(token) == Some(session) {
            next is Reading && action is ReadStream
        } else {
            leave
        },
        (ServeStage::Reading, Event::Stream(status)) => if status.session@ == session
            && status.worker_pid == pid {
            next is Loading && action is ReadSession
        } else {
            next == ServeStage::Unlocking(Err(Failure::InvalidIdentity)) && action is Unlock
        },
        (ServeStage::Loading, Event::Session(settings)) => {
            next == ServeStage::Opening(settings) && action is OpenRecording
        },
        (ServeStage::Opening(settings), Event::Done) => {
            next == ServeStage::Releasing(settings) && action is Unlock
        },
        (ServeStage::Releasing(settings), _) => {
            next is Running && action == Action::Run(settings)
        },
        (ServeStage::Running, Event::Ran { progress, result }) => {
            next == ServeStage::Relocking(progress, result) && action is Lock
        },
        (ServeStage::Relocking(progress, result), Event::Done) => {
            next == ServeStage::Rechecking(progress, result) && action is ReadToken
        },
        (ServeStage::Rechecking(progress, result), Event::Token(token)) => if maybe(token) == Some(
            session,
        ) {
            next == ServeStage::Rereading(progress, result) && action is ReadStream
        } else {
            leave
        },
        (ServeStage::Rereading(progress, Ok(_)), Event::Stream(status)) => {
            &&& next is Saving
            &&& action == Action::SaveStream(StreamState { phase: Phase::Done, ..status })
        },
        (ServeStage::Rereading(progress, Err(failure)), Event::Stream(status)) => {
            &&& next matches ServeStage::Publishing(failed) && maybe(failed.error) == Some(
                failure.told(),
            ) && failed == (StreamState { phase: Phase::Error, error: failed.error, ..status })
            &&& action matches Action::Publish(published) && with_error(
                progress,
                published,
                failure.told(),
            )
        },
        (ServeStage::Publishing(failed), Event::Done) => {
            next == ServeStage::Telling(failed) && action == Action::Notify(Note::StreamStopped)
        },
        (ServeStage::Telling(failed), _) => {
            next is Saving && action == Action::SaveStream(failed)
        },
        (ServeStage::Saving, Event::Done) => leave,
        (ServeStage::Unlocking(result), _) => next is Over && action == Action::End(result),
        (_, Event::Failed(failure)) => if serve_holds_lock(stage) {
            next == ServeStage::Unlocking(Err(failure)) && action is Unlock
        } else {
            next is Over && action == Action::End(Err(failure))
        },
        _ => if serve_holds_lock(stage) {
            next == ServeStage::Unlocking(Err(Failure::OutOfTurn)) && action is Unlock
        } else {
            next is Over && action == Action::End(Err(Failure::OutOfTurn))
        },
    }
}

fn serve_fails(stage: ServeStage, failure: Failure) -> (out: (ServeStage, Action))
    ensures
        if serve_holds_lock(stage) {
            out == (ServeStage::Unlocking(Err(failure)), Action::Unlock)
        } else {
            out == (ServeStage::Over, Action::End(Err(failure)))
        },
{
    match stage {
        ServeStage::Ready => (ServeStage::Over, Action::End(Err(failure))),
        ServeStage::Locking => (ServeStage::Over, Action::End(Err(failure))),
        ServeStage::Releasing(_) => (ServeStage::Over, Action::End(Err(failure))),
        ServeStage::Running => (ServeStage::Over, Action::End(Err(failure))),
        ServeStage::Relocking(_, _) => (ServeStage::Over, Action::End(Err(failure))),
        ServeStage::Unlocking(_) => (ServeStage::Over, Action::End(Err(failure))),
        ServeStage::Over => (ServeStage::Over, Action::End(Err(failure))),
        _ => (ServeStage::Unlocking(Err(failure)), Action::Unlock),
    }
}

/// Serves the stream of `session` as the process `pid`: the next step of it.
pub fn worker(session: &str, pid: i32, stage: ServeStage, event: Event) -> (out: (
    ServeStage,
    Action,
))
    ensures
        serve_step(session@, pid, stage, event, out.0, out.1),
{
    match (stage, event) {
        (ServeStage::Ready, Event::Begin) => (ServeStage::Locking, Action::Lock),
        (ServeStage::Locking, Event::Done) => (ServeStage::Checking, Action::ReadToken),
        (ServeStage::Checking, Event::Token(token)) => if holds_token(&token, session) {
            (ServeStage::Reading, Action::ReadStream)
        } else {
            (ServeStage::Unlocking(Ok(())), Action::Unlock)
        },
        (ServeStage::Reading, Event::Stream(status)) => {
            if same_text(status.session.as_str(), session) && status.worker_pid == pid {
                (ServeStage::Loading, Action::ReadSession)
            } else {
                (ServeStage::Unlocking(Err(Failure::InvalidIdentity)), Action::Unlock)
            }
        },
        (ServeStage::Loading, Event::Session(settings)) => (
            ServeStage::Opening(settings),
            Action::OpenRecording,
        ),
        (ServeStage::Opening(settings), Event::Done) => (
            ServeStage::Releasing(settings),
            Action::Unlock,
        ),
        (ServeStage::Releasing(settings), _) => (ServeStage::Running, Action::Run(settings)),
        (ServeStage::Running, Event::Ran { progress, result }) => (
            ServeStage::Relocking(progress, result),
            Action::Lock,
        ),
        (ServeStage::Relocking(progress, result), Event::Done) => (
            ServeStage::Rechecking(progress, result),
            Action::ReadToken,
        ),
        (ServeStage::Rechecking(progress, result), Event::Token(token)) => {
            if holds_token(&token, session) {
                (ServeStage::Rereading(progress, result), Action::ReadStream)
            } else {
                (ServeStage::Unlocking(Ok(())), Action::Unlock)
            }
        },
        (ServeStage::Rereading(_, Ok(_)), Event::Stream(status)) => {
            let mut status = status;
            status.phase = Phase::Done;
            (ServeStage::Saving, Action::SaveStream(status))
        },
        (ServeStage::Rereading(progress, Err(failure)), Event::Stream(status)) => {
            let message = failure.message();
            let mut published = progress;
            published.error = Some(message.clone());
            let mut failed = status;
            failed.phase = Phase::Error;
            failed.error = Some(message);
            (ServeStage::Publishing(failed), Action::Publish(published))
        },
        (ServeStage::Publishing(failed), Event::Done) => (
            ServeStage::Telling(failed),
            Action::Notify(Note::StreamStopped),
        ),
        (ServeStage::Telling(failed), _) => (ServeStage::Saving, Action::SaveStream(failed)),
        (ServeStage::Saving, Event::Done) => (ServeStage::Unlocking(Ok(())), Action::Unlock),
        (ServeStage::Unlocking(result), _) => (ServeStage::Over, Action::End(result)),
        (stage, Event::Failed(failure)) => serve_fails(stage, failure),
        (stage, _) => serve_fails(stage, Failure::OutOfTurn),
    }
}

/// A run of a stream's worker: `events[i]`, told at `stages[i]`, is answered by
/// `actions[i]`.
pub open spec fn serve_run(
    session: Seq<char>,
    pid: i32,
    stages: Seq<ServeStage>,
    events: Seq<Event>,
    actions: Seq<Action>,
) -> bool {
    &&& stages.len() == events.len() + 1
    &&& actions.len() == events.len()
    &&& stages[0] is Ready
    &&& forall|i: int|
        0 <= i < events.len() ==> serve_step(
            session,
            pid,
            stages[i],
            #[trigger] events[i],
            stages[i + 1],
            actions[i],
        )
}

proof fn lemma_served(
    session: Seq<char>,
    pid: i32,
    stages: Seq<ServeStage>,
    events: Seq<Event>,
    actions: Seq<Action>,
    m: int,
)
    requires
        serve_run(session, pid, stages, events, actions),
        0 <= m <= events.len(),
    ensures
        stages[m] is Loading || stages[m] is Opening || stages[m] is Releasing ==> exists|j: int|
            0 <= j < m && (#[trigger] events[j] matches Event::Stream(status) && status.session@
                == session && status.worker_pid == pid),
        match stages[m] {
            ServeStage::Relocking(_, result) => ran(events, result, m),
            ServeStage::Rechecking(_, result) => ran(events, result, m),
            ServeStage::Rereading(_, result) => ran(events, result, m),
            ServeStage::Publishing(failed) => failed.phase == Phase::Error,
            ServeStage::Telling(failed) => failed.phase == Phase::Error,
            _ => true,
        },
    decreases m,
{
    if m > 0 {
        lemma_served(session, pid, stages, events, actions, m - 1);
        let event = events[m - 1];
        assert(serve_step(session, pid, stages[m - 1], event, stages[m], actions[m - 1]));
        if stages[m] is Loading || stages[m] is Opening || stages[m] is Releasing {
            if !(stages[m - 1] is Reading) {
                let j = choose|j: int|
                    0 <= j < m - 1 && (#[trigger] events[j] matches Event::Stream(status)
                        && status.session@ == session && status.worker_pid == pid);
                assert(0 <= j < m && events[j] is Stream);
            } else {
                assert(0 <= m - 1 < m && events[m - 1] is Stream);
            }
        }
        match stages[m] {
            ServeStage::Relocking(progress, result) => {
                assert(events[m - 1] == (Event::Ran { progress, result }));
            },
            _ => {},
        }
    }
}

/// Streaming had this result, before `m`.
pub open spec fn ran(events: Seq<Event>, result: Result<(), Failure>, m: int) -> bool {
    exists|j: int|
        0 <= j < m && (#[trigger] events[j] matches Event::Ran { result: r, .. } && r == result)
}

/// Only the worker whose identity was published for this session streams; and a
/// stream is declared done only after streaming ended well.
pub proof fn only_the_named_worker_serves(
    session: Seq<char>,
    pid: i32,
    stages: Seq<ServeStage>,
    events: Seq<Event>,
    actions: Seq<Action>,
    i: int,
)
    requires
        serve_run(session, pid, stages, events, actions),
        0 <= i < events.len(),
    ensures
        actions[i] is Run ==> exists|j: int|
            0 <= j < i && (#[trigger] events[j] matches Event::Stream(status) && status.session@
                == session && status.worker_pid == pid),
        actions[i] matches Action::SaveStream(status) && status.phase == Phase::Done ==> ran(
            events,
            Ok(()),
            i,
        ),
{
    lemma_served(session, pid, stages, events, actions, i);
    assert(serve_step(session, pid, stages[i], events[i], stages[i + 1], actions[i]));
    if let ServeStage::Rereading(_, Ok(done)) = stages[i] {
        assert(done == ());
        assert(ran(events, Ok(()), i));
    }
}

/// What becomes of a streaming result is decided by the result and by how far the stream
/// has come. It changes nothing exactly where it is interim or tells of no audio that
/// was not consumed yet. A final result on new audio is refused where it has no timing,
/// lies more than one chunk beyond what was submitted or has no alternative, and is
/// delivered in every other case: its first alternative is what is copied, on one line,
/// parted by a space from what was typed before, or, where that says nothing, the audio
/// is accounted for up to where the result ends, but never beyond what was submitted.
pub proof fn a_final_result_on_new_audio_is_delivered(
    before: Preview,
    result: StreamResult,
    sent: u64,
    after: Preview,
    commit: Commit,
)
    requires
        commits(before, result, sent, after, commit),
    ensures
        commit is Nothing <==> !result.is_final || (result.end is Some && result.end->0
            <= before.consumed_bytes),
        commit is Nothing || commit is Refuse ==> after == before,
        commit == Commit::Refuse(Failure::InvalidTiming) <==> result.is_final && result.end
            is None,
        result.is_final && result.end is Some && result.end->0 > before.consumed_bytes ==> {
            let end = result.end->0;
            let told = result.channel.alternatives@;
            if end > sent + 3200 {
                commit == Commit::Refuse(Failure::BeyondSubmitted)
            } else if told.len() == 0 {
                commit == Commit::Refuse(Failure::NoStreamAlternative)
            } else {
                let said = sanitized(told[0].transcript@);
                let reached = if end <= sent {
                    end
                } else {
                    sent
                };
                &&& commit matches Commit::Deliver(delivery, action)
                &&& if said.len() == 0 {
                    &&& action == Action::Publish(after)
                    &&& after.consumed_bytes == reached
                    &&& after.text == before.text
                    &&& after.language == before.language
                } else {
                    &&& after == before
                    &&& action matches Action::Copy(text) && text@ == if before.text@.len() == 0 {
                        said
                    } else {
                        seq![' '] + said
                    }
                    &&& delivery.start == before.consumed_bytes
                    &&& delivery.end == reached
                    &&& delivery.language == before.language
                }
            }
        },
{
}

/// What the last final result before event `m` says, in its first alternative.
pub open spec fn last_said(events: Seq<Event>, m: int) -> Seq<char>
    decreases m,
{
    if m <= 0 {
        Seq::empty()
    } else {
        match events[m - 1] {
            Event::Parsed(Ok(result)) => if result.is_final
                && result.channel.alternatives@.len() > 0 {
                result.channel.alternatives@[0].transcript@
            } else {
                last_said(events, m - 1)
            },
            _ => last_said(events, m - 1),
        }
    }
}

/// All that was said in the results that were accounted for before event `m`: each time
/// progress without a paste under way is published, what the last final result says
/// comes behind what was there, on the same line, parted by a space.
pub open spec fn accounted_text(events: Seq<Event>, actions: Seq<Action>, m: int) -> Seq<char>
    decreases m,
{
    if m <= 0 {
        Seq::empty()
    } else {
        let before = accounted_text(events, actions, m - 1);
        let said = sanitized(last_said(events, m - 1));
        match actions[m - 1] {
            Action::Publish(progress) => if progress.delivery_pending || said.len() == 0 {
                before
            } else if before.len() == 0 {
                said
            } else {
                before.push(' ') + said
            },
            _ => before,
        }
    }
}

/// What a stream is about to deliver is what the last final result says.
spec fn tells_last(stream: Stream, stage: RunStage, said: Seq<char>) -> bool {
    match stage {
        RunStage::Locking(result) => result.is_final && (result.channel.alternatives@.len() > 0
            ==> result.channel.alternatives@[0].transcript@ == said),
        RunStage::Confirming(result) => result.is_final && (result.channel.alternatives@.len() > 0
            ==> result.channel.alternatives@[0].transcript@ == said),
        RunStage::Delivering(delivery) => match delivery.stage {
            DeliveryStage::Copying => !stream.progress.delivery_pending && sanitized(said).len()
                > 0 && delivery.addition@ == crate::delivery::addition_to(
                stream.progress.text@,
                sanitized(said),
            ),
            DeliveryStage::Committing => !stream.progress.delivery_pending,
            _ => sanitized(said).len() > 0 && delivery.addition@ == crate::delivery::addition_to(
                stream.progress.text@,
                sanitized(said),
            ),
        },
        RunStage::Leaving(_) => true,
        RunStage::Over => true,
        _ => !stream.progress.delivery_pending,
    }
}

proof fn lemma_accounted_text(
    streams: Seq<Stream>,
    stages: Seq<RunStage>,
    events: Seq<Event>,
    actions: Seq<Action>,
    m: int,
)
    requires
        stream_run(streams, stages, events, actions),
        0 <= m <= events.len(),
    ensures
        streams[m].progress.text@ == accounted_text(events, actions, m),
        tells_last(streams[m], stages[m], last_said(events, m)),
        stages[m] is Locking || stages[m] is Confirming ==> !streams[m].progress.delivery_pending,
    decreases m,
{
    if m == 0 {
        assert(streams[0].progress.text@ =~= Seq::empty());
    } else {
        lemma_accounted_text(streams, stages, events, actions, m - 1);
        let (pre, post) = (streams[m - 1], streams[m]);
        let event = events[m - 1];
        let action = actions[m - 1];
        assert(run_step(pre, stages[m - 1], event, post, stages[m], action));
        if let RunStage::Delivering(delivery) = stages[m - 1] {
            if event == Event::Pasted(true) && delivery.stage == DeliveryStage::Pasting {
                let said = sanitized(last_said(events, m - 1));
                let before = pre.progress.text@;
                assert(before.push(' ') + said =~= before + (seq![' '] + said));
                assert(before.len() == 0 ==> before + said =~= said);
            }
        }
    }
}

/// What a stream has typed is, at any time, all that was said in the results that were
/// accounted for, in order, on one line, parted by single spaces: nothing that was
/// accounted for is missing, and nothing else was typed.
pub proof fn streamed_text_is_all_that_was_said(
    streams: Seq<Stream>,
    stages: Seq<RunStage>,
    events: Seq<Event>,
    actions: Seq<Action>,
    m: int,
)
    requires
        stream_run(streams, stages, events, actions),
        0 <= m <= events.len(),
    ensures
        streams[m].progress.text@ == accounted_text(events, actions, m),
{
    lemma_accounted_text(streams, stages, events, actions, m);
}

proof fn lemma_stream_step(
    streams: Seq<Stream>,
    stages: Seq<RunStage>,
    events: Seq<Event>,
    actions: Seq<Action>,
    i: int,
)
    requires
        stream_run(streams, stages, events, actions),
        0 <= i < events.len(),
    ensures
        run_step(streams[i], stages[i], events[i], streams[i + 1], stages[i + 1], actions[i]),
{
}

/// A stream connects with the request it was given and then, as long as its session may
/// deliver, waits for ticks and messages. Without a request it ends with the reason.
pub proof fn a_stream_connects_and_waits(
    streams: Seq<Stream>,
    stages: Seq<RunStage>,
    events: Seq<Event>,
    actions: Seq<Action>,
)
    requires
        stream_run(streams, stages, events, actions),
        events.len() >= 3,
        events[0] is Begin,
        events[1] is Connected,
        events[2] matches Event::Token(token) && maybe(token) == Some(streams[0].session@),
    ensures
        match stages[0]->Ready_0 {
            Ok(request) => {
                &&& actions[0] == Action::Connect(request)
                &&& actions[1] is ReadToken
                &&& streams[2].last_send_ms == events[1]->Connected_now_ms
                &&& actions[2] is Await
            },
            Err(failure) => actions[0] == Action::End(Err(failure)),
        },
{
    lemma_stream_step(streams, stages, events, actions, 0);
    lemma_stream_step(streams, stages, events, actions, 1);
    lemma_stream_step(streams, stages, events, actions, 2);
}

/// At every tick before the end was announced, a stream whose recording goes on, or that
/// is asked to finish, reads the recording from where it stopped sending, and sends the
/// first chunk of what it hears. Chunks hold a tenth of a second at most.
pub proof fn a_tick_sends_what_is_new(
    streams: Seq<Stream>,
    stages: Seq<RunStage>,
    events: Seq<Event>,
    actions: Seq<Action>,
    i: int,
    j: int,
)
    requires
        stream_run(streams, stages, events, actions),
        1 <= i,
        i < j,
        j + 1 < events.len(),
        actions[i - 1] is Await,
        events[i] is Tick,
        streams[i].closing_ms is None,
        events[i + 1] matches Event::Stream(status) && status.session@ == streams[i].session@
            && if status.phase == Phase::Recording {
            j == i + 3 && (events[i + 2] matches Event::Running { running, .. } && running)
        } else {
            j == i + 2
        },
        events[j] matches Event::Heard(Some(frame)) && frame.start
            <= frame.end && frame.pcm@.len() == frame.end - frame.start && frame.start
            == streams[i].sent && frame.start < frame.end,
        events[j + 1] matches Event::Token(token) && maybe(token) == Some(streams[i].session@),
    ensures
        actions[i] is ReadStream,
        j == i + 3 ==> actions[i + 1] == (Action::LookRecorder { pid: streams[i].recorder }),
        actions[j - 1] == (Action::Snapshot { from: streams[i].sent }),
        actions[j] is ReadToken,
        actions[j + 1] matches Action::Send(Payload::Audio(chunk)) && {
            let pcm = events[j]->Heard_0->0.pcm@;
            chunk@ == if pcm.len() <= 3200 {
                pcm
            } else {
                pcm.take(3200)
            }
        },
{
    lemma_stream_step(streams, stages, events, actions, i - 1);
    lemma_stream_step(streams, stages, events, actions, i);
    lemma_stream_step(streams, stages, events, actions, i + 1);
    lemma_stream_step(streams, stages, events, actions, i + 2);
    lemma_stream_step(streams, stages, events, actions, j);
    lemma_stream_step(streams, stages, events, actions, j + 1);
    let pcm = events[j]->Heard_0->0.pcm@;
    if pcm.len() > 3200 {
        assert(at_most(pcm, 32000).take(3200) =~= pcm.take(3200));
    }
}

/// What was heard is sent to its end, at most a second of it at a time: from the frame on,
/// with the session in order and every chunk sent, as many bytes count as sent as the
/// frame holds, or a second's worth, and the stream goes on.
pub proof fn what_is_heard_is_sent_to_its_end(
    streams: Seq<Stream>,
    stages: Seq<RunStage>,
    events: Seq<Event>,
    actions: Seq<Action>,
    i: int,
    n: int,
)
    requires
        stream_run(streams, stages, events, actions),
        1 <= i,
        actions[i - 1] is Snapshot,
        events[i] matches Event::Heard(Some(frame)) && frame.start
            <= frame.end && frame.pcm@.len() == frame.end - frame.start && frame.start
            == streams[i].sent && frame.start < frame.end && n == (if frame.pcm@.len() <= 32000 {
            frame.pcm@.len() as int
        } else {
            32000
        }),
        streams[i].sent + n <= u64::MAX,
        i + 2 * ((n + 3199) / 3200) < events.len(),
        forall|k: int|
            0 <= k < (n + 3199) / 3200 ==> #[trigger] sent_chunk(
                streams[i].session@,
                events,
                i + 1 + 2 * k,
            ),
    ensures
        streams[i + 1 + 2 * ((n + 3199) / 3200)].sent == streams[i].sent + n,
        actions[i + 2 * ((n + 3199) / 3200)] is ReadToken,
        stages[i + 1 + 2 * ((n + 3199) / 3200)] is Looking,
{
    lemma_stream_step(streams, stages, events, actions, i - 1);
    lemma_stream_step(streams, stages, events, actions, i);
    assert(stages[i + 1] is Chunking);
    assert(stages[i + 1]->Chunking_rest@.len() == n);
    assert forall|k: int| 0 <= k < (n + 3199) / 3200 implies #[trigger] sent_chunk(
        streams[i + 1].session@,
        events,
        i + 1 + 2 * k,
    ) by {
        assert(sent_chunk(streams[i].session@, events, i + 1 + 2 * k));
    }
    lemma_burst(streams, stages, events, actions, i + 1, n);
}

/// The session was in order at event `k`, and the chunk that was then sent was taken.
pub open spec fn sent_chunk(session: Seq<char>, events: Seq<Event>, k: int) -> bool {
    &&& events[k] matches Event::Token(token) && maybe(token) == Some(session)
    &&& events[k + 1] is Sent
}

proof fn lemma_burst(
    streams: Seq<Stream>,
    stages: Seq<RunStage>,
    events: Seq<Event>,
    actions: Seq<Action>,
    i: int,
    n: int,
)
    requires
        stream_run(streams, stages, events, actions),
        1 <= i,
        n > 0,
        stages[i] matches RunStage::Chunking { rest } && rest@.len() == n,
        streams[i].sent + n <= u64::MAX,
        i + 2 * ((n + 3199) / 3200) <= events.len(),
        forall|k: int|
            0 <= k < (n + 3199) / 3200 ==> #[trigger] sent_chunk(
                streams[i].session@,
                events,
                i + 2 * k,
            ),
    ensures
        streams[i + 2 * ((n + 3199) / 3200)].sent == streams[i].sent + n,
        actions[i + 2 * ((n + 3199) / 3200) - 1] is ReadToken,
        stages[i + 2 * ((n + 3199) / 3200)] is Looking,
    decreases n,
{
    assert(sent_chunk(streams[i].session@, events, i + 2 * 0));
    lemma_stream_step(streams, stages, events, actions, i);
    lemma_stream_step(streams, stages, events, actions, i + 1);
    if n > 3200 {
        assert((n + 3199) / 3200 == (n - 3200 + 3199) / 3200 + 1);
        assert(stages[i + 2]->Chunking_rest@.len() == n - 3200);
        assert forall|k: int| 0 <= k < (n - 3200 + 3199) / 3200 implies #[trigger] sent_chunk(
            streams[i + 2].session@,
            events,
            i + 2 + 2 * k,
        ) by {
            assert(sent_chunk(streams[i].session@, events, i + 2 * (k + 1)));
        }
        lemma_burst(streams, stages, events, actions, i + 2, n - 3200);
    } else {
        assert((n + 3199) / 3200 == 1);
    }
}

/// A stream that is asked to finish announces the end of the audio as soon as none is
/// left; one that is not keeps the connection alive after three idle seconds; and
/// either way it then goes on waiting.
pub proof fn a_stream_without_audio_closes_or_keeps_alive(
    streams: Seq<Stream>,
    stages: Seq<RunStage>,
    events: Seq<Event>,
    actions: Seq<Action>,
    i: int,
    j: int,
)
    requires
        stream_run(streams, stages, events, actions),
        1 <= i,
        i < j < events.len(),
        actions[i - 1] is Await,
        events[i] is Tick,
        streams[i].closing_ms is None,
        events[i + 1] matches Event::Stream(status) && status.session@ == streams[i].session@
            && if status.phase == Phase::Recording {
            j == i + 3 && (events[i + 2] matches Event::Running { running, .. } && running)
        } else {
            j == i + 2
        },
        events[j] == Event::Heard(None),
    ensures
        actions[j - 1] == (Action::Snapshot { from: streams[i].sent }),
        ({
            let now = events[i]->Tick_now_ms;
            if events[i + 1]->Stream_0.phase == Phase::Finishing {
                actions[j] == Action::Send(Payload::CloseStream)
            } else if now >= streams[i].last_send_ms + 3000 {
                actions[j] == Action::Send(Payload::KeepAlive)
            } else {
                actions[j] is ReadToken
            }
        }),
        j + 1 < events.len() && events[j + 1] is Sent && actions[j] is Send ==> {
            &&& actions[j + 1] is ReadToken
            &&& streams[j + 2].closing_ms is Some <==> actions[j] == Action::Send(
                Payload::CloseStream,
            )
        },
{
    lemma_stream_step(streams, stages, events, actions, i - 1);
    lemma_stream_step(streams, stages, events, actions, i);
    lemma_stream_step(streams, stages, events, actions, i + 1);
    lemma_stream_step(streams, stages, events, actions, i + 2);
    lemma_stream_step(streams, stages, events, actions, j);
    if j + 1 < events.len() {
        lemma_stream_step(streams, stages, events, actions, j + 1);
    }
}

/// A recorder that is gone ends the stream as a failure, but only where the recording
/// still was not stopped when looked at again under the lock; else the stream goes on.
pub proof fn a_lost_recorder_is_looked_at_again(
    streams: Seq<Stream>,
    stages: Seq<RunStage>,
    events: Seq<Event>,
    actions: Seq<Action>,
    i: int,
)
    requires
        stream_run(streams, stages, events, actions),
        1 <= i,
        i + 3 < events.len(),
        actions[i - 1] is LookRecorder,
        events[i] matches Event::Running { running, .. } && !running,
        events[i + 1] is Done,
        events[i + 2] is Stream,
    ensures
        actions[i] is Lock,
        actions[i + 1] is ReadStream,
        actions[i + 2] is Unlock,
        if events[i + 2]->Stream_0.phase == Phase::Recording {
            actions[i + 3] == Action::End(Err(Failure::RecorderLost))
        } else {
            actions[i + 3] is ReadToken
        },
{
    lemma_stream_step(streams, stages, events, actions, i - 1);
    lemma_stream_step(streams, stages, events, actions, i);
    lemma_stream_step(streams, stages, events, actions, i + 1);
    lemma_stream_step(streams, stages, events, actions, i + 2);
    lemma_stream_step(streams, stages, events, actions, i + 3);
}

/// Every message is taken for what it is: a result is read, a ping is answered with what
/// it carried, an error ends the stream, the confirmation of the end counts once the
/// end was announced, the end of the connection is well exactly after that, and
/// everything else changes nothing, with the stream waiting on.
pub proof fn every_message_is_taken_for_what_it_is(
    streams: Seq<Stream>,
    stages: Seq<RunStage>,
    events: Seq<Event>,
    actions: Seq<Action>,
    i: int,
)
    requires
        stream_run(streams, stages, events, actions),
        1 <= i < events.len(),
        actions[i - 1] is Await,
    ensures
        streams[i + 1].progress == streams[i].progress,
        streams[i + 1].sent == streams[i].sent,
        events[i] matches Event::Text(text) ==> match json_field(text@, "type"@) {
            Err(message) => actions[i] matches Action::End(Err(Failure::InvalidStreamJson {
                cause,
            })) && cause@ == message,
            Ok(Some(kind)) => if kind == "Results"@ {
                actions[i] == Action::Parse(text)
            } else if kind == "Error"@ {
                actions[i] == Action::End(Err(Failure::StreamApiError))
            } else {
                actions[i] is ReadToken
            },
            Ok(None) => actions[i] is ReadToken,
        },
        streams[i + 1].metadata <==> streams[i].metadata || (streams[i].closing_ms is Some && (
        events[i] matches Event::Text(text) && json_field(text@, "type"@) == Ok::<
            Option<Seq<char>>,
            Seq<char>,
        >(Some("Metadata"@)))),
        events[i] matches Event::Ping(payload) ==> actions[i] == Action::Send(
            Payload::Pong(payload),
        ),
        events[i] is Closed ==> actions[i] == if streams[i].closing_ms is Some
            && streams[i].metadata {
            Action::End(Ok(()))
        } else {
            Action::End(Err(Failure::ClosedEarly))
        },
        events[i] is Broke ==> actions[i] == Action::End(Err(Failure::Disconnected)),
        events[i] is Noise ==> actions[i] is ReadToken,
        events[i] is Tick ==> (match streams[i].closing_ms {
            None => actions[i] is ReadStream,
            Some(since) => if events[i]->Tick_now_ms >= since + 30000 {
                actions[i] == Action::End(Err(Failure::FinalTimeout))
            } else {
                actions[i] is ReadToken
            },
        }),
{
    lemma_stream_step(streams, stages, events, actions, i - 1);
    lemma_stream_step(streams, stages, events, actions, i);
    reveal_strlit("Results");
    reveal_strlit("Metadata");
    reveal_strlit("Error");
    assert("Results"@.len() == 7 && "Metadata"@.len() == 8 && "Error"@.len() == 5);
}

/// A final result is delivered under the lock with the session in order: right after it
/// was read the lock is asked for, then the token, and then what is copied is its first
/// alternative, behind what was typed so far. A result that says nothing new leaves the
/// lock, an interim one is passed over, and the stream goes on either way.
pub proof fn a_final_result_is_typed_under_the_lock(
    streams: Seq<Stream>,
    stages: Seq<RunStage>,
    events: Seq<Event>,
    actions: Seq<Action>,
    i: int,
)
    requires
        stream_run(streams, stages, events, actions),
        1 <= i,
        i + 3 < events.len(),
        actions[i - 1] is Parse,
        events[i] matches Event::Parsed(Ok(_)),
        events[i + 1] is Done,
        events[i + 2] matches Event::Token(token) && maybe(token) == Some(streams[i].session@),
    ensures
        ({
            let result = events[i]->Parsed_0->Ok_0;
            let progress = streams[i].progress;
            let told = result.channel.alternatives@;
            if !result.is_final {
                actions[i] is ReadToken
            } else {
                &&& actions[i] is Lock
                &&& actions[i + 1] is ReadToken
                &&& match result.end {
                    None => actions[i + 2] is Unlock && actions[i + 3] == Action::End(
                        Err(Failure::InvalidTiming),
                    ),
                    Some(end) => if end <= progress.consumed_bytes {
                        actions[i + 2] is Unlock && actions[i + 3] is ReadToken
                    } else if end > streams[i].sent + 3200 {
                        actions[i + 2] is Unlock && actions[i + 3] == Action::End(
                            Err(Failure::BeyondSubmitted),
                        )
                    } else if told.len() == 0 {
                        actions[i + 2] is Unlock && actions[i + 3] == Action::End(
                            Err(Failure::NoStreamAlternative),
                        )
                    } else {
                        let said = sanitized(told[0].transcript@);
                        if said.len() == 0 {
                            actions[i + 2] matches Action::Publish(told) && told
                                == streams[i + 3].progress && told.text == progress.text
                        } else {
                            actions[i + 2] matches Action::Copy(text) && text@
                                == if progress.text@.len() == 0 {
                                said
                            } else {
                                seq![' '] + said
                            }
                        }
                    },
                }
            }
        }),
{
    lemma_stream_step(streams, stages, events, actions, i - 1);
    lemma_stream_step(streams, stages, events, actions, i);
    lemma_stream_step(streams, stages, events, actions, i + 1);
    lemma_stream_step(streams, stages, events, actions, i + 2);
    lemma_stream_step(streams, stages, events, actions, i + 3);
}

/// A copy of a stream that goes well is typed: the paste is announced and asked for, the
/// text counts as typed once the keystroke was sent, that is published, the lock is
/// released and the stream goes on.
pub proof fn a_streamed_copy_is_typed(
    streams: Seq<Stream>,
    stages: Seq<RunStage>,
    events: Seq<Event>,
    actions: Seq<Action>,
    i: int,
)
    requires
        stream_run(streams, stages, events, actions),
        1 <= i,
        i + 4 < events.len(),
        actions[i - 1] is Copy,
        events[i] is Done,
        events[i + 1] is Done,
        events[i + 2] == Event::Pasted(true),
        events[i + 3] is Done,
    ensures
        actions[i] matches Action::Publish(told) && told.delivery_pending && told.text
            == streams[i].progress.text,
        actions[i + 1] is Paste,
        actions[i + 2] matches Action::Publish(told) && told == streams[i + 3].progress
            && !told.delivery_pending,
        streams[i + 3].progress.text@ == streams[i].progress.text@ + actions[i - 1]->Copy_0@,
        streams[i + 3].progress.language == streams[i].progress.language,
        actions[i + 3] is Unlock,
        actions[i + 4] is ReadToken,
        streams[i + 5].progress == streams[i + 3].progress,
{
    lemma_stream_step(streams, stages, events, actions, i - 1);
    lemma_stream_step(streams, stages, events, actions, i);
    lemma_stream_step(streams, stages, events, actions, i + 1);
    lemma_stream_step(streams, stages, events, actions, i + 2);
    lemma_stream_step(streams, stages, events, actions, i + 3);
    lemma_stream_step(streams, stages, events, actions, i + 4);
}

/// A failure ends a stream with that failure: at once, or right after the lock that it
/// holds was released; a token of another session ends it well.
pub proof fn a_stream_passes_its_failure_on(
    streams: Seq<Stream>,
    stages: Seq<RunStage>,
    events: Seq<Event>,
    actions: Seq<Action>,
    i: int,
)
    requires
        stream_run(streams, stages, events, actions),
        1 <= i,
        i + 1 < events.len(),
        !(actions[i - 1] is Unlock),
        !(actions[i - 1] is End),
    ensures
        events[i] matches Event::Failed(failure) ==> {
            ||| actions[i] == Action::End(Err(failure))
            ||| actions[i] is Unlock && actions[i + 1] == Action::End(Err(failure))
        },
        actions[i - 1] is ReadToken && (events[i] matches Event::Token(token) && maybe(token)
            != Some(streams[i].session@)) ==> {
            ||| actions[i] == Action::End(Ok(()))
            ||| actions[i] is Unlock && actions[i + 1] == Action::End(Ok(()))
        },
        actions[i - 1] is Paste && events[i] == Event::Pasted(false) ==> actions[i] is Unlock
            && actions[i + 1] == Action::End(Err(Failure::NoLiveBackend)),
{
    lemma_stream_step(streams, stages, events, actions, i - 1);
    lemma_stream_step(streams, stages, events, actions, i);
    lemma_stream_step(streams, stages, events, actions, i + 1);
}

/// A stream goes on for as long as its session may deliver: it awaits the next tick or
/// message, also after it has answered a ping.
pub proof fn a_stream_with_its_session_goes_on(
    streams: Seq<Stream>,
    stages: Seq<RunStage>,
    events: Seq<Event>,
    actions: Seq<Action>,
    i: int,
)
    requires
        stream_run(streams, stages, events, actions),
        1 <= i < events.len(),
    ensures
        stages[i] is Looking && (events[i] matches Event::Token(token) && maybe(token) == Some(
            streams[i].session@,
        )) ==> actions[i] is Await && streams[i + 1] == streams[i],
        actions[i - 1] matches Action::Send(Payload::Pong(_)) && events[i] is Sent ==> actions[i]
            is ReadToken && stages[i + 1] is Looking,
        actions[i - 1] is Unlock && actions[i] is ReadToken ==> stages[i + 1] is Looking,
{
    lemma_stream_step(streams, stages, events, actions, i - 1);
    lemma_stream_step(streams, stages, events, actions, i);
}

proof fn lemma_drain_step(
    session: Seq<char>,
    stages: Seq<DrainStage>,
    events: Seq<Event>,
    actions: Seq<Action>,
    i: int,
)
    requires
        drain_run(session, stages, events, actions),
        0 <= i < events.len(),
    ensures
        drain_step(session, stages[i], events[i], stages[i + 1], actions[i]),
{
}

/// Waiting for a stream begins with the lock. With the lock, the session in order and
/// the stream found to be done, the whole transcription is loaded; what it says, if
/// anything, is put on the clipboard and shown, the recording is removed, and so are the
/// session and the stream's state; then the lock is released and waiting ends well. A
/// stream that typed nothing leaves the recording.
pub proof fn a_drained_stream_is_the_dictation(
    session: Seq<char>,
    stages: Seq<DrainStage>,
    events: Seq<Event>,
    actions: Seq<Action>,
    i: int,
)
    requires
        drain_run(session, stages, events, actions),
        0 <= i,
        i + 10 < events.len(),
        actions[i] is Lock,
        events[i + 1] is Done,
        events[i + 2] matches Event::Token(token) && maybe(token) == Some(session),
        events[i + 3] matches Event::Stream(status) && status.session@ == session && status.phase
            == Phase::Done,
        events[i + 4] matches Event::Progress(Some(_)),
        forall|k: int| i + 5 <= k < events.len() ==> #[trigger] events[k] is Done,
    ensures
        events[0] is Begin ==> actions[0] is Lock,
        actions[i + 1] is ReadToken,
        actions[i + 2] is ReadStream,
        actions[i + 3] is LoadPreview,
        ({
            let progress = events[i + 4]->Progress_0->0;
            let shown = Action::Notify(
                Note::Spilled { language: progress.language, text: progress.text },
            );
            if progress.text@.len() > 0 {
                &&& actions[i + 4] == Action::Copy(progress.text)
                &&& actions[i + 5] == shown
                &&& actions[i + 6] == Action::Remove(Mark::RecordingWav)
                &&& actions[i + 7] is Invalidate
                &&& actions[i + 8] == Action::Remove(Mark::StreamState)
                &&& actions[i + 9] is Unlock
                &&& actions[i + 10] == Action::End(Ok(()))
            } else {
                &&& actions[i + 4] == shown
                &&& actions[i + 5] is Invalidate
                &&& actions[i + 6] == Action::Remove(Mark::StreamState)
                &&& actions[i + 7] is Unlock
                &&& actions[i + 8] == Action::End(Ok(()))
            }
        }),
{
    lemma_drain_step(session, stages, events, actions, 0);
    lemma_drain_step(session, stages, events, actions, i);
    lemma_drain_step(session, stages, events, actions, i + 1);
    lemma_drain_step(session, stages, events, actions, i + 2);
    lemma_drain_step(session, stages, events, actions, i + 3);
    lemma_drain_step(session, stages, events, actions, i + 4);
    lemma_drain_step(session, stages, events, actions, i + 5);
    lemma_drain_step(session, stages, events, actions, i + 6);
    lemma_drain_step(session, stages, events, actions, i + 7);
    lemma_drain_step(session, stages, events, actions, i + 8);
    lemma_drain_step(session, stages, events, actions, i + 9);
    lemma_drain_step(session, stages, events, actions, i + 10);
}

/// A stream that is not done is looked at again, without the lock in between, for as
/// long as its worker runs and half a minute is not over.
pub proof fn a_running_stream_is_waited_for(
    session: Seq<char>,
    stages: Seq<DrainStage>,
    events: Seq<Event>,
    actions: Seq<Action>,
    i: int,
)
    requires
        drain_run(session, stages, events, actions),
        0 <= i,
        i + 6 < events.len(),
        actions[i] is Lock,
        events[i + 1] is Done,
        events[i + 2] matches Event::Token(token) && maybe(token) == Some(session),
        events[i + 3] matches Event::Stream(status) && status.session@ == session && (status.phase
            == Phase::Recording || status.phase == Phase::Finishing),
        events[i + 4] matches Event::Running { running, waited_ms } && running && waited_ms
            < 30000,
    ensures
        actions[i + 3] == (Action::LookWorker { pid: events[i + 3]->Stream_0.worker_pid }),
        actions[i + 4] is Unlock,
        actions[i + 5] == (Action::Sleep { ms: 50 }),
        actions[i + 6] is Lock,
{
    lemma_drain_step(session, stages, events, actions, i);
    lemma_drain_step(session, stages, events, actions, i + 1);
    lemma_drain_step(session, stages, events, actions, i + 2);
    lemma_drain_step(session, stages, events, actions, i + 3);
    lemma_drain_step(session, stages, events, actions, i + 4);
    lemma_drain_step(session, stages, events, actions, i + 5);
    lemma_drain_step(session, stages, events, actions, i + 6);
}

/// A stream that reports an error, whose worker is gone, or that takes half a minute, is
/// given up: its session can deliver no more, the error is saved with the stream's state
/// and published with what was typed so far, the lock is released, and waiting ends
/// with the error.
pub proof fn a_lost_stream_is_given_up(
    session: Seq<char>,
    stages: Seq<DrainStage>,
    events: Seq<Event>,
    actions: Seq<Action>,
    i: int,
    j: int,
)
    requires
        drain_run(session, stages, events, actions),
        0 <= i,
        i + 3 <= j,
        j + 5 < events.len(),
        actions[i] is Lock,
        events[i + 1] is Done,
        events[i + 2] matches Event::Token(token) && maybe(token) == Some(session),
        events[i + 3] matches Event::Stream(status) && status.session@ == session && (
        match status.phase {
            Phase::Done => false,
            Phase::Error => j == i + 3 && (status.error matches Some(error) ==> error@.len() > 0),
            _ => j == i + 4 && (events[i + 4] matches Event::Running { running, waited_ms } && (
            !running || waited_ms >= 30000)),
        }),
        events[j + 1] is Done,
        events[j + 2] is Done,
        events[j + 3] matches Event::Progress(Some(_)),
        events[j + 4] is Done,
    ensures
        ({
            let status = events[i + 3]->Stream_0;
            let typed = events[j + 3]->Progress_0->0;
            let error = if j == i + 3 {
                match status.error {
                    Some(error) => error@,
                    None => "Deepgram worker failed"@,
                }
            } else if !events[i + 4]->Running_running {
                "Deepgram worker exited before completing the stream"@
            } else {
                "Deepgram stream did not finish within 30s"@
            };
            &&& actions[j] == Action::Remove(Mark::LiveSession)
            &&& actions[j + 1] matches Action::SaveStream(saved) && saved.session
                == status.session && saved.worker_pid == status.worker_pid && saved.phase
                == Phase::Error && maybe(saved.error) == Some(error)
            &&& actions[j + 2] is LoadPreview
            &&& actions[j + 3] matches Action::Publish(told) && maybe(told.error) == Some(error)
                && told == (Preview { error: told.error, ..typed })
            &&& actions[j + 4] is Unlock
            &&& actions[j + 5] matches Action::End(Err(failure)) && failure.told() == error
                + "; recording.wav and preview.json kept for recovery"@
        }),
{
    lemma_drain_step(session, stages, events, actions, i);
    lemma_drain_step(session, stages, events, actions, i + 1);
    lemma_drain_step(session, stages, events, actions, i + 2);
    lemma_drain_step(session, stages, events, actions, i + 3);
    reveal_strlit("Deepgram worker failed");
    lemma_drain_step(session, stages, events, actions, j);
    lemma_drain_step(session, stages, events, actions, j + 1);
    lemma_drain_step(session, stages, events, actions, j + 2);
    lemma_drain_step(session, stages, events, actions, j + 3);
    lemma_drain_step(session, stages, events, actions, j + 4);
    lemma_drain_step(session, stages, events, actions, j + 5);
}

/// Waiting for a stream whose session is over ends well, with nothing touched; and a
/// failure on the way ends it with that failure, the lock released first where it is
/// held.
pub proof fn waiting_for_a_stream_passes_failures_on(
    session: Seq<char>,
    stages: Seq<DrainStage>,
    events: Seq<Event>,
    actions: Seq<Action>,
    i: int,
)
    requires
        drain_run(session, stages, events, actions),
        1 <= i,
        i + 1 < events.len(),
    ensures
        actions[i - 1] is ReadToken && (events[i] matches Event::Token(token) && maybe(token)
            != Some(session)) ==> actions[i] is Unlock && actions[i + 1] == Action::End(Ok(())),
        actions[i - 1] is ReadStream && (events[i] matches Event::Stream(status) && status.session@
            != session) ==> actions[i] is Unlock && actions[i + 1] == Action::End(Ok(())),
        events[i] matches Event::Failed(failure) && !(actions[i - 1] is Unlock)
            && !(actions[i - 1] is Sleep) && !(actions[i - 1] is Notify) && !(actions[i - 1]
            is End) ==> {
            ||| actions[i - 1] is Lock && actions[i] == Action::End(Err(events[i]->Failed_0))
            ||| actions[i] is Unlock && actions[i + 1] == Action::End(Err(events[i]->Failed_0))
        },
{
    lemma_drain_step(session, stages, events, actions, i - 1);
    lemma_drain_step(session, stages, events, actions, i);
    lemma_drain_step(session, stages, events, actions, i + 1);
}

/// Asking a stream to finish asks exactly the stream of the session that may deliver:
/// one that records is asked to, and one that has come further stays where it is, with
/// nothing else about it changed. Without such a stream the audio is kept and the reason
/// told.
pub proof fn asking_to_finish_changes_only_the_phase(
    status: Result<StreamState, Failure>,
    token: Option<String>,
    r: Result<StreamState, Failure>,
)
    requires
        asks_to_finish(status, token, r),
    ensures
        match status {
            Ok(found) => if maybe(token) == Some(found.session@) {
                r matches Ok(asked) && asked.session == found.session && asked.worker_pid
                    == found.worker_pid && asked.error == found.error && asked.phase == (
                if found.phase == Phase::Recording {
                    Phase::Finishing
                } else {
                    found.phase
                })
            } else {
                r matches Err(failure) && failure.told()
                    == "stream session is no longer active; audio kept"@
            },
            Err(cause) => r matches Err(failure) && failure.told()
                == "Deepgram worker is unavailable; audio kept: "@ + cause.told(),
        },
{
}

proof fn lemma_serve_step(
    session: Seq<char>,
    pid: i32,
    stages: Seq<ServeStage>,
    events: Seq<Event>,
    actions: Seq<Action>,
    i: int,
)
    requires
        serve_run(session, pid, stages, events, actions),
        0 <= i < events.len(),
    ensures
        serve_step(session, pid, stages[i], events[i], stages[i + 1], actions[i]),
{
}

/// The worker of a stream takes the lock, sees that the session may deliver and that the
/// stream is its own, reads the settings of the recording, opens it, releases the lock
/// and streams with those settings.
pub proof fn a_stream_worker_streams(
    session: Seq<char>,
    pid: i32,
    stages: Seq<ServeStage>,
    events: Seq<Event>,
    actions: Seq<Action>,
)
    requires
        serve_run(session, pid, stages, events, actions),
        events.len() >= 7,
        events[0] is Begin,
        events[1] is Done,
        events[2] matches Event::Token(token) && maybe(token) == Some(session),
        events[3] matches Event::Stream(status) && status.session@ == session && status.worker_pid
            == pid,
        events[4] is Session,
        events[5] is Done,
    ensures
        actions[0] is Lock,
        actions[1] is ReadToken,
        actions[2] is ReadStream,
        actions[3] is ReadSession,
        actions[4] is OpenRecording,
        actions[5] is Unlock,
        actions[6] == Action::Run(events[4]->Session_0),
{
    lemma_serve_step(session, pid, stages, events, actions, 0);
    lemma_serve_step(session, pid, stages, events, actions, 1);
    lemma_serve_step(session, pid, stages, events, actions, 2);
    lemma_serve_step(session, pid, stages, events, actions, 3);
    lemma_serve_step(session, pid, stages, events, actions, 4);
    lemma_serve_step(session, pid, stages, events, actions, 5);
    lemma_serve_step(session, pid, stages, events, actions, 6);
}

/// What came of streaming is saved under the lock, where the session still is in order:
/// a stream that ended well is done; the failure of any other is published with what was
/// typed, shown to the user and saved with the stream's state. Nothing else about the
/// state changes.
pub proof fn what_came_of_streaming_is_saved(
    session: Seq<char>,
    pid: i32,
    stages: Seq<ServeStage>,
    events: Seq<Event>,
    actions: Seq<Action>,
    i: int,
)
    requires
        serve_run(session, pid, stages, events, actions),
        1 <= i,
        i + 7 < events.len(),
        actions[i - 1] is Run,
        events[i] is Ran,
        events[i + 1] is Done,
        events[i + 2] matches Event::Token(token) && maybe(token) == Some(session),
        events[i + 3] is Stream,
        events[i + 4] is Done,
        events[i + 5] is Done,
        events[i + 6] is Done,
    ensures
        actions[i] is Lock,
        actions[i + 1] is ReadToken,
        actions[i + 2] is ReadStream,
        ({
            let status = events[i + 3]->Stream_0;
            let typed = events[i]->Ran_progress;
            match events[i]->Ran_result {
                Ok(_) => {
                    &&& actions[i + 3] matches Action::SaveStream(saved) && saved.session
                        == status.session && saved.worker_pid == status.worker_pid && saved.error
                        == status.error && saved.phase == Phase::Done
                    &&& actions[i + 4] is Unlock
                    &&& actions[i + 5] == Action::End(Ok(()))
                },
                Err(failure) => {
                    &&& actions[i + 3] matches Action::Publish(told) && maybe(told.error) == Some(
                        failure.told(),
                    ) && told == (Preview { error: told.error, ..typed })
                    &&& actions[i + 4] == Action::Notify(Note::StreamStopped)
                    &&& actions[i + 5] matches Action::SaveStream(saved) && saved.session
                        == status.session && saved.worker_pid == status.worker_pid && saved.phase
                        == Phase::Error && maybe(saved.error) == Some(failure.told())
                    &&& actions[i + 6] is Unlock
                    &&& actions[i + 7] == Action::End(Ok(()))
                },
            }
        }),
{
    lemma_serve_step(session, pid, stages, events, actions, i - 1);
    lemma_serve_step(session, pid, stages, events, actions, i);
    lemma_serve_step(session, pid, stages, events, actions, i + 1);
    lemma_serve_step(session, pid, stages, events, actions, i + 2);
    lemma_serve_step(session, pid, stages, events, actions, i + 3);
    lemma_serve_step(session, pid, stages, events, actions, i + 4);
    lemma_serve_step(session, pid, stages, events, actions, i + 5);
    lemma_serve_step(session, pid, stages, events, actions, i + 6);
    lemma_serve_step(session, pid, stages, events, actions, i + 7);
}

/// The worker of a session that is over ends well; one that is not the stream's own is
/// refused; and a failure on the way ends it with that failure. In each case the lock is
/// released first where it is held.
pub proof fn a_stream_worker_passes_failures_on(
    session: Seq<char>,
    pid: i32,
    stages: Seq<ServeStage>,
    events: Seq<Event>,
    actions: Seq<Action>,
    i: int,
)
    requires
        serve_run(session, pid, stages, events, actions),
        1 <= i,
        i + 1 < events.len(),
    ensures
        actions[i - 1] is ReadToken && (events[i] matches Event::Token(token) && maybe(token)
            != Some(session)) ==> actions[i] is Unlock && actions[i + 1] == Action::End(Ok(())),
        i >= 3 && actions[i - 1] is ReadStream && !(events[i - 3] is Ran) && (events[i] matches
            Event::Stream(status) && (status.session@ != session || status.worker_pid != pid))
            ==> actions[i] is Unlock && actions[i + 1] == Action::End(
            Err(Failure::InvalidIdentity),
        ),
        events[i] matches Event::Failed(failure) && !(actions[i - 1] is Unlock)
            && !(actions[i - 1] is Notify) && !(actions[i - 1] is End) ==> {
            ||| (actions[i - 1] is Lock || actions[i - 1] is Run) && actions[i] == Action::End(
                Err(events[i]->Failed_0),
            )
            ||| actions[i] is Unlock && actions[i + 1] == Action::End(Err(events[i]->Failed_0))
        },
{
    lemma_serve_step(session, pid, stages, events, actions, i - 1);
    lemma_serve_step(session, pid, stages, events, actions, i);
    lemma_serve_step(session, pid, stages, events, actions, i + 1);
    if i >= 3 {
        lemma_serve_step(session, pid, stages, events, actions, i - 2);
        lemma_serve_step(session, pid, stages, events, actions, i - 3);
    }
}

/// A run of starting a stream: `events[i]`, told at `stages[i]`, is answered by
/// `actions[i]`.
pub open spec fn launch_run(
    recorder: i32,
    language: Seq<char>,
    stages: Seq<LaunchStage>,
    events: Seq<Event>,
    actions: Seq<Action>,
) -> bool {
    &&& stages.len() == events.len() + 1
    &&& actions.len() == events.len()
    &&& stages[0] is Ready
    &&& forall|i: int|
        0 <= i < events.len() ==> launch_step(
            recorder,
            language,
            stages[i],
            #[trigger] events[i],
            stages[i + 1],
            actions[i],
        )
}

/// Starting a stream writes the token of a session that is minted from the own PID and
/// the time, publishes an empty transcription in the language of the stream, starts a
/// worker for this session and this recorder, and saves who it is. A worker that cannot
/// be started is told of.
pub proof fn starting_a_stream_starts_its_worker(
    recorder: i32,
    language: Seq<char>,
    stages: Seq<LaunchStage>,
    events: Seq<Event>,
    actions: Seq<Action>,
)
    requires
        launch_run(recorder, language, stages, events, actions),
        events.len() >= 7,
        events[0] is Begin,
        events[1] is Clock,
        events[2] is Done,
        events[3] is Done,
        events[4] is Done,
        events[5] is Started || events[5] is NotSpawned,
        events[6] is Done,
    ensures
        actions[0] is AskClock,
        ({
            let session = minted(
                events[1]->Clock_process as nat,
                events[1]->Clock_nanos as nat,
            );
            &&& actions[1] matches Action::WriteToken(token) && token@ == session
            &&& actions[2] matches Action::Publish(blank) && blank.text@.len() == 0
                && blank.consumed_bytes == 0 && blank.error is None && !blank.delivery_pending
                && maybe(blank.language) == Some(language)
            &&& actions[3] is OpenLog
            &&& actions[4] matches Action::Spawn { worker, session: named, recorder: r }
                && worker == Worker::Stream && named@ == session && r == recorder
            &&& match events[5] {
                Event::Started { pid } => {
                    &&& actions[5] matches Action::SaveStream(saved) && saved.session@ == session
                        && saved.worker_pid == pid && saved.phase == Phase::Recording
                        && saved.error is None
                    &&& actions[6] == Action::End(Ok(()))
                },
                Event::NotSpawned { cause } => actions[5] matches Action::End(Err(failure))
                    && failure.told() == "could not start Deepgram worker: "@ + cause@,
                _ => true,
            }
        }),
{
    assert(launch_step(recorder, language, stages[0], events[0], stages[1], actions[0]));
    assert(launch_step(recorder, language, stages[1], events[1], stages[2], actions[1]));
    assert(launch_step(recorder, language, stages[2], events[2], stages[3], actions[2]));
    assert(launch_step(recorder, language, stages[3], events[3], stages[4], actions[3]));
    assert(launch_step(recorder, language, stages[4], events[4], stages[5], actions[4]));
    assert(launch_step(recorder, language, stages[5], events[5], stages[6], actions[5]));
    assert(launch_step(recorder, language, stages[6], events[6], stages[7], actions[6]));
}

/// A failure on the way ends the start of a stream with that failure.
pub proof fn starting_a_stream_passes_failures_on(
    recorder: i32,
    language: Seq<char>,
    stages: Seq<LaunchStage>,
    events: Seq<Event>,
    actions: Seq<Action>,
    i: int,
)
    requires
        launch_run(recorder, language, stages, events, actions),
        0 <= i < events.len(),
    ensures
        events[i] matches Event::Failed(failure) ==> actions[i] == Action::End(Err(failure)),
{
    assert(launch_step(recorder, language, stages[i], events[i], stages[i + 1], actions[i]));
}

/// A result that cannot be read ends a stream with the cause, and a stream that is found
/// to be of another session at a tick ends it well.
pub proof fn a_stream_ends_on_what_is_not_its_own(
    streams: Seq<Stream>,
    stages: Seq<RunStage>,
    events: Seq<Event>,
    actions: Seq<Action>,
    i: int,
)
    requires
        stream_run(streams, stages, events, actions),
        1 <= i < events.len(),
    ensures
        actions[i - 1] is Parse && (events[i] matches Event::Parsed(Err(_))) ==> (actions[i]
            matches Action::End(Err(failure)) && failure.told()
            == "invalid Deepgram streaming result: "@ + events[i]->Parsed_0->Err_0@),
        i >= 2 && actions[i - 1] is ReadStream && events[i - 1] is Tick && (events[i] matches
            Event::Stream(status) && status.session@ != streams[i].session@) ==> actions[i]
            == Action::End(Ok(())),
{
    lemma_stream_step(streams, stages, events, actions, i - 1);
    lemma_stream_step(streams, stages, events, actions, i);
}

proof fn lemma_stream_identity(
    streams: Seq<Stream>,
    stages: Seq<RunStage>,
    events: Seq<Event>,
    actions: Seq<Action>,
    m: int,
)
    requires
        stream_run(streams, stages, events, actions),
        0 <= m <= events.len(),
    ensures
        streams[m].session == streams[0].session,
        streams[m].recorder == streams[0].recorder,
        streams[m].progress.language == streams[0].progress.language,
        streams[m].progress.provisional == streams[0].progress.provisional,
        streams[m].progress.error is None,
        stages[m] matches RunStage::Delivering(delivery) && delivery.stage
            != DeliveryStage::Committing ==> stages[m]->Delivering_0.language
            == streams[0].progress.language,
    decreases m,
{
    if m > 0 {
        lemma_stream_identity(streams, stages, events, actions, m - 1);
        lemma_stream_step(streams, stages, events, actions, m - 1);
    }
}

/// A stream serves the session and the recorder that it was made for to its end, and what
/// it types stays in the language that it was made for.
pub proof fn a_stream_serves_what_it_was_made_for(
    session: String,
    recorder: i32,
    language: Seq<char>,
    streams: Seq<Stream>,
    stages: Seq<RunStage>,
    events: Seq<Event>,
    actions: Seq<Action>,
    m: int,
)
    requires
        streams.len() > 0,
        streams[0].is_new(session, recorder, language),
        stream_run(streams, stages, events, actions),
        0 <= m <= events.len(),
    ensures
        streams[m].session == session,
        streams[m].recorder == recorder,
        maybe(streams[m].progress.language) == Some(language),
        !streams[m].progress.provisional,
        streams[m].progress.error is None,
        m < events.len() ==> (actions[m] matches Action::Publish(told) ==> maybe(told.language)
            == Some(language)),
{
    lemma_stream_identity(streams, stages, events, actions, m);
    if m < events.len() {
        lemma_stream_identity(streams, stages, events, actions, m + 1);
        lemma_stream_step(streams, stages, events, actions, m);
    }
}

/// A stream that is made can run: nothing was typed, consumed, sent or announced yet.
pub proof fn a_new_stream_has_done_nothing(
    stream: Stream,
    session: String,
    recorder: i32,
    language: Seq<char>,
)
    requires
        stream.is_new(session, recorder, language),
    ensures
        stream.progress.text@.len() == 0,
        stream.progress.consumed_bytes == 0,
        !stream.progress.delivery_pending,
        stream.sent == 0,
        stream.last_send_ms == 0,
        stream.closing_ms is None,
        !stream.metadata,
{
}

}
