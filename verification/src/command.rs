//! Command dispatch, and the record, transcribe, paste flow.

use crate::config::{Backend, Config, SessionConfig};
use crate::failure::Failure;
use crate::host::{Action, Event, Note};
use crate::live::Preview;
use crate::paths::{Mark, Paths};
use crate::state::State;
use crate::text::{one_line, sanitize, sanitized, sanitized_is_one_trim_line};
use crate::transcription::{self, Service, READ_TIMEOUT_MS};
use vstd::prelude::*;
use vstd::string::*;

verus! {

/// A WAV shorter than this holds no speech worth sending: 16 kHz times one channel
/// times two bytes is 32 kB per second, plus a 44-byte header.
pub const MIN_AUDIO_BYTES: u64 = 8044;

/// What the user asks for.
#[derive(Debug)]
pub enum Command {
    /// Print the saved backend, or select one without changing other settings.
    Configure { backend: Option<Backend> },
    /// Start recording, or stop and spill the transcription.
    Toggle,
    Start,
    /// Stop recording, transcribe, copy and paste.
    Stop,
    /// Stop recording and throw the audio away.
    Cancel,
    /// Print `idle`, `recording` or `transcribing`.
    Status,
    /// Print the latest provisional transcription.
    Preview { json: bool },
    LiveWorker { session: String, recorder: i32 },
    StreamWorker { session: String, recorder: i32 },
}

/// What a command comes down to.
#[derive(Debug)]
pub enum Job {
    Configure { backend: Option<Backend> },
    Start,
    Stop,
    Cancel,
    Status,
    Preview { json: bool },
    LiveWorker { session: String, recorder: i32 },
    StreamWorker { session: String, recorder: i32 },
}

impl Command {
    /// The command changes what is recorded, so it runs under the lock. Reading
    /// must never block on a running transcription, and workers take the lock
    /// for short deliveries only.
    pub open spec fn takes_lock(self) -> bool {
        self is Toggle || self is Start || self is Stop || self is Cancel
    }

    pub fn locks(&self) -> (r: bool)
        ensures
            r == self.takes_lock(),
    {
        match self {
            Command::Toggle => true,
            Command::Start => true,
            Command::Stop => true,
            Command::Cancel => true,
            _ => false,
        }
    }

    /// The command needs the runtime directory.
    pub fn needs_paths(&self) -> (r: bool)
        ensures
            r == !(self is Configure),
    {
        match self {
            Command::Configure { .. } => false,
            _ => true,
        }
    }
}

/// What `command` comes down to; `recording` is whether a recording runs, which
/// only matters for a toggle.
pub open spec fn job_of(command: Command, recording: bool) -> Job {
    match command {
        Command::Configure { backend } => Job::Configure { backend },
        Command::Toggle => if recording {
            Job::Stop
        } else {
            Job::Start
        },
        Command::Start => Job::Start,
        Command::Stop => Job::Stop,
        Command::Cancel => Job::Cancel,
        Command::Status => Job::Status,
        Command::Preview { json } => Job::Preview { json },
        Command::LiveWorker { session, recorder } => Job::LiveWorker { session, recorder },
        Command::StreamWorker { session, recorder } => Job::StreamWorker { session, recorder },
    }
}

/// What `command` comes down to in `state`, which is only looked at for a
/// toggle.
pub fn run(command: Command, state: State) -> (job: Job)
    ensures
        job == job_of(command, state is Recording),
{
    match command {
        Command::Configure { backend } => Job::Configure { backend },
        Command::Toggle => match state {
            State::Recording { .. } => Job::Stop,
            _ => Job::Start,
        },
        Command::Start => Job::Start,
        Command::Stop => Job::Stop,
        Command::Cancel => Job::Cancel,
        Command::Status => Job::Status,
        Command::Preview { json } => Job::Preview { json },
        Command::LiveWorker { session, recorder } => Job::LiveWorker { session, recorder },
        Command::StreamWorker { session, recorder } => Job::StreamWorker { session, recorder },
    }
}

/// What printing the provisional transcription as text prints: nothing without one; its
/// error is the command's.
pub open spec fn prints(
    preview: Option<Preview>,
    printed: Result<Option<String>, Failure>,
) -> bool {
    printed == match preview {
        None => Ok::<Option<String>, Failure>(None),
        Some(preview) => match preview.error {
            Some(error) => Err(Failure::Reported(error)),
            None => Ok(Some(preview.text)),
        },
    }
}

/// What printing the provisional transcription as text prints.
pub fn preview_text(preview: Option<Preview>) -> (printed: Result<Option<String>, Failure>)
    ensures
        prints(preview, printed),
{
    match preview {
        None => Ok(None),
        Some(preview) => match preview.error {
            Some(error) => Err(Failure::Reported(error)),
            None => Ok(Some(preview.text)),
        },
    }
}

/// What a recording is started for.
pub struct Plan {
    /// It is streamed to Deepgram while it runs.
    pub streams: bool,
    pub language: String,
}

/// What starting a recording waits for.
pub enum StartStage {
    Ready,
    Looking,
    /// A note to be shown, to end well.
    Noting,
    /// The settings. Credentials are validated before audio retained from an
    /// earlier failure is cleared.
    Settling,
    Saving(Plan),
    Invalidating(Plan),
    ClearingStream(Plan),
    /// A recording kept from an earlier failure to be dropped.
    ClearingWav(Plan),
    Launching(Plan),
    /// The recorder's PID to be written.
    Marking(Plan, i32),
    Telling(Plan, i32),
    /// The recorder to be seen running.
    Confirming(Plan, i32),
    Streaming(i32),
    /// Live typing to be started; without it, recording goes on.
    Following,
    /// The recorder to be stopped, after this failure.
    Abandoning(Failure),
    /// The PID of a recorder that is gone to be removed.
    Unmarking(Failure),
    /// The recorder to be stopped after its stream failed to start.
    Halting(Failure),
    Withdrawing(Failure),
    Detaching(Failure),
    Over,
}

/// What starting a recording does at `stage` when told `event`.
pub open spec fn start_step(stage: StartStage, event: Event) -> (StartStage, Action) {
    match (stage, event) {
        (StartStage::Ready, Event::Begin) => (StartStage::Looking, Action::ReadState),
        (StartStage::Looking, Event::State(State::Recording { .. })) => (
            StartStage::Noting,
            Action::Notify(Note::AlreadyRecording),
        ),
        (StartStage::Looking, Event::State(State::Transcribing)) => (
            StartStage::Noting,
            Action::Notify(Note::StillTranscribing),
        ),
        (StartStage::Looking, Event::State(State::Idle)) => (StartStage::Settling, Action::Settle),
        (StartStage::Noting, _) => (StartStage::Over, Action::End(Ok(()))),
        (StartStage::Settling, Event::Session(settings)) => (
            StartStage::Saving(
                Plan { streams: settings.streams(), language: settings.config.deepgram_language },
            ),
            Action::SaveSession(settings),
        ),
        (StartStage::Saving(plan), Event::Done) => (
            StartStage::Invalidating(plan),
            Action::Invalidate,
        ),
        (StartStage::Invalidating(plan), Event::Done) => (
            StartStage::ClearingStream(plan),
            Action::Remove(Mark::StreamState),
        ),
        (StartStage::ClearingStream(plan), Event::Done) => (
            StartStage::ClearingWav(plan),
            Action::Remove(Mark::RecordingWav),
        ),
        (StartStage::ClearingWav(plan), Event::Done) => (
            StartStage::Launching(plan),
            Action::StartRecorder,
        ),
        (StartStage::Launching(plan), Event::Started { pid }) => (
            StartStage::Marking(plan, pid),
            Action::WritePid { mark: Mark::RecordingPid, pid },
        ),
        (StartStage::Marking(plan, pid), Event::Done) => (
            StartStage::Telling(plan, pid),
            Action::Notify(Note::Recording),
        ),
        (StartStage::Marking(_, pid), Event::Failed(failure)) => (
            StartStage::Abandoning(failure),
            Action::StopRecorder { pid },
        ),
        (StartStage::Telling(plan, pid), _) => (
            StartStage::Confirming(plan, pid),
            Action::ConfirmRecorder { pid },
        ),
        (StartStage::Confirming(plan, pid), Event::Done) => if plan.streams {
            (
                StartStage::Streaming(pid),
                Action::StartStream { recorder: pid, language: plan.language },
            )
        } else {
            (StartStage::Following, Action::StartLive { recorder: pid })
        },
        (StartStage::Confirming(_, _), Event::Failed(failure)) => (
            StartStage::Unmarking(failure),
            Action::Remove(Mark::RecordingPid),
        ),
        (StartStage::Streaming(_), Event::Done) => (StartStage::Over, Action::End(Ok(()))),
        (StartStage::Streaming(pid), Event::Failed(failure)) => (
            StartStage::Halting(failure),
            Action::StopRecorder { pid },
        ),
        (StartStage::Marking(_, pid), _) => (
            StartStage::Abandoning(Failure::OutOfTurn),
            Action::StopRecorder { pid },
        ),
        (StartStage::Confirming(_, pid), _) => (
            StartStage::Halting(Failure::OutOfTurn),
            Action::StopRecorder { pid },
        ),
        (StartStage::Streaming(pid), _) => (
            StartStage::Halting(Failure::OutOfTurn),
            Action::StopRecorder { pid },
        ),
        (StartStage::Following, _) => (StartStage::Over, Action::End(Ok(()))),
        (StartStage::Abandoning(failure), _) => (StartStage::Over, Action::End(Err(failure))),
        (StartStage::Unmarking(failure), Event::Done) => (
            StartStage::Over,
            Action::End(Err(failure)),
        ),
        (StartStage::Halting(failure), _) => (
            StartStage::Withdrawing(failure),
            Action::Remove(Mark::RecordingPid),
        ),
        (StartStage::Withdrawing(failure), Event::Done) => (
            StartStage::Detaching(failure),
            Action::Remove(Mark::LiveSession),
        ),
        (StartStage::Detaching(failure), Event::Done) => (
            StartStage::Over,
            Action::End(Err(failure)),
        ),
        (_, Event::Failed(failure)) => (StartStage::Over, Action::End(Err(failure))),
        _ => (StartStage::Over, Action::End(Err(Failure::OutOfTurn))),
    }
}

/// Starts a recording, with the lock held: the next step of it.
pub fn cmd_start(stage: StartStage, event: Event) -> (out: (StartStage, Action))
    ensures
        out == start_step(stage, event),
{
    match (stage, event) {
        (StartStage::Ready, Event::Begin) => (StartStage::Looking, Action::ReadState),
        (StartStage::Looking, Event::State(State::Recording { .. })) => (
            StartStage::Noting,
            Action::Notify(Note::AlreadyRecording),
        ),
        (StartStage::Looking, Event::State(State::Transcribing)) => (
            StartStage::Noting,
            Action::Notify(Note::StillTranscribing),
        ),
        (StartStage::Looking, Event::State(State::Idle)) => (StartStage::Settling, Action::Settle),
        (StartStage::Noting, _) => (StartStage::Over, Action::End(Ok(()))),
        (StartStage::Settling, Event::Session(settings)) => {
            let plan = Plan {
                streams: settings.streaming(),
                language: settings.config.deepgram_language.clone(),
            };
            (StartStage::Saving(plan), Action::SaveSession(settings))
        },
        (StartStage::Saving(plan), Event::Done) => (
            StartStage::Invalidating(plan),
            Action::Invalidate,
        ),
        (StartStage::Invalidating(plan), Event::Done) => (
            StartStage::ClearingStream(plan),
            Action::Remove(Mark::StreamState),
        ),
        (StartStage::ClearingStream(plan), Event::Done) => (
            StartStage::ClearingWav(plan),
            Action::Remove(Mark::RecordingWav),
        ),
        (StartStage::ClearingWav(plan), Event::Done) => (
            StartStage::Launching(plan),
            Action::StartRecorder,
        ),
        (StartStage::Launching(plan), Event::Started { pid }) => (
            StartStage::Marking(plan, pid),
            Action::WritePid { mark: Mark::RecordingPid, pid },
        ),
        (StartStage::Marking(plan, pid), Event::Done) => (
            StartStage::Telling(plan, pid),
            Action::Notify(Note::Recording),
        ),
        (StartStage::Marking(_, pid), Event::Failed(failure)) => (
            StartStage::Abandoning(failure),
            Action::StopRecorder { pid },
        ),
        (StartStage::Telling(plan, pid), _) => (
            StartStage::Confirming(plan, pid),
            Action::ConfirmRecorder { pid },
        ),
        (StartStage::Confirming(plan, pid), Event::Done) => if plan.streams {
            (
                StartStage::Streaming(pid),
                Action::StartStream { recorder: pid, language: plan.language },
            )
        } else {
            (StartStage::Following, Action::StartLive { recorder: pid })
        },
        (StartStage::Confirming(_, _), Event::Failed(failure)) => (
            StartStage::Unmarking(failure),
            Action::Remove(Mark::RecordingPid),
        ),
        (StartStage::Streaming(_), Event::Done) => (StartStage::Over, Action::End(Ok(()))),
        (StartStage::Streaming(pid), Event::Failed(failure)) => (
            StartStage::Halting(failure),
            Action::StopRecorder { pid },
        ),
        (StartStage::Marking(_, pid), _) => (
            StartStage::Abandoning(Failure::OutOfTurn),
            Action::StopRecorder { pid },
        ),
        (StartStage::Confirming(_, pid), _) => (
            StartStage::Halting(Failure::OutOfTurn),
            Action::StopRecorder { pid },
        ),
        (StartStage::Streaming(pid), _) => (
            StartStage::Halting(Failure::OutOfTurn),
            Action::StopRecorder { pid },
        ),
        (StartStage::Following, _) => (StartStage::Over, Action::End(Ok(()))),
        (StartStage::Abandoning(failure), _) => (StartStage::Over, Action::End(Err(failure))),
        (StartStage::Unmarking(failure), Event::Done) => (
            StartStage::Over,
            Action::End(Err(failure)),
        ),
        (StartStage::Halting(failure), _) => (
            StartStage::Withdrawing(failure),
            Action::Remove(Mark::RecordingPid),
        ),
        (StartStage::Withdrawing(failure), Event::Done) => (
            StartStage::Detaching(failure),
            Action::Remove(Mark::LiveSession),
        ),
        (StartStage::Detaching(failure), Event::Done) => (
            StartStage::Over,
            Action::End(Err(failure)),
        ),
        (_, Event::Failed(failure)) => (StartStage::Over, Action::End(Err(failure))),
        _ => (StartStage::Over, Action::End(Err(Failure::OutOfTurn))),
    }
}

/// A run of starting: `events[i]`, told at `stages[i]`, is answered by
/// `actions[i]`.
pub open spec fn start_run(
    stages: Seq<StartStage>,
    events: Seq<Event>,
    actions: Seq<Action>,
) -> bool {
    &&& stages.len() == events.len() + 1
    &&& actions.len() == events.len()
    &&& stages[0] is Ready
    &&& forall|i: int|
        0 <= i < events.len() ==> (stages[i + 1], actions[i]) == start_step(
            stages[i],
            #[trigger] events[i],
        )
}

/// The state was read as idle, and the settings were settled after that, before
/// `m`.
pub open spec fn cleared_to_record(events: Seq<Event>, a: int, b: int, m: int) -> bool {
    &&& 0 <= a < b < m
    &&& events[a] == Event::State(State::Idle)
    &&& events[b] is Session
}

/// The recorder `pid` was started, before `m`.
pub open spec fn launched(
    events: Seq<Event>,
    actions: Seq<Action>,
    pid: i32,
    j: int,
    m: int,
) -> bool {
    &&& 0 <= j
    &&& j + 1 < m
    &&& actions[j] is StartRecorder
    &&& events[j + 1] == Event::Started { pid }
}

proof fn lemma_start(stages: Seq<StartStage>, events: Seq<Event>, actions: Seq<Action>, m: int)
    requires
        start_run(stages, events, actions),
        0 <= m <= events.len(),
    ensures
        match stages[m] {
            StartStage::Ready => m == 0,
            StartStage::Looking => true,
            StartStage::Noting => true,
            StartStage::Over => true,
            StartStage::Settling => m >= 1 && events[m - 1] == Event::State(State::Idle),
            _ => exists|a: int, b: int| #[trigger] cleared_to_record(events, a, b, m),
        },
    decreases m,
{
    if m > 0 {
        lemma_start(stages, events, actions, m - 1);
        assert((stages[m], actions[m - 1]) == start_step(stages[m - 1], events[m - 1]));
        if stages[m] is Saving {
            assert(cleared_to_record(events, m - 2, m - 1, m));
        } else if exists|a: int, b: int| #[trigger] cleared_to_record(events, a, b, m - 1) {
            let (a, b) = choose|a: int, b: int| #[trigger] cleared_to_record(events, a, b, m - 1);
            assert(cleared_to_record(events, a, b, m));
        }
    }
}

/// A recording kept from an earlier failure is dropped, and a recorder started,
/// only while nothing is recorded or transcribed, and only after the settings,
/// credentials among them, were found to be in order.
pub proof fn start_validates_before_it_clears(
    stages: Seq<StartStage>,
    events: Seq<Event>,
    actions: Seq<Action>,
    i: int,
)
    requires
        start_run(stages, events, actions),
        0 <= i < events.len(),
        actions[i] == Action::Remove(Mark::RecordingWav) || actions[i] is StartRecorder,
    ensures
        exists|a: int, b: int| #[trigger] cleared_to_record(events, a, b, i),
{
    lemma_start(stages, events, actions, i);
    assert((stages[i + 1], actions[i]) == start_step(stages[i], events[i]));
}

/// The recorder `pid` was asked to stop, or was seen to have exited, at `j`, before
/// `m`.
pub open spec fn undone(
    events: Seq<Event>,
    actions: Seq<Action>,
    pid: i32,
    j: int,
    m: int,
) -> bool {
    &&& 0 <= j < m
    &&& {
        ||| actions[j] == Action::StopRecorder { pid }
        ||| j + 1 < m && actions[j] == (Action::ConfirmRecorder { pid }) && events[j + 1] is Failed
    }
}

/// The PID file was asked to be removed, at `j`, before `m`.
pub open spec fn unmarked(actions: Seq<Action>, j: int, m: int) -> bool {
    0 <= j < m && actions[j] == Action::Remove(Mark::RecordingPid)
}

/// What a stage of starting knows of the recorder `pid`, which was started by
/// action `s`.
spec fn accounts_for(
    stages: Seq<StartStage>,
    events: Seq<Event>,
    actions: Seq<Action>,
    pid: i32,
    s: int,
    m: int,
) -> bool {
    let gone = exists|j: int| #[trigger] undone(events, actions, pid, j, m);
    let removed = exists|j: int| #[trigger] unmarked(actions, j, m);
    match stages[m] {
        StartStage::Marking(_, p) => p == pid && m == s + 2,
        StartStage::Telling(_, p) => p == pid,
        StartStage::Confirming(_, p) => p == pid && actions[m - 1] == (Action::ConfirmRecorder {
            pid,
        }),
        StartStage::Streaming(p) => p == pid,
        StartStage::Following => true,
        StartStage::Abandoning(_) => gone && m == s + 3 && !(events[m - 1] is Done),
        StartStage::Unmarking(_) => gone && removed,
        StartStage::Halting(_) => gone,
        StartStage::Withdrawing(_) => gone && removed,
        StartStage::Detaching(_) => gone && removed,
        StartStage::Over => true,
        _ => false,
    }
}

proof fn lemma_accounts(
    stages: Seq<StartStage>,
    events: Seq<Event>,
    actions: Seq<Action>,
    pid: i32,
    s: int,
    m: int,
)
    requires
        start_run(stages, events, actions),
        0 <= m <= events.len(),
        launched(events, actions, pid, s, m),
    ensures
        accounts_for(stages, events, actions, pid, s, m),
        m == s + 2 ==> stages[m] is Marking && actions[m - 1] == (Action::WritePid {
            mark: Mark::RecordingPid,
            pid,
        }),
    decreases m,
{
    assert((stages[m], actions[m - 1]) == start_step(stages[m - 1], events[m - 1]));
    if m == s + 2 {
        assert((stages[m - 1], actions[m - 2]) == start_step(stages[m - 2], events[m - 2]));
        assert(stages[m - 1] is Launching);
    } else {
        lemma_accounts(stages, events, actions, pid, s, m - 1);
        if exists|j: int| #[trigger] undone(events, actions, pid, j, m - 1) {
            let j = choose|j: int| #[trigger] undone(events, actions, pid, j, m - 1);
            assert(undone(events, actions, pid, j, m));
        }
        if exists|j: int| #[trigger] unmarked(actions, j, m - 1) {
            let j = choose|j: int| #[trigger] unmarked(actions, j, m - 1);
            assert(unmarked(actions, j, m));
        }
        if actions[m - 1] == Action::Remove(Mark::RecordingPid) {
            assert(unmarked(actions, m - 1, m));
        }
        if actions[m - 1] == (Action::StopRecorder { pid }) {
            assert(undone(events, actions, pid, m - 1, m));
        }
        if stages[m] is Unmarking {
            assert(undone(events, actions, pid, m - 2, m));
        }
    }
}

/// A start that fails leaves nothing running and no file that claims so: a recorder
/// that it started was stopped or seen to have exited, and where the recorder's
/// PID was written, that file was removed.
pub proof fn failed_start_leaves_no_recorder(
    stages: Seq<StartStage>,
    events: Seq<Event>,
    actions: Seq<Action>,
    pid: i32,
    s: int,
    i: int,
)
    requires
        start_run(stages, events, actions),
        0 <= i < events.len(),
        launched(events, actions, pid, s, i),
        !(stages[i] is Over),
        actions[i] matches Action::End(Err(_)),
    ensures
        exists|j: int| #[trigger] undone(events, actions, pid, j, i),
        s + 2 < i,
        actions[s + 1] == (Action::WritePid { mark: Mark::RecordingPid, pid }),
        events[s + 2] is Done ==> exists|j: int| #[trigger] unmarked(actions, j, i),
{
    lemma_accounts(stages, events, actions, pid, s, i);
    lemma_accounts(stages, events, actions, pid, s, s + 2);
    assert((stages[i + 1], actions[i]) == start_step(stages[i], events[i]));
}

/// A start that ends well found something running already and touched nothing, or
/// has a recorder that was seen running.
pub proof fn started_means_recording(
    stages: Seq<StartStage>,
    events: Seq<Event>,
    actions: Seq<Action>,
    i: int,
)
    requires
        start_run(stages, events, actions),
        0 <= i < events.len(),
        actions[i] == Action::End(Ok(())),
    ensures
        ({
            ||| i == 2 && (events[1] matches Event::State(state) && state != State::Idle)
            ||| exists|j: int| #[trigger] confirmed(events, actions, j, i)
        }),
{
    lemma_confirmed(stages, events, actions, i);
    assert((stages[i + 1], actions[i]) == start_step(stages[i], events[i]));
}

/// The recorder was seen running, before `m`.
pub open spec fn confirmed(events: Seq<Event>, actions: Seq<Action>, j: int, m: int) -> bool {
    &&& 0 <= j
    &&& j + 1 < m
    &&& actions[j] is ConfirmRecorder
    &&& events[j + 1] is Done
}

proof fn lemma_confirmed(stages: Seq<StartStage>, events: Seq<Event>, actions: Seq<Action>, m: int)
    requires
        start_run(stages, events, actions),
        0 <= m <= events.len(),
    ensures
        match stages[m] {
            StartStage::Ready => m == 0,
            StartStage::Looking => m == 1,
            StartStage::Noting => m == 2 && (events[1] matches Event::State(state) && state
                != State::Idle),
            StartStage::Confirming(_, _) => m >= 1 && actions[m - 1] is ConfirmRecorder,
            StartStage::Streaming(_) => exists|j: int| #[trigger] confirmed(events, actions, j, m),
            StartStage::Following => exists|j: int| #[trigger] confirmed(events, actions, j, m),
            _ => true,
        },
    decreases m,
{
    if m > 0 {
        lemma_confirmed(stages, events, actions, m - 1);
        assert((stages[m], actions[m - 1]) == start_step(stages[m - 1], events[m - 1]));
        if stages[m] is Streaming || stages[m] is Following {
            assert(confirmed(events, actions, m - 2, m));
        }
    }
}

/// What is known of a recording that is being stopped.
pub struct Ending {
    pub settings: SessionConfig,
    /// How far live typing had come.
    pub progress: Option<Preview>,
}

/// What stopping waits for.
pub enum StopStage {
    Ready,
    Looking,
    /// A note to be shown, to end well.
    Noting,
    /// The settings that the recording was started with.
    Loading(i32),
    /// How far live typing has come.
    Peeking(i32, SessionConfig),
    /// Live typing to lose its right to deliver.
    Detaching(i32, Ending),
    Stopping(Ending),
    /// The recorder's PID to be removed.
    Unmarking(Ending),
    /// The own PID to be written, for the state to read as transcribing.
    Marking(Ending),
    Telling(Ending),
    /// The stream's worker to be asked to finish.
    Requesting,
    /// The lock to be released, for the worker to deliver.
    Releasing(String),
    /// The stream to be drained.
    Draining,
    /// Live typing to be finished.
    Finishing,
    Measuring(Config),
    Transcribing,
    /// The user to be told that there is nothing to spill; the recording stays.
    Saying,
    Copying { text: String, language: Option<String> },
    Pasting { text: String, language: Option<String> },
    Showing,
    RemovingWav,
    /// The own PID to be removed, to end so.
    Clearing(Result<(), Failure>),
    Over,
}

/// The own PID file stands at this stage, and has to go before the end.
pub open spec fn is_marked(stage: StopStage) -> bool {
    match stage {
        StopStage::Telling(_) => true,
        StopStage::Requesting => true,
        StopStage::Releasing(_) => true,
        StopStage::Draining => true,
        StopStage::Finishing => true,
        StopStage::Measuring(_) => true,
        StopStage::Transcribing => true,
        StopStage::Saying => true,
        StopStage::Copying { .. } => true,
        StopStage::Pasting { .. } => true,
        StopStage::Showing => true,
        StopStage::RemovingWav => true,
        _ => false,
    }
}

/// Stopping at `stage` ends in `failure`.
pub open spec fn stop_fails(
    stage: StopStage,
    failure: Failure,
    next: StopStage,
    action: Action,
) -> bool {
    if is_marked(stage) {
        next == StopStage::Clearing(Err(failure)) && action == Action::Remove(
            Mark::TranscribingPid,
        )
    } else {
        next is Over && action == Action::End(Err(failure))
    }
}

/// The recording is handed over for its transcription: to the local daemon, or to
/// Deepgram.
pub open spec fn asks_for_transcription(paths: Paths, config: Config, action: Action) -> bool {
    match action {
        Action::AskDaemon(exchange) => config.backend == Backend::Local && exchange.asks(
            paths.path(Mark::AsrSocket),
            paths.path(Mark::RecordingWav),
            READ_TIMEOUT_MS,
            false,
        ),
        Action::AskDeepgram(c) => config.backend == Backend::Deepgram && c == config,
        _ => false,
    }
}

/// What stopping does at `stage` when told `event`; `own` is the own PID.
pub open spec fn stop_step(
    paths: Paths,
    own: i32,
    stage: StopStage,
    event: Event,
    next: StopStage,
    action: Action,
) -> bool {
    let clear_well = next == StopStage::Clearing(Ok(())) && action == Action::Remove(
        Mark::TranscribingPid,
    );
    match (stage, event) {
        (StopStage::Ready, Event::Begin) => next is Looking && action is ReadState,
        (StopStage::Looking, Event::State(State::Recording { pid })) => {
            next == StopStage::Loading(pid) && action is ReadSession
        },
        (StopStage::Looking, Event::State(_)) => {
            next is Noting && action == Action::Notify(Note::NotRecording)
        },
        (StopStage::Noting, _) => next is Over && action == Action::End(Ok(())),
        (StopStage::Loading(pid), Event::Session(settings)) => {
            next == StopStage::Peeking(pid, settings) && action is ReadPreview
        },
        (StopStage::Peeking(pid, settings), Event::Progress(progress)) => if settings.streams() {
            &&& next == StopStage::Stopping(Ending { settings, progress })
            &&& action == (Action::StopRecorder { pid })
        } else {
            &&& next == StopStage::Detaching(pid, Ending { settings, progress })
            &&& action == Action::Remove(Mark::LiveSession)
        },
        (StopStage::Detaching(pid, ending), Event::Done) => {
            next == StopStage::Stopping(ending) && action == (Action::StopRecorder { pid })
        },
        (StopStage::Stopping(ending), Event::Done) => {
            &&& next == StopStage::Unmarking(ending)
            &&& action == Action::Remove(Mark::RecordingPid)
        },
        (StopStage::Unmarking(ending), Event::Done) => {
            &&& next == StopStage::Marking(ending)
            &&& action == (Action::WritePid { mark: Mark::TranscribingPid, pid: own })
        },
        (StopStage::Marking(ending), Event::Done) => {
            next == StopStage::Telling(ending) && action == Action::Notify(Note::Transcribing)
        },
        (StopStage::Telling(ending), _) => if ending.settings.streams() {
            next is Requesting && action is RequestFinish
        } else {
            match ending.progress {
                Some(progress) => next is Finishing && action == Action::FinishLive(progress),
                None => {
                    &&& next == StopStage::Measuring(ending.settings.config)
                    &&& action is MeasureRecording
                },
            }
        },
        (StopStage::Requesting, Event::Token(Some(session))) => {
            next == StopStage::Releasing(session) && action is Unlock
        },
        (StopStage::Releasing(session), _) => {
            next is Draining && action == (Action::FinishStream { session })
        },
        (StopStage::Draining, Event::Done) => clear_well,
        (StopStage::Finishing, Event::Done) => clear_well,
        (StopStage::Measuring(config), Event::Length(bytes)) => if bytes < MIN_AUDIO_BYTES {
            next is Saying && action == Action::Notify(Note::NothingRecorded)
        } else {
            next is Transcribing && asks_for_transcription(paths, config, action)
        },
        (StopStage::Transcribing, Event::Transcribed(result)) => if sanitized(
            result.text@,
        ).len() == 0 {
            next is Saying && action == Action::Notify(Note::NoSpeech)
        } else {
            &&& next matches StopStage::Copying { text, language } && text@ == sanitized(
                result.text@,
            ) && language == result.language && action == Action::Copy(text)
        },
        (StopStage::Saying, _) => clear_well,
        (StopStage::Copying { text, language }, Event::Done) => {
            next == (StopStage::Pasting { text, language }) && action is Paste
        },
        // From here the text is safe on the clipboard, so a failed keystroke is
        // a notification: the user can still paste it.
        (StopStage::Pasting { text, language }, Event::Pasted(_)) => {
            next is Showing && action == Action::Notify(Note::Spilled { language, text })
        },
        (StopStage::Pasting { .. }, Event::Failed(failure)) => {
            &&& next is Showing
            &&& action matches Action::Notify(Note::ClipboardOnly { reason }) && reason@
                == failure.told()
        },
        (StopStage::Showing, _) => {
            next is RemovingWav && action == Action::Remove(Mark::RecordingWav)
        },
        (StopStage::RemovingWav, Event::Done) => clear_well,
        (StopStage::Clearing(result), _) => next is Over && action == Action::End(result),
        (_, Event::Failed(failure)) => stop_fails(stage, failure, next, action),
        _ => stop_fails(stage, Failure::OutOfTurn, next, action),
    }
}

fn stop_failing(stage: StopStage, failure: Failure) -> (out: (StopStage, Action))
    ensures
        stop_fails(stage, failure, out.0, out.1),
{
    match stage {
        StopStage::Ready => (StopStage::Over, Action::End(Err(failure))),
        StopStage::Looking => (StopStage::Over, Action::End(Err(failure))),
        StopStage::Noting => (StopStage::Over, Action::End(Err(failure))),
        StopStage::Loading(_) => (StopStage::Over, Action::End(Err(failure))),
        StopStage::Peeking(_, _) => (StopStage::Over, Action::End(Err(failure))),
        StopStage::Detaching(_, _) => (StopStage::Over, Action::End(Err(failure))),
        StopStage::Stopping(_) => (StopStage::Over, Action::End(Err(failure))),
        StopStage::Unmarking(_) => (StopStage::Over, Action::End(Err(failure))),
        StopStage::Marking(_) => (StopStage::Over, Action::End(Err(failure))),
        StopStage::Clearing(_) => (StopStage::Over, Action::End(Err(failure))),
        StopStage::Over => (StopStage::Over, Action::End(Err(failure))),
        _ => (StopStage::Clearing(Err(failure)), Action::Remove(Mark::TranscribingPid)),
    }
}

fn ask_for_transcription(paths: &Paths, config: Config) -> (action: Action)
    ensures
        asks_for_transcription(*paths, config, action),
{
    match transcription::transcribe(paths, &config, paths.recording_wav().as_str()) {
        Service::Local(exchange) => Action::AskDaemon(exchange),
        Service::Deepgram => Action::AskDeepgram(config),
    }
}

/// Stops the recording, transcribes it, copies and pastes, with the lock held: the
/// next step of it.
pub fn cmd_stop(paths: &Paths, own: i32, stage: StopStage, event: Event) -> (out: (
    StopStage,
    Action,
))
    ensures
        stop_step(*paths, own, stage, event, out.0, out.1),
{
    match (stage, event) {
        (StopStage::Ready, Event::Begin) => (StopStage::Looking, Action::ReadState),
        (StopStage::Looking, Event::State(State::Recording { pid })) => (
            StopStage::Loading(pid),
            Action::ReadSession,
        ),
        (StopStage::Looking, Event::State(_)) => (
            StopStage::Noting,
            Action::Notify(Note::NotRecording),
        ),
        (StopStage::Noting, _) => (StopStage::Over, Action::End(Ok(()))),
        (StopStage::Loading(pid), Event::Session(settings)) => (
            StopStage::Peeking(pid, settings),
            Action::ReadPreview,
        ),
        (StopStage::Peeking(pid, settings), Event::Progress(progress)) => {
            if settings.streaming() {
                (
                    StopStage::Stopping(Ending { settings, progress }),
                    Action::StopRecorder { pid },
                )
            } else {
                (
                    StopStage::Detaching(pid, Ending { settings, progress }),
                    Action::Remove(Mark::LiveSession),
                )
            }
        },
        (StopStage::Detaching(pid, ending), Event::Done) => (
            StopStage::Stopping(ending),
            Action::StopRecorder { pid },
        ),
        (StopStage::Stopping(ending), Event::Done) => (
            StopStage::Unmarking(ending),
            Action::Remove(Mark::RecordingPid),
        ),
        (StopStage::Unmarking(ending), Event::Done) => (
            StopStage::Marking(ending),
            Action::WritePid { mark: Mark::TranscribingPid, pid: own },
        ),
        (StopStage::Marking(ending), Event::Done) => (
            StopStage::Telling(ending),
            Action::Notify(Note::Transcribing),
        ),
        (StopStage::Telling(ending), _) => {
            if ending.settings.streaming() {
                return (StopStage::Requesting, Action::RequestFinish);
            }
            match ending.progress {
                Some(progress) => (StopStage::Finishing, Action::FinishLive(progress)),
                None => (
                    StopStage::Measuring(ending.settings.config),
                    Action::MeasureRecording,
                ),
            }
        },
        (StopStage::Requesting, Event::Token(Some(session))) => (
            StopStage::Releasing(session),
            Action::Unlock,
        ),
        (StopStage::Releasing(session), _) => (
            StopStage::Draining,
            Action::FinishStream { session },
        ),
        (StopStage::Draining, Event::Done) => (
            StopStage::Clearing(Ok(())),
            Action::Remove(Mark::TranscribingPid),
        ),
        (StopStage::Finishing, Event::Done) => (
            StopStage::Clearing(Ok(())),
            Action::Remove(Mark::TranscribingPid),
        ),
        (StopStage::Measuring(config), Event::Length(bytes)) => if bytes < MIN_AUDIO_BYTES {
            (StopStage::Saying, Action::Notify(Note::NothingRecorded))
        } else {
            (StopStage::Transcribing, ask_for_transcription(paths, config))
        },
        (StopStage::Transcribing, Event::Transcribed(result)) => {
            let text = sanitize(result.text.as_str());
            if text.as_str().is_empty() {
                return (StopStage::Saying, Action::Notify(Note::NoSpeech));
            }
            let action = Action::Copy(text.clone());
            (StopStage::Copying { text, language: result.language }, action)
        },
        (StopStage::Saying, _) => (
            StopStage::Clearing(Ok(())),
            Action::Remove(Mark::TranscribingPid),
        ),
        (StopStage::Copying { text, language }, Event::Done) => (
            StopStage::Pasting { text, language },
            Action::Paste,
        ),
        (StopStage::Pasting { text, language }, Event::Pasted(_)) => (
            StopStage::Showing,
            Action::Notify(Note::Spilled { language, text }),
        ),
        (StopStage::Pasting { .. }, Event::Failed(failure)) => (
            StopStage::Showing,
            Action::Notify(Note::ClipboardOnly { reason: failure.message() }),
        ),
        (StopStage::Showing, _) => (StopStage::RemovingWav, Action::Remove(Mark::RecordingWav)),
        (StopStage::RemovingWav, Event::Done) => (
            StopStage::Clearing(Ok(())),
            Action::Remove(Mark::TranscribingPid),
        ),
        (StopStage::Clearing(result), _) => (StopStage::Over, Action::End(result)),
        (stage, Event::Failed(failure)) => stop_failing(stage, failure),
        (stage, _) => stop_failing(stage, Failure::OutOfTurn),
    }
}

/// A run of stopping: `events[i]`, told at `stages[i]`, is answered by
/// `actions[i]`.
pub open spec fn stop_run(
    paths: Paths,
    own: i32,
    stages: Seq<StopStage>,
    events: Seq<Event>,
    actions: Seq<Action>,
) -> bool {
    &&& stages.len() == events.len() + 1
    &&& actions.len() == events.len()
    &&& stages[0] is Ready
    &&& forall|i: int|
        0 <= i < events.len() ==> stop_step(
            paths,
            own,
            stages[i],
            #[trigger] events[i],
            stages[i + 1],
            actions[i],
        )
}

/// At event `j`, before `m`, the transcription came, and its one line, which is not
/// empty, was then put on the clipboard.
pub open spec fn spilled(events: Seq<Event>, actions: Seq<Action>, j: int, m: int) -> bool {
    &&& 0 <= j
    &&& j + 1 < m
    &&& events[j] matches Event::Transcribed(result) && (actions[j] matches Action::Copy(text)
        && text@ == sanitized(result.text@) && text@.len() > 0)
    &&& events[j + 1] is Done
}

proof fn lemma_stop(
    paths: Paths,
    own: i32,
    stages: Seq<StopStage>,
    events: Seq<Event>,
    actions: Seq<Action>,
    m: int,
)
    requires
        stop_run(paths, own, stages, events, actions),
        0 <= m <= events.len(),
    ensures
        stages[m] is Copying ==> m >= 1 && (events[m - 1] matches Event::Transcribed(result) && (
        actions[m - 1] matches Action::Copy(text) && text@ == sanitized(result.text@) && text@.len()
            > 0)),
        stages[m] is Pasting || stages[m] is Showing || stages[m] is RemovingWav ==> exists|j: int|
            #[trigger] spilled(events, actions, j, m),
        stages[m] matches StopStage::Clearing(_) ==> m >= 1 && actions[m - 1] == Action::Remove(
            Mark::TranscribingPid,
        ),
    decreases m,
{
    if m > 0 {
        lemma_stop(paths, own, stages, events, actions, m - 1);
        assert(stop_step(paths, own, stages[m - 1], events[m - 1], stages[m], actions[m - 1]));
        if stages[m] is Pasting {
            assert(spilled(events, actions, m - 2, m));
        } else if stages[m] is Showing || stages[m] is RemovingWav {
            let j = choose|j: int| #[trigger] spilled(events, actions, j, m - 1);
            assert(spilled(events, actions, j, m));
        }
    }
}

/// Audio survives failure: stopping removes the recording only after its text was put
/// on the clipboard. A recording with nothing to spill in it stays, too.
pub proof fn stopping_keeps_the_recording(
    paths: Paths,
    own: i32,
    stages: Seq<StopStage>,
    events: Seq<Event>,
    actions: Seq<Action>,
    i: int,
)
    requires
        stop_run(paths, own, stages, events, actions),
        0 <= i < events.len(),
        actions[i] == Action::Remove(Mark::RecordingWav),
    ensures
        exists|j: int| #[trigger] spilled(events, actions, j, i),
{
    assert(stop_step(paths, own, stages[i], events[i], stages[i + 1], actions[i]));
    lemma_stop(paths, own, stages, events, actions, i);
}

/// What stopping puts on the clipboard, and then pastes, is something, and holds no
/// line break: pasting it into a shell runs nothing.
pub proof fn spilled_text_is_one_line(
    paths: Paths,
    own: i32,
    stages: Seq<StopStage>,
    events: Seq<Event>,
    actions: Seq<Action>,
    i: int,
)
    requires
        stop_run(paths, own, stages, events, actions),
        0 <= i < events.len(),
        actions[i] is Copy,
    ensures
        actions[i]->Copy_0@.len() > 0,
        one_line(actions[i]->Copy_0@),
{
    assert(stop_step(paths, own, stages[i], events[i], stages[i + 1], actions[i]));
    if let Event::Transcribed(result) = events[i] {
        sanitized_is_one_trim_line(result.text@);
    }
}

/// Pasting only happens once the text is on the clipboard.
pub proof fn paste_follows_the_copy(
    paths: Paths,
    own: i32,
    stages: Seq<StopStage>,
    events: Seq<Event>,
    actions: Seq<Action>,
    i: int,
)
    requires
        stop_run(paths, own, stages, events, actions),
        0 <= i < events.len(),
        actions[i] is Paste,
    ensures
        i >= 1,
        actions[i - 1] is Copy,
        events[i] is Done,
{
    assert(stop_step(paths, own, stages[i], events[i], stages[i + 1], actions[i]));
    lemma_stop(paths, own, stages, events, actions, i);
}

/// The own PID file never outlives the command: once it was written, the command
/// ends only right after asking for its removal.
pub proof fn stopping_clears_its_mark(
    paths: Paths,
    own: i32,
    stages: Seq<StopStage>,
    events: Seq<Event>,
    actions: Seq<Action>,
    j: int,
    i: int,
)
    requires
        stop_run(paths, own, stages, events, actions),
        0 <= j,
        j + 1 < i < events.len(),
        actions[j] == (Action::WritePid { mark: Mark::TranscribingPid, pid: own }),
        events[j + 1] is Done,
        actions[i] is End,
        !(stages[i] is Over),
    ensures
        actions[i - 1] == Action::Remove(Mark::TranscribingPid),
{
    lemma_marked(paths, own, stages, events, actions, j, i);
    lemma_stop(paths, own, stages, events, actions, i);
    assert(stop_step(paths, own, stages[i], events[i], stages[i + 1], actions[i]));
}

proof fn lemma_marked(
    paths: Paths,
    own: i32,
    stages: Seq<StopStage>,
    events: Seq<Event>,
    actions: Seq<Action>,
    j: int,
    m: int,
)
    requires
        stop_run(paths, own, stages, events, actions),
        0 <= j,
        j + 1 < m <= events.len(),
        actions[j] == (Action::WritePid { mark: Mark::TranscribingPid, pid: own }),
        events[j + 1] is Done,
    ensures
        is_marked(stages[m]) || stages[m] is Clearing || stages[m] is Over,
    decreases m,
{
    assert(stop_step(paths, own, stages[m - 1], events[m - 1], stages[m], actions[m - 1]));
    if m == j + 2 {
        assert(stop_step(paths, own, stages[j], events[j], stages[j + 1], actions[j]));
        assert(stages[j + 1] is Marking);
    } else {
        lemma_marked(paths, own, stages, events, actions, j, m - 1);
    }
}

/// Stopping takes live typing its right to deliver before it stops the recorder, so
/// that nothing is typed behind its back; a stream keeps it, to deliver what is
/// still to come.
pub proof fn stop_silences_live_typing_first(
    paths: Paths,
    own: i32,
    stages: Seq<StopStage>,
    events: Seq<Event>,
    actions: Seq<Action>,
    i: int,
)
    requires
        stop_run(paths, own, stages, events, actions),
        0 <= i < events.len(),
        actions[i] is StopRecorder,
    ensures
        ({
            ||| i >= 1 && actions[i - 1] == Action::Remove(Mark::LiveSession) && events[i] is Done
            ||| stages[i] matches StopStage::Peeking(_, settings) && settings.streams()
        }),
{
    assert(stop_step(paths, own, stages[i], events[i], stages[i + 1], actions[i]));
    if i > 0 {
        assert(stop_step(paths, own, stages[i - 1], events[i - 1], stages[i], actions[i - 1]));
    }
}

/// Waiting for a stream to drain never holds the lock: it is released right before.
pub proof fn stream_is_awaited_without_the_lock(
    paths: Paths,
    own: i32,
    stages: Seq<StopStage>,
    events: Seq<Event>,
    actions: Seq<Action>,
    i: int,
)
    requires
        stop_run(paths, own, stages, events, actions),
        0 <= i < events.len(),
        actions[i] is FinishStream,
    ensures
        i >= 1,
        actions[i - 1] is Unlock,
{
    assert(stop_step(paths, own, stages[i], events[i], stages[i + 1], actions[i]));
    if i > 0 {
        assert(stop_step(paths, own, stages[i - 1], events[i - 1], stages[i], actions[i - 1]));
    }
}

/// What cancelling waits for.
pub enum CancelStage {
    Ready,
    Looking,
    /// To hear whether a stream is being drained.
    Finding,
    /// Live sessions to lose their right to deliver.
    Invalidating(State, bool),
    /// The audio of a stream that is being drained to be removed.
    DroppingStreamed,
    DroppingStream,
    Stopping,
    Unmarking,
    Dropping,
    /// A note to be shown, to end well.
    Noting,
    Over,
}

/// What cancelling does at `stage` when told `event`.
pub open spec fn cancel_step(stage: CancelStage, event: Event) -> (CancelStage, Action) {
    match (stage, event) {
        (CancelStage::Ready, Event::Begin) => (CancelStage::Looking, Action::ReadState),
        (CancelStage::Looking, Event::State(State::Transcribing)) => (
            CancelStage::Finding,
            Action::Find(Mark::StreamState),
        ),
        (CancelStage::Looking, Event::State(state)) => (
            CancelStage::Invalidating(state, false),
            Action::Invalidate,
        ),
        (CancelStage::Finding, Event::Present(streamed)) => (
            CancelStage::Invalidating(State::Transcribing, streamed),
            Action::Invalidate,
        ),
        (CancelStage::Invalidating(_, true), Event::Done) => (
            CancelStage::DroppingStreamed,
            Action::Remove(Mark::RecordingWav),
        ),
        (CancelStage::Invalidating(State::Recording { pid }, false), Event::Done) => (
            CancelStage::Stopping,
            Action::StopRecorder { pid },
        ),
        (CancelStage::Invalidating(_, false), Event::Done) => (
            CancelStage::Noting,
            Action::Notify(Note::NotRecording),
        ),
        (CancelStage::DroppingStreamed, Event::Done) => (
            CancelStage::DroppingStream,
            Action::Remove(Mark::StreamState),
        ),
        (CancelStage::DroppingStream, Event::Done) => (
            CancelStage::Noting,
            Action::Notify(Note::Cancelled),
        ),
        (CancelStage::Stopping, Event::Done) => (
            CancelStage::Unmarking,
            Action::Remove(Mark::RecordingPid),
        ),
        (CancelStage::Unmarking, Event::Done) => (
            CancelStage::Dropping,
            Action::Remove(Mark::RecordingWav),
        ),
        (CancelStage::Dropping, Event::Done) => (
            CancelStage::Noting,
            Action::Notify(Note::Cancelled),
        ),
        (CancelStage::Noting, _) => (CancelStage::Over, Action::End(Ok(()))),
        (_, Event::Failed(failure)) => (CancelStage::Over, Action::End(Err(failure))),
        _ => (CancelStage::Over, Action::End(Err(Failure::OutOfTurn))),
    }
}

/// Stops the recording and throws the audio away, with the lock held: the next step
/// of it.
pub fn cmd_cancel(stage: CancelStage, event: Event) -> (out: (CancelStage, Action))
    ensures
        out == cancel_step(stage, event),
{
    match (stage, event) {
        (CancelStage::Ready, Event::Begin) => (CancelStage::Looking, Action::ReadState),
        (CancelStage::Looking, Event::State(State::Transcribing)) => (
            CancelStage::Finding,
            Action::Find(Mark::StreamState),
        ),
        (CancelStage::Looking, Event::State(state)) => (
            CancelStage::Invalidating(state, false),
            Action::Invalidate,
        ),
        (CancelStage::Finding, Event::Present(streamed)) => (
            CancelStage::Invalidating(State::Transcribing, streamed),
            Action::Invalidate,
        ),
        (CancelStage::Invalidating(_, true), Event::Done) => (
            CancelStage::DroppingStreamed,
            Action::Remove(Mark::RecordingWav),
        ),
        (CancelStage::Invalidating(State::Recording { pid }, false), Event::Done) => (
            CancelStage::Stopping,
            Action::StopRecorder { pid },
        ),
        (CancelStage::Invalidating(_, false), Event::Done) => (
            CancelStage::Noting,
            Action::Notify(Note::NotRecording),
        ),
        (CancelStage::DroppingStreamed, Event::Done) => (
            CancelStage::DroppingStream,
            Action::Remove(Mark::StreamState),
        ),
        (CancelStage::DroppingStream, Event::Done) => (
            CancelStage::Noting,
            Action::Notify(Note::Cancelled),
        ),
        (CancelStage::Stopping, Event::Done) => (
            CancelStage::Unmarking,
            Action::Remove(Mark::RecordingPid),
        ),
        (CancelStage::Unmarking, Event::Done) => (
            CancelStage::Dropping,
            Action::Remove(Mark::RecordingWav),
        ),
        (CancelStage::Dropping, Event::Done) => (
            CancelStage::Noting,
            Action::Notify(Note::Cancelled),
        ),
        (CancelStage::Noting, _) => (CancelStage::Over, Action::End(Ok(()))),
        (_, Event::Failed(failure)) => (CancelStage::Over, Action::End(Err(failure))),
        _ => (CancelStage::Over, Action::End(Err(Failure::OutOfTurn))),
    }
}

/// A run of cancelling: `events[i]`, told at `stages[i]`, is answered by
/// `actions[i]`.
pub open spec fn cancel_run(
    stages: Seq<CancelStage>,
    events: Seq<Event>,
    actions: Seq<Action>,
) -> bool {
    &&& stages.len() == events.len() + 1
    &&& actions.len() == events.len()
    &&& stages[0] is Ready
    &&& forall|i: int|
        0 <= i < events.len() ==> (stages[i + 1], actions[i]) == cancel_step(
            stages[i],
            #[trigger] events[i],
        )
}

/// The last live session lost its right to deliver, before `m`.
pub open spec fn invalidated(events: Seq<Event>, actions: Seq<Action>, j: int, m: int) -> bool {
    &&& 0 <= j
    &&& j + 1 <= m
    &&& actions[j] is Invalidate
    &&& events[j + 1] is Done
}

/// Either the recorder was stopped, or a stream is being drained, before `m`.
pub open spec fn stopped_or_drained(
    events: Seq<Event>,
    actions: Seq<Action>,
    j: int,
    m: int,
) -> bool {
    &&& 0 <= j
    &&& j + 1 < m
    &&& {
        ||| actions[j] is StopRecorder && events[j + 1] is Done
        ||| actions[j] == Action::Find(Mark::StreamState) && events[j + 1] == Event::Present(true)
    }
}

proof fn lemma_cancel(stages: Seq<CancelStage>, events: Seq<Event>, actions: Seq<Action>, m: int)
    requires
        cancel_run(stages, events, actions),
        0 <= m <= events.len(),
    ensures
        match stages[m] {
            CancelStage::Finding => m >= 1 && actions[m - 1] == Action::Find(Mark::StreamState),
            CancelStage::Invalidating(_, streamed) => {
                &&& m >= 1
                &&& actions[m - 1] is Invalidate
                &&& streamed ==> exists|j: int|
                    #[trigger] stopped_or_drained(events, actions, j, m)
            },
            CancelStage::Stopping => m >= 1 && actions[m - 1] is StopRecorder && exists|j: int|
                #[trigger] invalidated(events, actions, j, m - 1),
            CancelStage::Unmarking => (exists|j: int|
                #[trigger] stopped_or_drained(events, actions, j, m)) && exists|j: int|
                #[trigger] invalidated(events, actions, j, m - 1),
            _ => true,
        },
    decreases m,
{
    if m > 0 {
        lemma_cancel(stages, events, actions, m - 1);
        assert((stages[m], actions[m - 1]) == cancel_step(stages[m - 1], events[m - 1]));
        match stages[m] {
            CancelStage::Invalidating(_, streamed) => {
                if streamed {
                    assert(stopped_or_drained(events, actions, m - 2, m));
                }
            },
            CancelStage::Stopping => {
                assert(invalidated(events, actions, m - 2, m - 1));
            },
            CancelStage::Unmarking => {
                assert(stopped_or_drained(events, actions, m - 2, m));
                let j = choose|j: int| #[trigger] invalidated(events, actions, j, m - 2);
                assert(invalidated(events, actions, j, m - 1));
            },
            _ => {},
        }
    }
}

/// Cancelling throws the audio away only after the session lost its right to
/// deliver, and only with the recorder stopped or a stream being drained; the
/// audio of any other transcription is kept.
pub proof fn cancel_silences_before_it_drops(
    stages: Seq<CancelStage>,
    events: Seq<Event>,
    actions: Seq<Action>,
    i: int,
)
    requires
        cancel_run(stages, events, actions),
        0 <= i < events.len(),
        actions[i] == Action::Remove(Mark::RecordingWav),
    ensures
        exists|j: int| #[trigger] invalidated(events, actions, j, i),
        exists|j: int| #[trigger] stopped_or_drained(events, actions, j, i),
{
    lemma_cancel(stages, events, actions, i);
    assert((stages[i + 1], actions[i]) == cancel_step(stages[i], events[i]));
    if stages[i] is Invalidating {
        assert(invalidated(events, actions, i - 1, i));
    } else {
        let j = choose|j: int| #[trigger] invalidated(events, actions, j, i - 1);
        assert(invalidated(events, actions, j, i));
    }
}

proof fn lemma_cancel_over(
    stages: Seq<CancelStage>,
    events: Seq<Event>,
    actions: Seq<Action>,
    m: int,
    i: int,
)
    requires
        cancel_run(stages, events, actions),
        0 <= m <= i < events.len(),
        stages[m] is Over,
    ensures
        stages[i] is Over,
        actions[i] matches Action::End(Err(_)),
    decreases i - m,
{
    assert((stages[m + 1], actions[m]) == cancel_step(stages[m], events[m]));
    if m < i {
        lemma_cancel_over(stages, events, actions, m + 1, i);
    }
}

/// The step at `m` did not end the run, where the run ends well at `i`.
proof fn lemma_cancel_goes_on(
    stages: Seq<CancelStage>,
    events: Seq<Event>,
    actions: Seq<Action>,
    m: int,
    i: int,
)
    requires
        cancel_run(stages, events, actions),
        0 <= m < events.len(),
        0 <= i < events.len(),
        m <= i,
        actions[i] == Action::End(Ok(())),
    ensures
        (stages[m + 1], actions[m]) == cancel_step(stages[m], events[m]),
        m < i ==> !(stages[m + 1] is Over),
{
    assert((stages[m + 1], actions[m]) == cancel_step(stages[m], events[m]));
    if m < i && stages[m + 1] is Over {
        lemma_cancel_over(stages, events, actions, m + 1, i);
    }
}

/// Cancelling a recording that ends well has silenced its session, stopped its
/// recorder, removed the recorder's PID, thrown the audio away and said so, in this
/// order, each of it done.
pub proof fn cancelled_means_stopped_and_dropped(
    stages: Seq<CancelStage>,
    events: Seq<Event>,
    actions: Seq<Action>,
    pid: i32,
    k: int,
    i: int,
)
    requires
        cancel_run(stages, events, actions),
        0 <= k <= i < events.len(),
        stages[k] is Looking,
        events[k] == Event::State(State::Recording { pid }),
        actions[i] == Action::End(Ok(())),
    ensures
        i == k + 5,
        actions[k] is Invalidate && events[k + 1] is Done,
        actions[k + 1] == (Action::StopRecorder { pid }) && events[k + 2] is Done,
        actions[k + 2] == Action::Remove(Mark::RecordingPid) && events[k + 3] is Done,
        actions[k + 3] == Action::Remove(Mark::RecordingWav) && events[k + 4] is Done,
        actions[k + 4] == Action::Notify(Note::Cancelled),
{
    lemma_cancel_goes_on(stages, events, actions, k, i);
    lemma_cancel_goes_on(stages, events, actions, k + 1, i);
    lemma_cancel_goes_on(stages, events, actions, k + 2, i);
    lemma_cancel_goes_on(stages, events, actions, k + 3, i);
    lemma_cancel_goes_on(stages, events, actions, k + 4, i);
    lemma_cancel_goes_on(stages, events, actions, k + 5, i);
    if i > k + 5 {
        lemma_cancel_over(stages, events, actions, k + 6, i);
    }
}

/// Cancelling a stream that is being drained, where it ends well, has silenced its
/// session, thrown the audio and the stream's state away and said so, in this order,
/// each of it done.
pub proof fn cancelled_drain_is_dropped(
    stages: Seq<CancelStage>,
    events: Seq<Event>,
    actions: Seq<Action>,
    k: int,
    i: int,
)
    requires
        cancel_run(stages, events, actions),
        0 <= k <= i < events.len(),
        stages[k] is Finding,
        events[k] == Event::Present(true),
        actions[i] == Action::End(Ok(())),
    ensures
        i == k + 4,
        actions[k] is Invalidate && events[k + 1] is Done,
        actions[k + 1] == Action::Remove(Mark::RecordingWav) && events[k + 2] is Done,
        actions[k + 2] == Action::Remove(Mark::StreamState) && events[k + 3] is Done,
        actions[k + 3] == Action::Notify(Note::Cancelled),
{
    lemma_cancel_goes_on(stages, events, actions, k, i);
    lemma_cancel_goes_on(stages, events, actions, k + 1, i);
    lemma_cancel_goes_on(stages, events, actions, k + 2, i);
    lemma_cancel_goes_on(stages, events, actions, k + 3, i);
    lemma_cancel_goes_on(stages, events, actions, k + 4, i);
    if i > k + 4 {
        lemma_cancel_over(stages, events, actions, k + 5, i);
    }
}

/// A toggle stops a running recording and starts one in every other state; every other
/// command comes down to its own job, with what it was given, whatever the state.
pub proof fn a_toggle_stops_only_a_recording(command: Command, recording: bool)
    ensures
        command is Toggle ==> (job_of(command, recording) is Stop <==> recording) && (job_of(
            command,
            recording,
        ) is Start <==> !recording),
        !(command is Toggle) ==> job_of(command, recording) == job_of(command, !recording),
        command is Start ==> job_of(command, recording) is Start,
        command is Stop ==> job_of(command, recording) is Stop,
        command is Cancel ==> job_of(command, recording) is Cancel,
        command is Status ==> job_of(command, recording) is Status,
        command matches Command::Configure { backend } ==> (job_of(command, recording) matches
            Job::Configure { backend: b } && b == backend),
        command matches Command::Preview { json } ==> (job_of(command, recording) matches
            Job::Preview { json: j } && j == json),
        command matches Command::LiveWorker { session, recorder } ==> (job_of(command, recording)
            matches Job::LiveWorker { session: s, recorder: r } && s == session && r == recorder),
        command matches Command::StreamWorker { session, recorder } ==> (job_of(
            command,
            recording,
        ) matches Job::StreamWorker { session: s, recorder: r } && s == session && r == recorder),
{
}

proof fn lemma_start_step(
    stages: Seq<StartStage>,
    events: Seq<Event>,
    actions: Seq<Action>,
    i: int,
)
    requires
        start_run(stages, events, actions),
        0 <= i < events.len(),
    ensures
        (stages[i + 1], actions[i]) == start_step(stages[i], events[i]),
{
}

/// A start while something is recorded or transcribed touches nothing, says so and ends
/// well. From the idle state it settles the settings and saves them for this recording,
/// takes the last session its right to deliver, clears what an earlier recording left,
/// starts the recorder, writes its PID, shows that it records and sees that it runs.
pub proof fn a_start_starts_the_recorder(
    stages: Seq<StartStage>,
    events: Seq<Event>,
    actions: Seq<Action>,
)
    requires
        start_run(stages, events, actions),
        events.len() >= 10,
        events[0] is Begin,
        events[1] is State,
        events[2] is Session,
        events[3] is Done,
        events[4] is Done,
        events[5] is Done,
        events[6] is Done,
        events[7] is Started,
        events[8] is Done,
    ensures
        actions[0] is ReadState,
        match events[1]->State_0 {
            State::Recording { .. } => actions[1] == Action::Notify(Note::AlreadyRecording)
                && actions[2] == Action::End(Ok(())),
            State::Transcribing => actions[1] == Action::Notify(Note::StillTranscribing)
                && actions[2] == Action::End(Ok(())),
            State::Idle => {
                let pid = events[7]->Started_pid;
                &&& actions[1] is Settle
                &&& actions[2] == Action::SaveSession(events[2]->Session_0)
                &&& actions[3] is Invalidate
                &&& actions[4] == Action::Remove(Mark::StreamState)
                &&& actions[5] == Action::Remove(Mark::RecordingWav)
                &&& actions[6] is StartRecorder
                &&& actions[7] == (Action::WritePid { mark: Mark::RecordingPid, pid })
                &&& actions[8] == Action::Notify(Note::Recording)
                &&& actions[9] == (Action::ConfirmRecorder { pid })
            },
        },
{
    lemma_start_step(stages, events, actions, 0);
    lemma_start_step(stages, events, actions, 1);
    lemma_start_step(stages, events, actions, 2);
    lemma_start_step(stages, events, actions, 3);
    lemma_start_step(stages, events, actions, 4);
    lemma_start_step(stages, events, actions, 5);
    lemma_start_step(stages, events, actions, 6);
    lemma_start_step(stages, events, actions, 7);
    lemma_start_step(stages, events, actions, 8);
    lemma_start_step(stages, events, actions, 9);
}

/// What a plan of starting holds is what the settings that were settled say.
spec fn plans(settings: SessionConfig, stage: StartStage) -> bool {
    let fits = |plan: Plan|
        plan.streams == (settings.config.backend == Backend::Deepgram && settings.live)
            && plan.language == settings.config.deepgram_language;
    match stage {
        StartStage::Saving(plan) => fits(plan),
        StartStage::Invalidating(plan) => fits(plan),
        StartStage::ClearingStream(plan) => fits(plan),
        StartStage::ClearingWav(plan) => fits(plan),
        StartStage::Launching(plan) => fits(plan),
        StartStage::Marking(plan, _) => fits(plan),
        StartStage::Telling(plan, _) => fits(plan),
        StartStage::Confirming(plan, _) => fits(plan),
        StartStage::Ready => false,
        StartStage::Looking => false,
        StartStage::Noting => false,
        StartStage::Settling => false,
        _ => true,
    }
}

proof fn lemma_plans(stages: Seq<StartStage>, events: Seq<Event>, actions: Seq<Action>, m: int)
    requires
        start_run(stages, events, actions),
        events.len() >= 3,
        events[0] is Begin,
        events[1] == Event::State(State::Idle),
        events[2] is Session,
        3 <= m <= events.len(),
    ensures
        plans(events[2]->Session_0, stages[m]),
    decreases m,
{
    lemma_start_step(stages, events, actions, m - 1);
    if m == 3 {
        lemma_start_step(stages, events, actions, 0);
        lemma_start_step(stages, events, actions, 1);
    } else {
        lemma_plans(stages, events, actions, m - 1);
    }
}

/// A recorder that was seen running is streamed to Deepgram, in the language of the
/// settings, exactly where they choose Deepgram and live typing; else live typing is
/// started for it. A start ends well once its stream runs, and without live typing too;
/// where the stream does not start, the recorder is stopped, its PID and its session are
/// removed, and the start ends with that failure.
pub proof fn a_running_recorder_is_followed(
    stages: Seq<StartStage>,
    events: Seq<Event>,
    actions: Seq<Action>,
    i: int,
)
    requires
        start_run(stages, events, actions),
        2 < i,
        i + 4 < events.len(),
        events[0] is Begin,
        events[1] == Event::State(State::Idle),
        events[2] is Session,
        actions[i - 1] is ConfirmRecorder,
        events[i] is Done,
        events[i + 1] is Done || events[i + 1] is Failed,
        events[i + 2] is Done,
        events[i + 3] is Done,
        events[i + 4] is Done,
    ensures
        ({
            let settings = events[2]->Session_0;
            let pid = actions[i - 1]->ConfirmRecorder_pid;
            if settings.config.backend == Backend::Deepgram && settings.live {
                &&& actions[i] == (Action::StartStream {
                    recorder: pid,
                    language: settings.config.deepgram_language,
                })
                &&& events[i + 1] is Done ==> actions[i + 1] == Action::End(Ok(()))
                &&& events[i + 1] is Failed ==> {
                    &&& actions[i + 1] == (Action::StopRecorder { pid })
                    &&& actions[i + 2] == Action::Remove(Mark::RecordingPid)
                    &&& actions[i + 3] == Action::Remove(Mark::LiveSession)
                    &&& actions[i + 4] == Action::End(Err(events[i + 1]->Failed_0))
                }
            } else {
                &&& actions[i] == (Action::StartLive { recorder: pid })
                &&& actions[i + 1] == Action::End(Ok(()))
            }
        }),
{
    lemma_plans(stages, events, actions, i);
    lemma_start_step(stages, events, actions, i - 1);
    lemma_start_step(stages, events, actions, i);
    lemma_start_step(stages, events, actions, i + 1);
    lemma_start_step(stages, events, actions, i + 2);
    lemma_start_step(stages, events, actions, i + 3);
    lemma_start_step(stages, events, actions, i + 4);
}

/// A failure ends a start with that failure: at once where no recorder was started yet;
/// after it was stopped, where its PID could not be written; and after the PID was
/// removed, where it was seen to have exited.
pub proof fn a_start_passes_its_failure_on(
    stages: Seq<StartStage>,
    events: Seq<Event>,
    actions: Seq<Action>,
    i: int,
)
    requires
        start_run(stages, events, actions),
        1 <= i,
        i + 1 < events.len(),
        events[i] is Failed,
        events[i + 1] is Done,
    ensures
        ({
            let failed = Action::End(Err(events[i]->Failed_0));
            &&& actions[i - 1] is ReadState || actions[i - 1] is Settle || actions[i - 1]
                is SaveSession || actions[i - 1] is Invalidate || actions[i - 1]
                is StartRecorder || actions[i - 1] == Action::Remove(Mark::StreamState)
                || actions[i - 1] == Action::Remove(Mark::RecordingWav) ==> actions[i] == failed
            &&& actions[i - 1] is WritePid ==> actions[i] == (Action::StopRecorder {
                pid: actions[i - 1]->WritePid_pid,
            }) && actions[i + 1] == failed
            &&& actions[i - 1] is ConfirmRecorder ==> actions[i] == Action::Remove(
                Mark::RecordingPid,
            ) && actions[i + 1] == failed
        }),
{
    lemma_start_step(stages, events, actions, i - 1);
    lemma_start_step(stages, events, actions, i);
    lemma_start_step(stages, events, actions, i + 1);
}

proof fn lemma_stop_step(
    paths: Paths,
    own: i32,
    stages: Seq<StopStage>,
    events: Seq<Event>,
    actions: Seq<Action>,
    i: int,
)
    requires
        stop_run(paths, own, stages, events, actions),
        0 <= i < events.len(),
    ensures
        stop_step(paths, own, stages[i], events[i], stages[i + 1], actions[i]),
{
}

/// The events bring a stop to the note that it transcribes, which event `n` answers: the
/// recording was found, its settings and its progress were read, and all went well.
pub open spec fn comes_to_transcribing(events: Seq<Event>, n: int) -> bool {
    &&& events.len() > n
    &&& events[0] is Begin
    &&& events[1] matches Event::State(State::Recording { .. })
    &&& events[2] is Session
    &&& events[3] is Progress
    &&& n == if events[2]->Session_0.config.backend == Backend::Deepgram
        && events[2]->Session_0.live {
        8int
    } else {
        9int
    }
    &&& forall|k: int| 4 <= k < n ==> #[trigger] events[k] is Done
}

/// A stop of a running recording reads its settings and its progress, takes live typing
/// its right to deliver, unless the recording is streamed, stops the recorder that runs,
/// removes the recorder's PID, marks the own process as transcribing and says so.
pub proof fn a_stop_stops_the_recorder(
    paths: Paths,
    own: i32,
    stages: Seq<StopStage>,
    events: Seq<Event>,
    actions: Seq<Action>,
    n: int,
)
    requires
        stop_run(paths, own, stages, events, actions),
        comes_to_transcribing(events, n),
    ensures
        ({
            let pid = events[1]->State_0->Recording_pid;
            &&& actions[0] is ReadState
            &&& actions[1] is ReadSession
            &&& actions[2] is ReadPreview
            &&& n == 9 ==> actions[3] == Action::Remove(Mark::LiveSession)
            &&& actions[n - 5] == (Action::StopRecorder { pid })
            &&& actions[n - 4] == Action::Remove(Mark::RecordingPid)
            &&& actions[n - 3] == (Action::WritePid { mark: Mark::TranscribingPid, pid: own })
            &&& actions[n - 2] == Action::Notify(Note::Transcribing)
            &&& stages[n - 1] matches StopStage::Telling(ending) && ending.settings
                == events[2]->Session_0 && ending.progress == events[3]->Progress_0
        }),
{
    lemma_stop_step(paths, own, stages, events, actions, 0);
    lemma_stop_step(paths, own, stages, events, actions, 1);
    lemma_stop_step(paths, own, stages, events, actions, 2);
    lemma_stop_step(paths, own, stages, events, actions, 3);
    lemma_stop_step(paths, own, stages, events, actions, 4);
    lemma_stop_step(paths, own, stages, events, actions, 5);
    lemma_stop_step(paths, own, stages, events, actions, 6);
    lemma_stop_step(paths, own, stages, events, actions, 7);
    assert(events[4] is Done && events[5] is Done && events[6] is Done && events[7] is Done);
}

/// A stop in any state but recording stops nothing: it says so and ends well.
pub proof fn a_stop_needs_a_recording(
    paths: Paths,
    own: i32,
    stages: Seq<StopStage>,
    events: Seq<Event>,
    actions: Seq<Action>,
)
    requires
        stop_run(paths, own, stages, events, actions),
        events.len() >= 3,
        events[0] is Begin,
        events[1] matches Event::State(state) && !(state is Recording),
    ensures
        actions[0] is ReadState,
        actions[1] == Action::Notify(Note::NotRecording),
        actions[2] == Action::End(Ok(())),
{
    lemma_stop_step(paths, own, stages, events, actions, 0);
    lemma_stop_step(paths, own, stages, events, actions, 1);
    lemma_stop_step(paths, own, stages, events, actions, 2);
}

/// A stopped recording is taken up where it was left: a streamed one by its stream, which
/// is asked to finish and then waited for without the lock; one that was typed live by
/// finishing that, from the progress that was read; and every other by transcribing it.
/// The first two end well, with the own mark removed, once they are done.
pub proof fn a_stopped_recording_is_taken_up(
    paths: Paths,
    own: i32,
    stages: Seq<StopStage>,
    events: Seq<Event>,
    actions: Seq<Action>,
    n: int,
)
    requires
        stop_run(paths, own, stages, events, actions),
        comes_to_transcribing(events, n),
        n + 3 < events.len(),
    ensures
        ({
            let settings = events[2]->Session_0;
            let streams = settings.config.backend == Backend::Deepgram && settings.live;
            let clear = Action::Remove(Mark::TranscribingPid);
            &&& streams ==> {
                &&& actions[n - 1] is RequestFinish
                &&& events[n] matches Event::Token(Some(session)) ==> {
                    &&& actions[n] is Unlock
                    &&& actions[n + 1] == (Action::FinishStream { session })
                    &&& events[n + 2] is Done ==> actions[n + 2] == clear && actions[n + 3]
                        == Action::End(Ok(()))
                }
            }
            &&& !streams ==> match events[3]->Progress_0 {
                Some(progress) => {
                    &&& actions[n - 1] == Action::FinishLive(progress)
                    &&& events[n] is Done ==> actions[n] == clear && actions[n + 1]
                        == Action::End(Ok(()))
                },
                None => actions[n - 1] is MeasureRecording,
            }
        }),
{
    a_stop_stops_the_recorder(paths, own, stages, events, actions, n);
    lemma_stop_step(paths, own, stages, events, actions, n - 1);
    lemma_stop_step(paths, own, stages, events, actions, n);
    lemma_stop_step(paths, own, stages, events, actions, n + 1);
    lemma_stop_step(paths, own, stages, events, actions, n + 2);
    lemma_stop_step(paths, own, stages, events, actions, n + 3);
}

/// Stopping says that nothing was recorded exactly where the recording is shorter than a
/// quarter of a second and its header. Any other recording, however long, is handed over
/// for its transcription as a whole: to the local daemon, at its socket and with two
/// minutes' time, or to Deepgram, with the settings that it was started with.
pub proof fn any_recording_of_some_length_is_transcribed(
    paths: Paths,
    own: i32,
    stages: Seq<StopStage>,
    events: Seq<Event>,
    actions: Seq<Action>,
    n: int,
    bytes: u64,
)
    requires
        stop_run(paths, own, stages, events, actions),
        comes_to_transcribing(events, n),
        n == 9,
        n + 2 < events.len(),
        events[3] == Event::Progress(None),
        events[n] == Event::Length(bytes),
    ensures
        ({
            let config = events[2]->Session_0.config;
            if bytes < 8044 {
                &&& actions[n] == Action::Notify(Note::NothingRecorded)
                &&& actions[n + 1] == Action::Remove(Mark::TranscribingPid)
                &&& actions[n + 2] == Action::End(Ok(()))
            } else {
                match config.backend {
                    Backend::Local => actions[n] matches Action::AskDaemon(exchange) && {
                        &&& exchange.socket@ == crate::paths::path_in(paths@, "asr.sock"@)
                        &&& exchange.audio_path@ == crate::paths::path_in(
                            paths@,
                            "recording.wav"@,
                        )
                        &&& exchange.read_timeout_ms == 120000
                        &&& !exchange.preview
                    },
                    Backend::Deepgram => actions[n] == Action::AskDeepgram(config),
                }
            }
        }),
{
    lemma_stop_step(paths, own, stages, events, actions, n - 1);
    lemma_stop_step(paths, own, stages, events, actions, n);
    lemma_stop_step(paths, own, stages, events, actions, n + 1);
    lemma_stop_step(paths, own, stages, events, actions, n + 2);
    a_stop_stops_the_recorder(paths, own, stages, events, actions, n);
}

/// The transcription of a stopped recording is put on the clipboard as one line and
/// pasted, the user is shown what was spilled, the recording is removed, and the stop
/// ends well with the own mark removed. A keystroke that fails is told of, with the
/// reason, and changes nothing else. A transcription that says nothing is told of, and
/// the recording stays.
pub proof fn the_transcription_is_spilled(
    paths: Paths,
    own: i32,
    stages: Seq<StopStage>,
    events: Seq<Event>,
    actions: Seq<Action>,
    i: int,
)
    requires
        stop_run(paths, own, stages, events, actions),
        1 <= i,
        i + 5 < events.len(),
        actions[i - 1] is AskDaemon || actions[i - 1] is AskDeepgram,
        events[i] is Transcribed,
        events[i + 1] is Done,
        events[i + 2] is Pasted || events[i + 2] is Failed,
        events[i + 3] is Done,
        events[i + 4] is Done,
    ensures
        ({
            let result = events[i]->Transcribed_0;
            let said = sanitized(result.text@);
            if said.len() == 0 {
                &&& actions[i] == Action::Notify(Note::NoSpeech)
                &&& actions[i + 1] == Action::Remove(Mark::TranscribingPid)
                &&& actions[i + 2] == Action::End(Ok(()))
            } else {
                &&& actions[i] matches Action::Copy(text) && text@ == said
                &&& actions[i + 1] is Paste
                &&& match events[i + 2] {
                    Event::Failed(failure) => actions[i + 2] matches Action::Notify(
                        Note::ClipboardOnly { reason },
                    ) && reason@ == failure.told(),
                    _ => actions[i + 2] matches Action::Notify(Note::Spilled { language, text })
                        && text@ == said && language == result.language,
                }
                &&& actions[i + 3] == Action::Remove(Mark::RecordingWav)
                &&& actions[i + 4] == Action::Remove(Mark::TranscribingPid)
                &&& actions[i + 5] == Action::End(Ok(()))
            }
        }),
{
    lemma_stop_step(paths, own, stages, events, actions, i - 1);
    lemma_stop_step(paths, own, stages, events, actions, i);
    lemma_stop_step(paths, own, stages, events, actions, i + 1);
    lemma_stop_step(paths, own, stages, events, actions, i + 2);
    lemma_stop_step(paths, own, stages, events, actions, i + 3);
    lemma_stop_step(paths, own, stages, events, actions, i + 4);
    lemma_stop_step(paths, own, stages, events, actions, i + 5);
}

/// A failure ends a stop with that failure: at once until the own mark was written, and
/// right after that was removed from then on. A keystroke that fails is no failure of the
/// stop, and a note or the release of the lock cannot fail.
pub proof fn a_stop_passes_its_failure_on(
    paths: Paths,
    own: i32,
    stages: Seq<StopStage>,
    events: Seq<Event>,
    actions: Seq<Action>,
    i: int,
)
    requires
        stop_run(paths, own, stages, events, actions),
        1 <= i,
        i + 1 < events.len(),
        events[i] is Failed,
        !(actions[i - 1] is Notify),
        !(actions[i - 1] is Paste),
        !(actions[i - 1] is Unlock),
        !(actions[i - 1] is End),
        actions[i - 1] != Action::Remove(Mark::TranscribingPid),
    ensures
        ({
            let failed = Action::End(Err(events[i]->Failed_0));
            let early = actions[i - 1] is ReadState || actions[i - 1] is ReadSession || actions[i
                - 1] is ReadPreview || actions[i - 1] is StopRecorder || actions[i - 1]
                is WritePid || actions[i - 1] == Action::Remove(Mark::LiveSession) || actions[i
                - 1] == Action::Remove(Mark::RecordingPid);
            if early {
                actions[i] == failed
            } else {
                actions[i] == Action::Remove(Mark::TranscribingPid) && actions[i + 1] == failed
            }
        }),
{
    lemma_stop_step(paths, own, stages, events, actions, i - 1);
    lemma_stop_step(paths, own, stages, events, actions, i);
    lemma_stop_step(paths, own, stages, events, actions, i + 1);
}

/// A cancel takes the session its right to deliver in every state. Of a recording it then
/// stops the recorder that runs, removes its PID and throws the audio away; of a stream
/// that is being drained it throws the audio and the stream's state away; and it says
/// that it cancelled. In every other state it says that nothing is recorded, and touches
/// nothing more.
pub proof fn a_cancel_drops_what_is_recorded(
    stages: Seq<CancelStage>,
    events: Seq<Event>,
    actions: Seq<Action>,
    n: int,
)
    requires
        cancel_run(stages, events, actions),
        events.len() >= n + 6,
        events[0] is Begin,
        events[1] is State,
        n == if events[1] == Event::State(State::Transcribing) {
            2int
        } else {
            1int
        },
        n == 2 ==> events[2] is Present,
        forall|k: int| n < k < events.len() ==> #[trigger] events[k] is Done,
    ensures
        actions[0] is ReadState,
        n == 2 ==> actions[1] == Action::Find(Mark::StreamState),
        actions[n] is Invalidate,
        ({
            let end = Action::End(Ok(()));
            if n == 2 && events[2] == Event::Present(true) {
                &&& actions[n + 1] == Action::Remove(Mark::RecordingWav)
                &&& actions[n + 2] == Action::Remove(Mark::StreamState)
                &&& actions[n + 3] == Action::Notify(Note::Cancelled)
                &&& actions[n + 4] == end
            } else {
                match events[1]->State_0 {
                    State::Recording { pid } => {
                        &&& actions[n + 1] == (Action::StopRecorder { pid })
                        &&& actions[n + 2] == Action::Remove(Mark::RecordingPid)
                        &&& actions[n + 3] == Action::Remove(Mark::RecordingWav)
                        &&& actions[n + 4] == Action::Notify(Note::Cancelled)
                        &&& actions[n + 5] == end
                    },
                    _ => actions[n + 1] == Action::Notify(Note::NotRecording) && actions[n + 2]
                        == end,
                }
            }
        }),
{
    assert((stages[1], actions[0]) == cancel_step(stages[0], events[0]));
    assert((stages[2], actions[1]) == cancel_step(stages[1], events[1]));
    assert((stages[3], actions[2]) == cancel_step(stages[2], events[2]));
    assert((stages[n + 1], actions[n]) == cancel_step(stages[n], events[n]));
    assert((stages[n + 2], actions[n + 1]) == cancel_step(stages[n + 1], events[n + 1]));
    assert((stages[n + 3], actions[n + 2]) == cancel_step(stages[n + 2], events[n + 2]));
    assert((stages[n + 4], actions[n + 3]) == cancel_step(stages[n + 3], events[n + 3]));
    assert((stages[n + 5], actions[n + 4]) == cancel_step(stages[n + 4], events[n + 4]));
    assert((stages[n + 6], actions[n + 5]) == cancel_step(stages[n + 5], events[n + 5]));
}

/// A failure ends a cancel with that failure, before anything more is touched.
pub proof fn a_cancel_passes_its_failure_on(
    stages: Seq<CancelStage>,
    events: Seq<Event>,
    actions: Seq<Action>,
    i: int,
)
    requires
        cancel_run(stages, events, actions),
        1 <= i < events.len(),
        events[i] is Failed,
        !(actions[i - 1] is Notify),
    ensures
        actions[i] == Action::End(Err(events[i]->Failed_0)),
{
    assert((stages[i], actions[i - 1]) == cancel_step(stages[i - 1], events[i - 1]));
    assert((stages[i + 1], actions[i]) == cancel_step(stages[i], events[i]));
}

/// The printed transcription is the text as it was published, or the error in its place;
/// and nothing where there is none.
pub proof fn the_preview_is_printed_as_it_is(
    preview: Option<Preview>,
    printed: Result<Option<String>, Failure>,
)
    requires
        prints(preview, printed),
    ensures
        preview is None ==> printed == Ok::<Option<String>, Failure>(None),
        preview matches Some(found) ==> match found.error {
            None => printed matches Ok(Some(text)) && text@ == found.text@,
            Some(error) => printed matches Err(failure) && failure.told() == error@,
        },
{
}

/// What the user waits for never blocks: workers, and commands that only read or change
/// settings, do without the command lock; the four that change what is recorded take it.
pub proof fn only_recording_commands_take_the_lock(command: Command)
    ensures
        command is LiveWorker || command is StreamWorker || command is Status || command
            is Preview || command is Configure ==> !command.takes_lock(),
        command is Toggle || command is Start || command is Stop || command is Cancel
            ==> command.takes_lock(),
{
}

}
