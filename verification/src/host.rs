//! What the commands and the workers ask of the system they run on, and what it
//! answers. Each of them is a machine that decides the next action from its
//! stage and the answer to the last one.

use crate::config::{Config, SessionConfig};
use crate::deepgram::{StreamRequest, StreamResult};
use crate::failure::Failure;
use crate::ipc::Exchange;
use crate::live::Preview;
use crate::notify::{self, Notice, Urgency};
use crate::paths::Mark;
use crate::state::State;
use crate::stream::StreamState;
use crate::text::{maybe, to_text};
use crate::transcription::Transcription;
use crate::wav::Frame;
use vstd::prelude::*;
use vstd::string::*;

verus! {

/// What the user is told on the way.
pub enum Note {
    Recording,
    Transcribing,
    Cancelled,
    AlreadyRecording,
    StillTranscribing,
    NotRecording,
    NothingRecorded,
    NoSpeech,
    Spilled { language: Option<String>, text: String },
    ClipboardOnly { reason: String },
    LiveStopped,
    PreviewUnavailable,
    StreamStopped,
}

impl Note {
    /// What a note without more to it than its summary says.
    pub open spec fn summary(self) -> Seq<char> {
        match self {
            Note::Recording => "🎙 Recording"@,
            Note::Transcribing => "Transcribing…"@,
            Note::Cancelled => "Recording cancelled"@,
            Note::AlreadyRecording => "Already recording"@,
            Note::StillTranscribing => "Still transcribing"@,
            Note::NotRecording => "Not recording"@,
            Note::NothingRecorded => "Nothing recorded"@,
            Note::NoSpeech => "No speech detected"@,
            Note::Spilled { language, text } => notify::spilled_summary(maybe(language), text@),
            Note::ClipboardOnly { .. } => "Text is on the clipboard"@,
            Note::LiveStopped => "Live typing stopped; audio kept for recovery"@,
            Note::PreviewUnavailable => "Live preview unavailable; recording continues"@,
            Note::StreamStopped => "Deepgram live typing stopped; audio kept for recovery"@,
        }
    }

    /// How much the note wants attention.
    pub open spec fn urgency(self) -> Urgency {
        match self {
            Note::Recording => Urgency::Low,
            Note::Transcribing => Urgency::Low,
            Note::Cancelled => Urgency::Low,
            Note::ClipboardOnly { .. } => Urgency::Critical,
            _ => Urgency::Normal,
        }
    }

    /// What a note says beyond its summary.
    pub open spec fn body(self) -> Seq<char> {
        match self {
            Note::ClipboardOnly { reason } => "Paste it manually with Shift+Insert — "@ + reason@,
            _ => ""@,
        }
    }

    /// The notification that shows the note.
    pub fn notice(&self) -> (notice: Notice)
        ensures
            notice.shows(
                self.urgency(),
                self.summary(),
                self.body(),
            ),
    {
        match self {
            Note::Recording => notify::recording(),
            Note::Transcribing => notify::transcribing(),
            Note::Cancelled => notify::cancelled(),
            Note::AlreadyRecording => notify::info("Already recording"),
            Note::StillTranscribing => notify::info("Still transcribing"),
            Note::NotRecording => notify::info("Not recording"),
            Note::NothingRecorded => notify::info("Nothing recorded"),
            Note::NoSpeech => notify::info("No speech detected"),
            Note::Spilled { language, text } => notify::spilled(
                match language {
                    Some(language) => Some(language.as_str()),
                    None => None,
                },
                text.as_str(),
            ),
            Note::ClipboardOnly { reason } => notify::clipboard_only(reason.as_str()),
            Note::LiveStopped => notify::info("Live typing stopped; audio kept for recovery"),
            Note::PreviewUnavailable => notify::info(
                "Live preview unavailable; recording continues",
            ),
            Note::StreamStopped => notify::info(
                "Deepgram live typing stopped; audio kept for recovery",
            ),
        }
    }
}

/// The two kinds of detached worker.
#[derive(Clone, Copy, Debug, PartialEq, Eq, Structural)]
pub enum Worker {
    Live,
    Stream,
}

/// What goes over a stream.
pub enum Payload {
    Audio(Vec<u8>),
    /// No more audio will come.
    CloseStream,
    /// Nothing to say, but still there.
    KeepAlive,
    Pong(Vec<u8>),
}

impl Payload {
    /// The text of a payload that is text.
    pub open spec fn text(self) -> Option<Seq<char>> {
        match self {
            Payload::CloseStream => Some("{\"type\":\"CloseStream\"}"@),
            Payload::KeepAlive => Some("{\"type\":\"KeepAlive\"}"@),
            _ => None,
        }
    }

    /// The text of a payload that is text.
    pub fn as_text(&self) -> (text: Option<&'static str>)
        ensures
            match text {
                Some(text) => self.text() == Some(text@),
                None => self.text() is None,
            },
    {
        match self {
            Payload::CloseStream => Some("{\"type\":\"CloseStream\"}"),
            Payload::KeepAlive => Some("{\"type\":\"KeepAlive\"}"),
            _ => None,
        }
    }
}

/// What is asked of the system. Where nothing else is said, it answers `Done`,
/// or `Failed` where that can happen.
pub enum Action {
    /// Derive the state from the PID files; answered by `State`.
    ReadState,
    /// Settle the settings from their file and the environment; answered by
    /// `Session`.
    Settle,
    SaveSession(SessionConfig),
    /// Read the settings that the recording was started with; answered by
    /// `Session`.
    ReadSession,
    /// Read the provisional transcription of the running recording; answered by
    /// `Progress`.
    ReadPreview,
    /// Read the provisional transcription that a worker left; answered by
    /// `Progress`.
    LoadPreview,
    Publish(Preview),
    /// Answered by `Started`.
    StartRecorder,
    StopRecorder { pid: i32 },
    /// Give the recorder a moment, then see that it still runs.
    ConfirmRecorder { pid: i32 },
    /// Answered by `Running`.
    LookRecorder { pid: i32 },
    /// Whether the worker still runs; answered by `Running`.
    LookWorker { pid: i32 },
    WritePid { mark: Mark, pid: i32 },
    /// Remove the file, if it is there.
    Remove(Mark),
    /// Remove what gives a live session the right to deliver, then what it
    /// published.
    Invalidate,
    /// Whether the file is there; answered by `Present`.
    Find(Mark),
    /// How long the recording is; answered by `Length`.
    MeasureRecording,
    /// Never fails: notifications are advisory.
    Notify(Note),
    StartLive { recorder: i32 },
    StartStream { recorder: i32, language: String },
    /// Answered by `Clock`.
    AskClock,
    WriteToken(String),
    OpenLog,
    /// Answered by `Started`, or `NotSpawned`.
    Spawn { worker: Worker, session: String, recorder: i32 },
    /// Read the token of the session that may deliver; answered by `Token`.
    ReadToken,
    /// Read that token, and look whether the recorder runs; answered by `Watch`.
    Watch { recorder: i32 },
    /// Answered by `Stream`.
    ReadStream,
    SaveStream(StreamState),
    /// Ask the stream's worker to finish; answered by `Token`.
    RequestFinish,
    FinishStream { session: String },
    FinishLive(Preview),
    Lock,
    Unlock,
    Sleep { ms: u64 },
    OpenRecording,
    /// Read PCM from there on; answered by `Heard`.
    Snapshot { from: u64 },
    /// Write the PCM to a WAV file of its own.
    WriteSnapshot(Vec<u8>),
    /// Never fails: a snapshot that stays is harmless.
    RemoveSnapshot,
    /// Ask the daemon; answered by `Transcribed`.
    AskDaemon(Exchange),
    /// Ask Deepgram about the recording; answered by `Transcribed`.
    AskDeepgram(Config),
    Copy(String),
    /// Answered by `Pasted`.
    Paste,
    /// Stream the recording with these settings; answered by `Ran`.
    Run(SessionConfig),
    /// Answered by `Connected`.
    Connect(StreamRequest),
    /// Answered by `Tick`, or by what came over the stream.
    Await,
    /// Answered by `Sent`.
    Send(Payload),
    /// Read a streaming result; answered by `Parsed`.
    Parse(Vec<u8>),
    End(Result<(), Failure>),
}

/// What the system answers.
pub enum Event {
    /// The first answer, to no question.
    Begin,
    Done,
    Failed(Failure),
    State(State),
    Session(SessionConfig),
    Progress(Option<Preview>),
    Started { pid: i32 },
    NotSpawned { cause: String },
    Running { running: bool, waited_ms: u64 },
    Present(bool),
    Length(u64),
    /// The own PID, and the time since the epoch.
    Clock { process: u32, nanos: u128 },
    /// What the token file holds, if it can be read.
    Token(Option<String>),
    Watch { token: Option<String>, running: bool },
    Stream(StreamState),
    Heard(Option<Frame>),
    Transcribed(Transcription),
    /// Whether a backend sent the keystroke; `false` where pasting is disabled.
    Pasted(bool),
    /// How streaming went, and how far it came.
    Ran { progress: Preview, result: Result<(), Failure> },
    Connected { now_ms: u64 },
    Tick { now_ms: u64 },
    Sent { now_ms: u64 },
    /// A text message came.
    Text(Vec<u8>),
    Ping(Vec<u8>),
    /// The stream was closed.
    Closed,
    /// The stream broke.
    Broke,
    /// Some other message came.
    Noise,
    Parsed(Result<StreamResult, String>),
}

/// What is heard is `source`.
pub open spec fn hears(source: Seq<u8>, events: Seq<Event>) -> bool {
    forall|i: int|
        0 <= i < events.len() ==> (#[trigger] events[i] matches Event::Heard(Some(frame)) ==> {
            &&& frame.start <= frame.end <= source.len()
            &&& frame.pcm@ == source.subrange(frame.start as int, frame.end as int)
        })
}

/// Where no audio is heard, none is left: `source` holds no whole sample beyond what was
/// asked for.
pub open spec fn hears_to_the_end(
    source: Seq<u8>,
    events: Seq<Event>,
    actions: Seq<Action>,
) -> bool {
    forall|i: int|
        0 < i < events.len() ==> (#[trigger] events[i] == Event::Heard(None) ==> (actions[i - 1]
            matches Action::Snapshot { from } ==> source.len() - source.len() % 2 <= from))
}

/// The name of the hidden command that runs a worker.
pub open spec fn worker_command(worker: Worker) -> Seq<char> {
    match worker {
        Worker::Live => "live-worker"@,
        Worker::Stream => "stream-worker"@,
    }
}

/// The arguments that start a worker.
pub open spec fn arguments_of(worker: Worker, session: Seq<char>, recorder: int) -> Seq<Seq<char>> {
    seq![
        worker_command(worker),
        session,
        crate::number::signed_decimal(recorder),
    ]
}

/// The arguments that start a worker.
pub fn worker_args(worker: Worker, session: &str, recorder: i32) -> (args: Vec<String>)
    ensures
        crate::text::texts(args@) == arguments_of(worker, session@, recorder as int),
{
    let command = match worker {
        Worker::Live => "live-worker",
        Worker::Stream => "stream-worker",
    };
    let args = vec![
        to_text(command),
        to_text(session),
        crate::number::signed_decimal_text(recorder),
    ];
    assert(crate::text::texts(args@) =~= seq![
        worker_command(worker),
        session@,
        crate::number::signed_decimal(recorder as int),
    ]);
    args
}

/// What trying to remove a file came to.
pub enum Removal {
    Removed,
    /// There was no such file.
    Missing,
    Failed(String),
}

/// What trying to remove the file at `path` comes to.
pub open spec fn removes(path: Seq<char>, removal: Removal, r: Result<(), Failure>) -> bool {
    match removal {
        Removal::Failed(cause) => r matches Err(failure) && failure matches
            Failure::Unremoved { path: p, cause: c } && p@ == path && c == cause,
        _ => r is Ok,
    }
}

/// Judges how removing `path` went: a file that is not there is as good as one
/// that was removed.
pub fn remove_if_present(path: &str, removal: Removal) -> (r: Result<(), Failure>)
    ensures
        removes(path@, removal, r),
{
    match removal {
        Removal::Failed(cause) => Err(Failure::Unremoved { path: to_text(path), cause }),
        _ => Ok(()),
    }
}

/// A worker is started with its command, its session and its recorder, in this order, and
/// the two kinds of worker by different commands.
pub proof fn a_worker_is_told_its_session(worker: Worker, session: Seq<char>, recorder: int)
    ensures
        arguments_of(worker, session, recorder).len() == 3,
        arguments_of(worker, session, recorder)[0] == match worker {
            Worker::Live => "live-worker"@,
            Worker::Stream => "stream-worker"@,
        },
        arguments_of(worker, session, recorder)[1] == session,
        arguments_of(worker, session, recorder)[2] == crate::number::signed_decimal(recorder),
{
}

/// A file counts as removed exactly where removing it did not fail, also where there was
/// none; a failure is told with the path and the cause.
pub proof fn a_missing_file_counts_as_removed(
    path: Seq<char>,
    removal: Removal,
    r: Result<(), Failure>,
)
    requires
        removes(path, removal, r),
    ensures
        r is Err <==> removal is Failed,
        removal matches Removal::Failed(cause) ==> (r matches Err(failure) && failure.told()
            == "failed to remove "@ + path + ": "@ + cause@),
{
}

/// What was spilled is shown as the notification of a transcript shows it, and a text that
/// is only on the clipboard with the reason, which wants the most attention.
pub proof fn a_note_shows_what_it_tells(note: Note)
    ensures
        note matches Note::Spilled { language, text } ==> note.summary()
            == notify::spilled_summary(maybe(language), text@) && note.body().len() == 0
            && note.urgency() == Urgency::Normal,
        note matches Note::ClipboardOnly { reason } ==> note.summary()
            == "Text is on the clipboard"@ && note.body()
            == "Paste it manually with Shift+Insert — "@ + reason@ && note.urgency()
            == Urgency::Critical,
        !(note is ClipboardOnly) ==> note.body().len() == 0 && note.urgency() != Urgency::Critical,
{
    reveal_strlit("");
}

}
