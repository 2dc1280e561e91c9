use textspill::command::{
    cmd_cancel, cmd_start, cmd_stop, preview_text, run, CancelStage, Command, Job, StartStage,
    StopStage, MIN_AUDIO_BYTES,
};
use textspill::config::{Backend, Config, SessionConfig};
use textspill::failure::Failure;
use textspill::host::{remove_if_present, Action, Event, Note, Removal};
use textspill::live::Preview;
use textspill::paths::{Mark, Paths};
use textspill::state::State;
use textspill::transcription::Transcription;

fn paths() -> Paths {
    Paths::for_test("/r".into())
}

fn settings(backend: Backend, live: bool) -> SessionConfig {
    let mut config = Config::default();
    config.backend = backend;
    SessionConfig { config, live }
}

fn starting(events: Vec<Event>) -> Vec<Action> {
    let mut stage = StartStage::Ready;
    let mut actions = Vec::new();
    for event in events {
        let (s, a) = cmd_start(stage, event);
        stage = s;
        actions.push(a);
    }
    actions
}

fn up_to_recording(settings: SessionConfig) -> Vec<Event> {
    vec![
        Event::Begin,
        Event::State(State::Idle),
        Event::Session(settings),
        Event::Done,
        Event::Done,
        Event::Done,
        Event::Done,
        Event::Started { pid: 7 },
    ]
}

fn failed(action: &Action) -> String {
    match action {
        Action::End(Err(e)) => e.message(),
        _ => panic!("expected a failure"),
    }
}

#[test]
fn commands_come_down_to_jobs() {
    let recording = State::Recording { pid: 1 };
    assert!(matches!(run(Command::Toggle, recording), Job::Stop));
    assert!(matches!(run(Command::Toggle, State::Idle), Job::Start));
    assert!(matches!(run(Command::Toggle, State::Transcribing), Job::Start));
    assert!(matches!(run(Command::Start, recording), Job::Start));
    assert!(matches!(run(Command::Stop, State::Idle), Job::Stop));
    assert!(matches!(run(Command::Cancel, State::Idle), Job::Cancel));
    assert!(matches!(run(Command::Status, State::Idle), Job::Status));
    assert!(matches!(run(Command::Preview { json: true }, recording), Job::Preview { json: true }));
    let live = Command::LiveWorker { session: "1-2".into(), recorder: 7 };
    assert!(matches!(run(live, State::Idle), Job::LiveWorker { recorder: 7, .. }));
    let configure = Command::Configure { backend: None };
    assert!(!configure.needs_paths() && !configure.locks());
    // Reading never blocks on a running transcription.
    assert!(!Command::Status.locks() && Command::Status.needs_paths());
    assert!(!Command::Preview { json: false }.locks());
    assert!(Command::Toggle.locks() && Command::Start.locks());
    assert!(Command::Stop.locks() && Command::Cancel.locks());
}

#[test]
fn a_preview_prints_its_text_or_fails_with_its_error() {
    assert_eq!(preview_text(None).unwrap(), None);
    let mut preview = Preview::blank(None, false);
    preview.text = "hej".into();
    assert_eq!(preview_text(Some(preview.clone())).unwrap().as_deref(), Some("hej"));
    preview.error = Some("boom".into());
    assert_eq!(preview_text(Some(preview)).unwrap_err().message(), "boom");
}

#[test]
fn a_second_start_changes_nothing() {
    let recording = Event::State(State::Recording { pid: 7 });
    let actions = starting(vec![Event::Begin, recording, Event::Done]);
    assert!(matches!(actions[1], Action::Notify(Note::AlreadyRecording)));
    assert!(matches!(actions[2], Action::End(Ok(()))));
    let transcribing = Event::State(State::Transcribing);
    let actions = starting(vec![Event::Begin, transcribing, Event::Done]);
    assert!(matches!(actions[1], Action::Notify(Note::StillTranscribing)));
}

#[test]
fn credentials_are_validated_before_audio_is_cleared() {
    let e = Event::Failed(Failure::UnusableKey);
    let actions = starting(vec![Event::Begin, Event::State(State::Idle), e]);
    assert!(matches!(actions[1], Action::Settle));
    assert!(matches!(actions[2], Action::End(Err(Failure::UnusableKey))));
}

#[test]
fn a_local_recording_is_followed_live() {
    let mut events = up_to_recording(settings(Backend::Local, true));
    events.extend([Event::Done, Event::Done, Event::Done]);
    events.push(Event::Failed(Failure::Reported("no worker".into())));
    let actions = starting(events);
    assert!(matches!(actions[2], Action::SaveSession(_)));
    assert!(matches!(actions[3], Action::Invalidate));
    assert!(matches!(actions[4], Action::Remove(Mark::StreamState)));
    assert!(matches!(actions[5], Action::Remove(Mark::RecordingWav)));
    assert!(matches!(actions[6], Action::StartRecorder));
    assert!(matches!(actions[7], Action::WritePid { mark: Mark::RecordingPid, pid: 7 }));
    assert!(matches!(actions[8], Action::Notify(Note::Recording)));
    assert!(matches!(actions[9], Action::ConfirmRecorder { pid: 7 }));
    assert!(matches!(actions[10], Action::StartLive { recorder: 7 }));
    // Recording goes on without live typing.
    assert!(matches!(actions[11], Action::End(Ok(()))));
}

#[test]
fn a_streamed_recording_needs_its_stream() {
    let mut events = up_to_recording(settings(Backend::Deepgram, true));
    events.extend([Event::Done, Event::Done, Event::Done]);
    events.push(Event::Failed(Failure::StreamWorkerNotStarted { cause: "x".into() }));
    events.extend([Event::Done, Event::Done, Event::Done]);
    let actions = starting(events);
    match &actions[10] {
        Action::StartStream { recorder: 7, language } => assert_eq!(language, "sv"),
        _ => panic!("expected a stream"),
    }
    assert!(matches!(actions[11], Action::StopRecorder { pid: 7 }));
    assert!(matches!(actions[12], Action::Remove(Mark::RecordingPid)));
    assert!(matches!(actions[13], Action::Remove(Mark::LiveSession)));
    assert_eq!(failed(&actions[14]), "could not start Deepgram worker: x");
    // Without live typing there is no stream.
    let mut events = up_to_recording(settings(Backend::Deepgram, false));
    events.extend([Event::Done, Event::Done, Event::Done]);
    assert!(matches!(starting(events)[10], Action::StartLive { .. }));
}

#[test]
fn a_failed_start_leaves_nothing_behind() {
    let mut events = up_to_recording(settings(Backend::Local, true));
    events.push(Event::Failed(Failure::Unwritten { path: "p".into(), cause: "full".into() }));
    events.push(Event::Done);
    let actions = starting(events);
    assert!(matches!(actions[8], Action::StopRecorder { pid: 7 }));
    assert_eq!(failed(&actions[9]), "failed to write p: full");
    let mut events = up_to_recording(settings(Backend::Local, true));
    events.extend([Event::Done, Event::Done]);
    events.push(Event::Failed(Failure::RecorderExited { reason: "".into() }));
    events.push(Event::Done);
    let actions = starting(events);
    assert!(matches!(actions[10], Action::Remove(Mark::RecordingPid)));
    assert_eq!(failed(&actions[11]), "pw-record exited immediately");
}

fn stopping(events: Vec<Event>) -> Vec<Action> {
    let mut stage = StopStage::Ready;
    let mut actions = Vec::new();
    for event in events {
        let (s, a) = cmd_stop(&paths(), 42, stage, event);
        stage = s;
        actions.push(a);
    }
    actions
}

/// The events that stop the recorder; the next answers the note on transcribing.
fn up_to_transcribing(settings: SessionConfig, progress: Option<Preview>) -> Vec<Event> {
    let streams = settings.streaming();
    let mut events = vec![
        Event::Begin,
        Event::State(State::Recording { pid: 7 }),
        Event::Session(settings),
        Event::Progress(progress),
    ];
    if !streams {
        events.push(Event::Done);
    }
    events.extend([Event::Done, Event::Done, Event::Done, Event::Done]);
    events
}

fn said(text: &str) -> Event {
    Event::Transcribed(Transcription { text: text.into(), language: Some("Swedish".into()) })
}

#[test]
fn nothing_recorded_is_nothing_to_stop() {
    let actions = stopping(vec![Event::Begin, Event::State(State::Transcribing), Event::Done]);
    assert!(matches!(actions[1], Action::Notify(Note::NotRecording)));
    assert!(matches!(actions[2], Action::End(Ok(()))));
}

#[test]
fn a_recording_is_transcribed_copied_and_pasted() {
    let mut events = up_to_transcribing(settings(Backend::Local, false), None);
    events.extend([Event::Length(MIN_AUDIO_BYTES), said("Kan du\nköra?"), Event::Done]);
    events.extend([Event::Pasted(true), Event::Done, Event::Done, Event::Done]);
    let actions = stopping(events);
    assert!(matches!(actions[3], Action::Remove(Mark::LiveSession)));
    assert!(matches!(actions[4], Action::StopRecorder { pid: 7 }));
    assert!(matches!(actions[5], Action::Remove(Mark::RecordingPid)));
    assert!(matches!(actions[6], Action::WritePid { mark: Mark::TranscribingPid, pid: 42 }));
    assert!(matches!(actions[7], Action::Notify(Note::Transcribing)));
    assert!(matches!(actions[8], Action::MeasureRecording));
    match &actions[9] {
        Action::AskDaemon(exchange) => {
            assert_eq!(exchange.socket, "/r/asr.sock");
            assert_eq!(exchange.audio_path, "/r/recording.wav");
            assert_eq!((exchange.preview, exchange.read_timeout_ms), (false, 120000));
        }
        _ => panic!("expected a question to the daemon"),
    }
    assert!(matches!(&actions[10], Action::Copy(text) if text == "Kan du köra?"));
    assert!(matches!(actions[11], Action::Paste));
    match &actions[12] {
        Action::Notify(note) => {
            assert_eq!(note.notice().summary, "Swedish: Kan du köra?");
        }
        _ => panic!("expected a note"),
    }
    assert!(matches!(actions[13], Action::Remove(Mark::RecordingWav)));
    assert!(matches!(actions[14], Action::Remove(Mark::TranscribingPid)));
    assert!(matches!(actions[15], Action::End(Ok(()))));
}

#[test]
fn a_failed_keystroke_leaves_the_text_on_the_clipboard() {
    let mut events = up_to_transcribing(settings(Backend::Local, false), None);
    events.extend([Event::Length(100000), said("hej"), Event::Done]);
    events.push(Event::Failed(Failure::NoPasteBackend { failures: vec!["x".into()] }));
    events.extend([Event::Done, Event::Done, Event::Done]);
    let actions = stopping(events);
    match &actions[12] {
        Action::Notify(Note::ClipboardOnly { reason }) => {
            assert_eq!(reason, "no paste backend worked (x)");
        }
        _ => panic!("expected a note"),
    }
    assert!(matches!(actions[13], Action::Remove(Mark::RecordingWav)));
    assert!(matches!(actions[15], Action::End(Ok(()))));
}

#[test]
fn failures_keep_the_recording_and_clear_the_mark() {
    let deepgram = || settings(Backend::Deepgram, false);
    let mut asked = up_to_transcribing(deepgram(), None);
    asked.extend([Event::Length(100000), Event::Failed(Failure::DeepgramTimeout), Event::Done]);
    let mut copied = up_to_transcribing(deepgram(), None);
    copied.extend([Event::Length(100000), said("hej")]);
    copied.extend([Event::Failed(Failure::ClipboardNotReady), Event::Done]);
    for events in [asked, copied] {
        let n = events.len();
        let actions = stopping(events);
        assert!(matches!(&actions[9], Action::AskDeepgram(c) if c.deepgram_language == "sv"));
        assert!(matches!(actions[n - 2], Action::Remove(Mark::TranscribingPid)));
        assert!(matches!(actions[n - 1], Action::End(Err(_))));
        assert!(!actions.iter().any(|a| matches!(a, Action::Remove(Mark::RecordingWav))));
    }
}

#[test]
fn a_recording_with_nothing_to_spill_stays() {
    let mut short = up_to_transcribing(settings(Backend::Local, false), None);
    short.extend([Event::Length(MIN_AUDIO_BYTES - 1), Event::Done, Event::Done]);
    let mut silent = up_to_transcribing(settings(Backend::Local, false), None);
    silent.extend([Event::Length(MIN_AUDIO_BYTES), said("\n"), Event::Done, Event::Done]);
    for (events, spoken) in [(short, false), (silent, true)] {
        let n = events.len();
        let actions = stopping(events);
        match &actions[n - 3] {
            Action::Notify(Note::NothingRecorded) => assert!(!spoken),
            Action::Notify(Note::NoSpeech) => assert!(spoken),
            _ => panic!("expected a note"),
        }
        assert!(matches!(actions[n - 2], Action::Remove(Mark::TranscribingPid)));
        assert!(matches!(actions[n - 1], Action::End(Ok(()))));
        assert!(!actions.iter().any(|a| matches!(a, Action::Remove(Mark::RecordingWav))));
        assert!(!actions.iter().any(|a| matches!(a, Action::Copy(_) | Action::Paste)));
    }
    assert_eq!(MIN_AUDIO_BYTES, 8044);
}

#[test]
fn live_typing_is_finished_where_it_left_off() {
    let mut progress = Preview::blank(None, false);
    progress.consumed_bytes = 48000;
    let mut events = up_to_transcribing(settings(Backend::Local, true), Some(progress));
    events.extend([Event::Failed(Failure::PasteUnconfirmed), Event::Done]);
    let actions = stopping(events);
    assert!(matches!(&actions[8], Action::FinishLive(p) if p.consumed_bytes == 48000));
    assert!(matches!(actions[9], Action::Remove(Mark::TranscribingPid)));
    assert!(matches!(actions[10], Action::End(Err(Failure::PasteUnconfirmed))));
}

#[test]
fn a_stream_is_drained_without_the_lock() {
    let mut events = up_to_transcribing(settings(Backend::Deepgram, true), None);
    events.extend([Event::Token(Some("1-2".into())), Event::Done, Event::Done, Event::Done]);
    let actions = stopping(events);
    // The stream keeps its right to deliver.
    assert!(!actions.iter().any(|a| matches!(a, Action::Remove(Mark::LiveSession))));
    assert!(matches!(actions[7], Action::RequestFinish));
    assert!(matches!(actions[8], Action::Unlock));
    assert!(matches!(&actions[9], Action::FinishStream { session } if session == "1-2"));
    assert!(matches!(actions[10], Action::Remove(Mark::TranscribingPid)));
    assert!(matches!(actions[11], Action::End(Ok(()))));
}

fn cancelling(events: Vec<Event>) -> Vec<Action> {
    let mut stage = CancelStage::Ready;
    let mut actions = Vec::new();
    for event in events {
        let (s, a) = cmd_cancel(stage, event);
        stage = s;
        actions.push(a);
    }
    actions
}

#[test]
fn cancelling_throws_the_audio_away() {
    let mut events = vec![Event::Begin, Event::State(State::Recording { pid: 7 })];
    events.extend((0..5).map(|_| Event::Done));
    let actions = cancelling(events);
    assert!(matches!(actions[1], Action::Invalidate));
    assert!(matches!(actions[2], Action::StopRecorder { pid: 7 }));
    assert!(matches!(actions[3], Action::Remove(Mark::RecordingPid)));
    assert!(matches!(actions[4], Action::Remove(Mark::RecordingWav)));
    assert!(matches!(actions[5], Action::Notify(Note::Cancelled)));
    assert!(matches!(actions[6], Action::End(Ok(()))));
}

#[test]
fn cancelling_a_drain_drops_the_stream() {
    let mut events = vec![Event::Begin, Event::State(State::Transcribing), Event::Present(true)];
    events.extend((0..4).map(|_| Event::Done));
    let actions = cancelling(events);
    assert!(matches!(actions[1], Action::Find(Mark::StreamState)));
    assert!(matches!(actions[2], Action::Invalidate));
    assert!(matches!(actions[3], Action::Remove(Mark::RecordingWav)));
    assert!(matches!(actions[4], Action::Remove(Mark::StreamState)));
    assert!(matches!(actions[5], Action::Notify(Note::Cancelled)));
}

#[test]
fn cancelling_keeps_the_audio_of_another_transcription() {
    let events = vec![
        Event::Begin,
        Event::State(State::Transcribing),
        Event::Present(false),
        Event::Done,
        Event::Done,
    ];
    let actions = cancelling(events);
    assert!(matches!(actions[3], Action::Notify(Note::NotRecording)));
    assert!(matches!(actions[4], Action::End(Ok(()))));
    let actions = cancelling(vec![Event::Begin, Event::State(State::Idle), Event::Done]);
    assert!(matches!(actions[2], Action::Notify(Note::NotRecording)));
    let e = Event::Failed(Failure::RecorderStuck { pid: 7 });
    let recording = Event::State(State::Recording { pid: 7 });
    let actions = cancelling(vec![Event::Begin, recording, Event::Done, e]);
    assert_eq!(failed(&actions[3]), "pw-record (pid 7) would not exit");
}

#[test]
fn a_file_that_is_gone_counts_as_removed() {
    assert!(remove_if_present("/r/x", Removal::Removed).is_ok());
    assert!(remove_if_present("/r/x", Removal::Missing).is_ok());
    let e = remove_if_present("/r/x", Removal::Failed("EBUSY".into())).unwrap_err();
    assert_eq!(e.message(), "failed to remove /r/x: EBUSY");
}
