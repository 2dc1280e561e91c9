use textspill::config::Stored;
use textspill::failure::Failure;
use textspill::host::{Action, Event, Note, Worker, worker_args};
use textspill::live::{
    active, finish, invalidate, is_valid_token, mint, read, start, transcribe_segment, worker,
    FinishStage, LaunchStage, LiveWorker, Preview, WorkerStage,
};
use textspill::paths::{Mark, Paths};
use textspill::state::State;
use textspill::transcription::Transcription;
use textspill::wav::{Frame, WavFault, WINDOW_BYTES};

fn paths() -> Paths {
    Paths::for_test("/r".into())
}

fn watch(token: &str, running: bool) -> Event {
    Event::Watch { token: Some(token.into()), running }
}

fn said(text: &str) -> Event {
    Event::Transcribed(Transcription { text: text.into(), language: None })
}

/// Tells a worker one event after the other, and hands out the last action.
fn drive(
    mut live: LiveWorker,
    mut stage: WorkerStage,
    events: Vec<Event>,
) -> (LiveWorker, WorkerStage, Action) {
    let mut last = Action::Unlock;
    for event in events {
        let (l, s, a) = worker(&paths(), live, stage, event);
        live = l;
        stage = s;
        last = a;
    }
    (live, stage, last)
}

fn ready() -> (LiveWorker, WorkerStage) {
    (LiveWorker::new("1-2".into(), 7), WorkerStage::Ready)
}

fn speech(start: u64, bytes: usize) -> Event {
    let pcm = [0xff, 0x20].repeat(bytes / 2);
    Event::Heard(Some(Frame { start, end: start + bytes as u64, pcm }))
}

/// The events that bring a worker to its first segment, with the lock still to be
/// taken.
fn up_to_lock() -> Vec<Event> {
    vec![
        Event::Begin,
        watch("1-2", true),
        Event::Done,
        watch("1-2", true),
        Event::Done,
        speech(0, 128000),
        Event::Done,
        said("hej"),
    ]
}

#[test]
fn tokens_are_digits_and_dashes() {
    assert_eq!(mint(4242, 1234567890123456789), "4242-1234567890123456789");
    assert!(is_valid_token(&mint(u32::MAX, u128::MAX)));
    assert!(is_valid_token("-"));
    assert!(is_valid_token(&"1".repeat(80)));
    for bad in ["", "../x", "1/2", "1 2", "a", "１"] {
        assert!(!is_valid_token(bad), "{bad:?}");
    }
    assert!(!is_valid_token(&"1".repeat(81)));
    // Different processes and times make different tokens.
    assert_ne!(mint(1, 23), mint(12, 3));
}

#[test]
fn a_session_is_active_with_its_token_and_recorder() {
    let token = Some("1-2".to_string());
    assert!(active("1-2", &token, true));
    assert!(!active("1-2", &token, false));
    assert!(!active("1-3", &token, true));
    assert!(!active("1-2", &None, true));
    assert_eq!(invalidate(&paths()), ["/r/live-session", "/r/preview.json"]);
}

#[test]
fn the_preview_is_only_read_while_recording() {
    let recording = State::Recording { pid: 1 };
    let some = || Stored::Value(Preview::blank(None, false));
    assert!(read(State::Idle, some()).unwrap().is_none());
    assert!(read(State::Transcribing, Stored::Malformed("x".into())).unwrap().is_none());
    assert!(read(recording, Stored::Missing).unwrap().is_none());
    assert!(read(recording, some()).unwrap().is_some());
    let e = read(recording, Stored::Malformed("EOF".into())).unwrap_err();
    assert_eq!(e.message(), "EOF");
    assert!(read(recording, Stored::Unreadable("EIO".into())).is_err());
}

#[test]
fn silence_is_not_asked_about() {
    assert!(transcribe_segment(&paths(), "1-2", &[0; 10]).is_none());
    let ask = transcribe_segment(&paths(), "1-2", &[0, 1]).unwrap();
    assert_eq!(ask.socket, "/r/asr.sock");
    assert_eq!(ask.audio_path, "/r/preview-1-2.wav");
    assert!(ask.preview);
}

#[test]
fn starting_writes_the_token_before_the_worker_runs() {
    let (stage, action) = start(true, 7, LaunchStage::Ready, Event::Begin);
    assert!(matches!(action, Action::Invalidate));
    let (stage, _) = start(true, 7, stage, Event::Done);
    let (stage, action) = start(true, 7, stage, Event::Clock { process: 5, nanos: 6 });
    assert!(matches!(action, Action::WriteToken(token) if token == "5-6"));
    let (stage, action) = start(true, 7, stage, Event::Done);
    assert!(matches!(action, Action::OpenLog));
    let (stage, action) = start(true, 7, stage, Event::Done);
    match action {
        Action::Spawn { worker, session, recorder } => {
            assert_eq!(worker_args(worker, &session, recorder), ["live-worker", "5-6", "7"]);
        }
        _ => panic!("expected a worker"),
    }
    let (_, action) = start(true, 7, stage, Event::Started { pid: 8 });
    assert!(matches!(action, Action::End(Ok(()))));
    assert_eq!(worker_args(Worker::Stream, "a", -1), ["stream-worker", "a", "-1"]);
}

#[test]
fn a_worker_that_does_not_start_leaves_no_session() {
    let (stage, action) =
        start(true, 7, LaunchStage::Spawning, Event::NotSpawned { cause: "ENOMEM".into() });
    assert!(matches!(action, Action::Invalidate));
    match start(true, 7, stage, Event::Done).1 {
        Action::End(Err(e)) => {
            assert_eq!(e.message(), "could not start live preview worker: ENOMEM");
        }
        _ => panic!("expected a failure"),
    }
    // Switched off, nothing but the invalidation happens.
    let (stage, _) = start(false, 7, LaunchStage::Ready, Event::Begin);
    assert!(matches!(start(false, 7, stage, Event::Done).1, Action::End(Ok(()))));
}

#[test]
fn a_worker_with_a_bad_token_does_nothing() {
    let live = LiveWorker::new("../etc".into(), 7);
    match worker(&paths(), live, WorkerStage::Ready, Event::Begin).2 {
        Action::End(Err(e)) => assert_eq!(e.message(), "invalid live session token"),
        _ => panic!("expected a failure"),
    }
}

#[test]
fn a_segment_is_delivered_under_the_lock() {
    let (live, stage) = ready();
    let (live, stage, action) = drive(live, stage, up_to_lock());
    assert!(matches!(action, Action::Lock));
    let (live, stage, action) = drive(live, stage, vec![Event::Done]);
    assert!(matches!(action, Action::Watch { recorder: 7 }));
    let (live, stage, action) = drive(live, stage, vec![watch("1-2", true)]);
    assert!(matches!(action, Action::Copy(text) if text == "hej"));
    let events = vec![Event::Done, Event::Done, Event::Pasted(true), Event::Done];
    let (live, stage, action) = drive(live, stage, events);
    assert!(matches!(action, Action::Unlock));
    assert_eq!((live.progress.text.as_str(), live.progress.consumed_bytes), ("hej", 128000));
    // The next round reads on from there.
    let events = vec![Event::Done, watch("1-2", true), Event::Done, watch("1-2", true)];
    let (_, _, action) = drive(live, stage, events);
    assert!(matches!(action, Action::Snapshot { from: 128000 }));
}

#[test]
fn line_breaks_are_never_typed() {
    let (live, stage) = ready();
    let mut events = up_to_lock();
    events.pop();
    events.extend([said("rm -rf /\nyes\r\n"), Event::Done, watch("1-2", true)]);
    let (_, _, action) = drive(live, stage, events);
    assert!(matches!(action, Action::Copy(text) if text == "rm -rf / yes"));
}

#[test]
fn a_late_reply_is_not_typed_after_stop() {
    let (live, stage) = ready();
    let mut events = up_to_lock();
    events.push(Event::Done);
    events.push(watch("9-9", true));
    let (live, stage, action) = drive(live, stage, events);
    assert!(matches!(action, Action::Unlock));
    let (live, stage, action) = drive(live, stage, vec![Event::Done]);
    assert!(matches!(action, Action::RemoveSnapshot));
    let (live, _, action) = drive(live, stage, vec![Event::Done]);
    assert!(matches!(action, Action::End(Ok(()))));
    assert!(live.progress.text.is_empty());
}

#[test]
fn a_worker_waits_for_a_segment() {
    let (live, stage) = ready();
    let mut events = up_to_lock();
    events.truncate(5);
    events.push(speech(0, 32000));
    let (live, stage, action) = drive(live, stage, events);
    assert!(matches!(action, Action::Watch { .. }));
    assert!(matches!(stage, WorkerStage::Checking));
    let (_, _, action) = drive(live, stage, vec![watch("1-2", false)]);
    assert!(matches!(action, Action::RemoveSnapshot));
}

#[test]
fn silence_takes_no_daemon() {
    let (live, stage) = ready();
    let mut events = up_to_lock();
    events.truncate(5);
    let pcm = vec![0; 64000];
    events.push(Event::Heard(Some(Frame { pcm, start: 0, end: 64000 })));
    let (live, stage, action) = drive(live, stage, events);
    assert!(matches!(action, Action::WriteSnapshot(pcm) if pcm.len() == 64000));
    let events = vec![Event::Done, Event::Done, watch("1-2", true)];
    let (live, _, action) = drive(live, stage, events);
    assert!(matches!(action, Action::Publish(p) if p.consumed_bytes == 64000));
    assert_eq!(live.progress.consumed_bytes, 64000);
}

#[test]
fn a_failed_delivery_is_published_and_stops_live_typing() {
    let (live, stage) = ready();
    let mut events = up_to_lock();
    events.extend([Event::Done, watch("1-2", true), Event::Done, Event::Done]);
    events.push(Event::Failed(Failure::NoPasteBackend { failures: vec!["x".into()] }));
    let (live, stage, action) = drive(live, stage, events);
    match action {
        Action::Publish(p) => {
            assert_eq!(p.error.as_deref(), Some("no paste backend worked (x)"));
            assert!(p.delivery_pending);
        }
        _ => panic!("expected a publication"),
    }
    let (live, stage, action) = drive(live, stage, vec![Event::Done]);
    assert!(matches!(action, Action::Notify(Note::LiveStopped)));
    let (_, _, action) = drive(live, stage, vec![Event::Done, Event::Done, Event::Done]);
    assert!(matches!(action, Action::End(Ok(()))));
}

#[test]
fn a_failed_transcription_is_told_and_recording_continues() {
    let (live, stage) = ready();
    let mut events = up_to_lock();
    events.pop();
    events.push(Event::Failed(Failure::NoReply));
    let (live, stage, action) = drive(live, stage, events);
    assert!(matches!(action, Action::Lock));
    let (live, stage, action) = drive(live, stage, vec![Event::Done, watch("1-2", true)]);
    assert!(matches!(action, Action::ReadPreview));
    let (live, stage, action) = drive(live, stage, vec![Event::Progress(None)]);
    match action {
        Action::Publish(p) => {
            let message = "ASR daemon closed the connection without replying";
            assert_eq!(p.error.as_deref(), Some(message));
            assert!(p.provisional && p.text.is_empty());
        }
        _ => panic!("expected a publication"),
    }
    let (_, _, action) = drive(live, stage, vec![Event::Done]);
    assert!(matches!(action, Action::Notify(Note::PreviewUnavailable)));
}

#[test]
fn a_bad_capture_is_told_too() {
    let (live, stage) = ready();
    let mut events = up_to_lock();
    events.truncate(5);
    events.push(Event::Failed(Failure::BadCapture { fault: WavFault::NotRiff }));
    let (_, stage, action) = drive(live, stage, events);
    assert!(matches!(action, Action::Lock));
    match stage {
        WorkerStage::ErrorLocking(message) => assert_eq!(message, "capture is not a RIFF WAV"),
        _ => panic!("expected an error"),
    }
}

#[test]
fn an_unopened_recording_is_tried_again() {
    let (live, stage) = ready();
    let mut events = up_to_lock();
    events.truncate(4);
    events.push(Event::Failed(Failure::Reported("ENOENT".into())));
    let (live, stage, action) = drive(live, stage, events);
    assert!(matches!(stage, WorkerStage::Checking));
    assert!(matches!(action, Action::Watch { .. }));
    assert!(!live.opened);
}

fn finishing(
    mut progress: Preview,
    events: Vec<Event>,
) -> (Preview, FinishStage, Vec<Action>) {
    let mut stage = FinishStage::Ready;
    let mut actions = Vec::new();
    for event in events {
        let (p, s, a) = finish(&paths(), progress, stage, event);
        progress = p;
        stage = s;
        actions.push(a);
    }
    (progress, stage, actions)
}

#[test]
fn finishing_types_only_what_is_left() {
    let mut progress = Preview::blank(Some("Swedish".into()), false);
    progress.text = "hej".into();
    progress.consumed_bytes = 128000;
    let (progress, _, actions) = finishing(
        progress,
        vec![
            Event::Begin,
            Event::Done,
            speech(128000, 1000),
            Event::Done,
            said("på dig"),
            Event::Done,
            Event::Done,
            Event::Pasted(true),
            Event::Done,
            Event::Heard(None),
            Event::Done,
            Event::Done,
            Event::Done,
            Event::Done,
            Event::Done,
        ],
    );
    assert_eq!(progress.text, "hej på dig");
    assert!(matches!(actions[0], Action::OpenRecording));
    assert!(matches!(actions[1], Action::Snapshot { from: 128000 }));
    assert!(matches!(&actions[3], Action::AskDaemon(e) if e.audio_path == "/r/preview-final.wav"));
    assert!(matches!(&actions[4], Action::Copy(text) if text == " på dig"));
    assert!(matches!(actions[8], Action::Snapshot { from: 129000 }));
    // The whole text stays available, but is not pasted again.
    assert!(matches!(&actions[9], Action::Copy(text) if text == "hej på dig"));
    assert!(matches!(&actions[10], Action::Notify(Note::Spilled { .. })));
    assert!(matches!(actions[11], Action::Remove(Mark::RecordingWav)));
    assert!(matches!(actions[12], Action::Remove(Mark::Preview)));
    assert!(matches!(actions[13], Action::RemoveSnapshot));
    assert!(matches!(actions[14], Action::End(Ok(()))));
    assert_eq!(actions.iter().filter(|a| matches!(a, Action::Paste)).count(), 1);
}

#[test]
fn an_unconfirmed_paste_is_not_repeated() {
    let mut progress = Preview::blank(None, false);
    progress.delivery_pending = true;
    let (_, _, actions) = finishing(progress, vec![Event::Begin]);
    match &actions[0] {
        Action::End(Err(e)) => assert_eq!(
            e.message(),
            "a live paste could not be confirmed; recording.wav is kept for manual recovery"
        ),
        _ => panic!("expected a failure"),
    }
}

#[test]
fn a_failed_finish_keeps_the_recording() {
    let events = vec![
        Event::Begin,
        Event::Done,
        speech(0, 1000),
        Event::Done,
        Event::Failed(Failure::EmptyReply),
        Event::Done,
    ];
    let (_, _, actions) = finishing(Preview::blank(None, false), events);
    assert!(matches!(actions[4], Action::RemoveSnapshot));
    assert!(matches!(actions[5], Action::End(Err(Failure::EmptyReply))));
    assert!(!actions.iter().any(|a| matches!(a, Action::Remove(_))));
}

#[test]
fn nothing_typed_means_nothing_copied() {
    let mut events = vec![Event::Begin, Event::Done, Event::Heard(None)];
    events.extend([Event::Done, Event::Done, Event::Done]);
    let (_, stage, actions) = finishing(Preview::blank(None, false), events);
    assert!(matches!(&actions[2], Action::Notify(Note::Spilled { text, .. }) if text.is_empty()));
    // The recording stays.
    assert!(matches!(actions[3], Action::Remove(Mark::Preview)));
    assert!(matches!(actions[4], Action::RemoveSnapshot));
    assert!(matches!(actions[5], Action::End(Ok(()))));
    assert!(matches!(stage, FinishStage::Over));
}

/// What is heard of `source` from `from` on.
fn heard(source: &[u8], from: u64) -> Event {
    let rest = source.len() - from as usize;
    let len = (rest - rest % 2).min(WINDOW_BYTES as usize);
    if len == 0 {
        return Event::Heard(None);
    }
    let start = from as usize;
    let end = start + len;
    Event::Heard(Some(Frame {
        start: from,
        end: end as u64,
        pcm: source[start..end].to_vec(),
    }))
}

/// The answer to `action` where everything goes well.
fn answer(source: &[u8], action: &Action) -> Event {
    match action {
        Action::Watch { .. } => watch("1-2", true),
        Action::Snapshot { from } => heard(source, *from),
        Action::AskDaemon(_) => said("ord"),
        Action::Paste => Event::Pasted(true),
        _ => Event::Done,
    }
}

#[test]
fn the_whole_recording_is_taken_up_in_order() {
    // No two samples that follow each other are the same, none is silent, and the last
    // byte is half a sample.
    let mut source: Vec<u8> = Vec::new();
    for i in 0..150000u32 {
        source.extend_from_slice(&((8000 + i % 7919) as i16).to_le_bytes());
    }
    source.push(1);

    let mut taken: Vec<u8> = Vec::new();
    let (mut live, mut stage) = ready();
    let mut event = Event::Begin;
    for _ in 0..200 {
        let (l, s, action) = worker(&paths(), live, stage, event);
        live = l;
        stage = s;
        if let Action::WriteSnapshot(pcm) = &action {
            assert_eq!(live.progress.consumed_bytes, taken.len() as u64);
            taken.extend_from_slice(pcm);
        }
        event = answer(&source, &action);
    }
    // What is left is too short for a segment.
    assert_eq!(live.progress.consumed_bytes, 256000);
    assert_eq!(taken.len(), 256000);

    let mut progress = live.progress;
    let mut stage = FinishStage::Ready;
    let mut event = Event::Begin;
    loop {
        let (p, s, action) = finish(&paths(), progress, stage, event);
        progress = p;
        stage = s;
        match &action {
            Action::WriteSnapshot(pcm) => taken.extend_from_slice(pcm),
            Action::End(end) => {
                assert!(end.is_ok());
                break;
            }
            _ => {}
        }
        event = answer(&source, &action);
    }
    assert_eq!(progress.consumed_bytes, 300000);
    assert!(taken == source[..300000]);
    assert_eq!(progress.text, "ord ord ord");
}
