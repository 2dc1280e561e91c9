use textspill::config::{Config, SessionConfig};
use textspill::deepgram::{Alternative, Channel, StreamRequest, StreamResult};
use textspill::failure::Failure;
use textspill::host::{Action, Event, Note, Payload};
use textspill::live::Preview;
use textspill::paths::Mark;
use textspill::stream::{
    commit_result, empty_preview, finish, request_finish, run_stream, start, take_text, worker,
    Commit, DrainStage, LaunchStage, Phase, RunStage, ServeStage, Stream, StreamState,
};
use textspill::wav::Frame;

fn result(is_final: bool, end: Option<u64>, text: &str) -> StreamResult {
    StreamResult {
        is_final,
        end,
        channel: Channel { alternatives: vec![Alternative { transcript: text.into() }] },
    }
}

fn state(phase: Phase) -> StreamState {
    StreamState { session: "1-2".into(), worker_pid: 9, phase, error: None }
}

fn token(session: &str) -> Event {
    Event::Token(Some(session.into()))
}

fn frame(start: u64, bytes: usize) -> Event {
    let pcm = (0..bytes).map(|i| i as u8).collect();
    Event::Heard(Some(Frame { pcm, start, end: start + bytes as u64 }))
}

#[test]
fn interim_and_duplicate_results_never_reach_clipboard() {
    let mut progress = empty_preview("sv");
    progress.consumed_bytes = 32000;
    for is_final in [false, true] {
        let heard = result(is_final, Some(32000), "must not paste");
        let (after, commit) = commit_result(progress, heard, 32000);
        assert!(matches!(commit, Commit::Nothing));
        progress = after;
    }
    assert!(progress.text.is_empty());
    assert_eq!(progress.consumed_bytes, 32000);
}

#[test]
fn results_are_held_to_the_submitted_audio() {
    let commit = |end, sent| commit_result(empty_preview("sv"), result(true, end, "hej"), sent).1;
    assert!(matches!(commit(None, 32000), Commit::Refuse(Failure::InvalidTiming)));
    assert!(matches!(commit(Some(35201), 32000), Commit::Refuse(Failure::BeyondSubmitted)));
    assert!(matches!(commit(Some(u64::MAX), u64::MAX), Commit::Deliver(_, _)));
    match commit(Some(35200), 32000) {
        Commit::Deliver(delivery, Action::Copy(text)) => {
            assert_eq!((delivery.start, delivery.end), (0, 32000));
            assert_eq!(delivery.language.as_deref(), Some("sv"));
            assert_eq!(text, "hej");
        }
        _ => panic!("expected a delivery"),
    }
    let channel = Channel { alternatives: vec![] };
    let none = StreamResult { is_final: true, end: Some(2), channel };
    match commit_result(empty_preview("sv"), none, 32000).1 {
        Commit::Refuse(e) => assert_eq!(e.message(), "Deepgram result has no alternative"),
        _ => panic!("expected a refusal"),
    }
}

fn drive(
    mut stream: Stream,
    mut stage: RunStage,
    events: Vec<Event>,
) -> (Stream, RunStage, Vec<Action>) {
    let mut actions = Vec::new();
    for event in events {
        let (s, g, a) = run_stream(stream, stage, event);
        stream = s;
        stage = g;
        actions.push(a);
    }
    (stream, stage, actions)
}

fn looking() -> (Stream, RunStage) {
    let stream = Stream::new("1-2".into(), 7, "sv");
    let request = StreamRequest { url: "wss://x".into(), authorization: "Token k".into() };
    let begin = vec![Event::Begin, Event::Connected { now_ms: 1000 }];
    let (stream, stage, actions) = drive(stream, RunStage::Ready(Ok(request)), begin);
    assert!(matches!(&actions[0], Action::Connect(r) if r.url == "wss://x"));
    assert!(matches!(actions[1], Action::ReadToken));
    (stream, stage)
}

fn ended(action: &Action) -> Result<(), String> {
    match action {
        Action::End(Ok(())) => Ok(()),
        Action::End(Err(e)) => Err(e.message()),
        _ => panic!("the stream goes on"),
    }
}

fn tick(now_ms: u64, phase: Phase) -> Vec<Event> {
    vec![token("1-2"), Event::Tick { now_ms }, Event::Stream(state(phase))]
}

fn running(running: bool) -> Event {
    Event::Running { running, waited_ms: 0 }
}

#[test]
fn a_stream_that_cannot_be_requested_ends_at_once() {
    let stream = Stream::new("1-2".into(), 7, "sv");
    let stage = RunStage::Ready(Err(Failure::UnusableKey));
    let (_, _, actions) = drive(stream, stage, vec![Event::Begin]);
    assert!(matches!(actions[0], Action::End(Err(Failure::UnusableKey))));
    let e = Failure::ConnectTimeout { cause: "deadline has elapsed".into() };
    let stream = Stream::new("1-2".into(), 7, "sv");
    let (_, _, actions) = drive(stream, RunStage::Connecting, vec![Event::Failed(e)]);
    let message = "Deepgram connection timed out: deadline has elapsed";
    assert_eq!(ended(&actions[0]).unwrap_err(), message);
}

#[test]
fn audio_goes_out_in_chunks_in_order() {
    let (stream, stage) = looking();
    let mut events = tick(1100, Phase::Recording);
    events.push(running(true));
    events.push(frame(0, 7000));
    for n in 0..3 {
        events.push(token("1-2"));
        events.push(Event::Sent { now_ms: 1200 + n });
    }
    let (stream, stage, actions) = drive(stream, stage, events);
    assert!(matches!(actions[3], Action::Snapshot { from: 0 }));
    let mut sent = Vec::new();
    for action in &actions {
        if let Action::Send(Payload::Audio(chunk)) = action {
            assert!(chunk.len() <= 3200);
            sent.extend(chunk.iter().copied());
        }
    }
    let expected: Vec<u8> = (0..7000).map(|i| i as u8).collect();
    assert_eq!(sent, expected);
    assert_eq!(stream.sent, 7000);
    assert_eq!(stream.last_send_ms, 1202);
    // What comes next is read from there on.
    let mut events = tick(1300, Phase::Finishing);
    events.push(Event::Heard(None));
    let (_, _, actions) = drive(stream, stage, events);
    assert!(matches!(actions[2], Action::Snapshot { from: 7000 }));
    match &actions[3] {
        Action::Send(payload) => {
            assert_eq!(payload.as_text(), Some(r#"{"type":"CloseStream"}"#));
        }
        _ => panic!("expected the end of the audio"),
    }
}

#[test]
fn a_burst_is_bounded() {
    let (stream, stage) = looking();
    let mut events = tick(1100, Phase::Finishing);
    events.push(frame(0, 100000));
    let (_, stage, _) = drive(stream, stage, events);
    match stage {
        RunStage::Chunking { rest } => assert_eq!(rest.len(), 32000),
        _ => panic!("expected chunks"),
    }
}

#[test]
fn an_idle_stream_is_kept_alive() {
    for (now_ms, kept) in [(3999, false), (4000, true)] {
        let (stream, stage) = looking();
        let mut events = tick(now_ms, Phase::Recording);
        events.push(running(true));
        events.push(Event::Heard(None));
        events.push(Event::Sent { now_ms: 5000 });
        let (stream, _, actions) = drive(stream, stage, events);
        match &actions[4] {
            Action::Send(payload) => {
                assert!(kept);
                assert_eq!(payload.as_text(), Some(r#"{"type":"KeepAlive"}"#));
                assert_eq!(stream.last_send_ms, 5000);
            }
            Action::ReadToken => assert!(!kept),
            _ => panic!("unexpected action"),
        }
    }
}

#[test]
fn a_session_that_is_over_ends_the_stream_well() {
    let (stream, stage) = looking();
    let (_, _, actions) = drive(stream, stage, vec![Event::Token(None)]);
    assert!(ended(&actions[0]).is_ok());
    let (stream, stage) = looking();
    let mut other = state(Phase::Recording);
    other.session = "3-4".into();
    let events = vec![token("1-2"), Event::Tick { now_ms: 0 }, Event::Stream(other)];
    let (_, _, actions) = drive(stream, stage, events);
    assert!(ended(&actions[2]).is_ok());
    let (stream, _) = looking();
    let chunking = RunStage::Chunking { rest: vec![1, 2] };
    let (_, _, actions) = drive(stream, chunking, vec![token("3-4")]);
    assert!(ended(&actions[0]).is_ok());
}

#[test]
fn a_lost_recorder_is_a_failure_unless_stop_is_under_way() {
    for (phase, lost) in [(Phase::Recording, true), (Phase::Finishing, false)] {
        let (stream, stage) = looking();
        let mut events = tick(1100, Phase::Recording);
        events.extend([running(false), Event::Done, Event::Stream(state(phase)), Event::Done]);
        let (_, _, actions) = drive(stream, stage, events);
        assert!(matches!(actions[3], Action::Lock));
        assert!(matches!(actions[5], Action::Unlock));
        if lost {
            assert_eq!(ended(&actions[6]).unwrap_err(), "audio recorder exited unexpectedly");
        } else {
            assert!(matches!(actions[6], Action::ReadToken));
        }
    }
}

#[test]
fn a_final_result_is_delivered_under_the_lock() {
    let (mut stream, stage) = looking();
    stream.sent = 32000;
    let text = br#"{"type":"Results"}"#.to_vec();
    let (stream, _, actions) = drive(
        stream,
        stage,
        vec![
            token("1-2"),
            Event::Text(text.clone()),
            Event::Parsed(Ok(result(true, Some(32000), "hej"))),
            Event::Done,
            token("1-2"),
            Event::Done,
            Event::Done,
            Event::Pasted(true),
            Event::Done,
            Event::Done,
        ],
    );
    assert!(matches!(&actions[1], Action::Parse(t) if *t == text));
    assert!(matches!(actions[2], Action::Lock));
    assert!(matches!(actions[3], Action::ReadToken));
    assert!(matches!(&actions[4], Action::Copy(text) if text == "hej"));
    assert!(matches!(actions[6], Action::Paste));
    assert!(matches!(actions[8], Action::Unlock));
    assert!(matches!(actions[9], Action::ReadToken));
    assert_eq!((stream.progress.text.as_str(), stream.progress.consumed_bytes), ("hej", 32000));
}

#[test]
fn a_result_of_a_cancelled_session_is_dropped() {
    let (stream, _) = looking();
    let stage = RunStage::Locking(result(true, Some(2), "hej"));
    let (stream, _, actions) = drive(stream, stage, vec![Event::Done, token("3-4"), Event::Done]);
    assert!(matches!(actions[1], Action::Unlock));
    assert!(ended(&actions[2]).is_ok());
    assert!(stream.progress.text.is_empty());
}

#[test]
fn messages_are_told_apart_by_their_type() {
    let told = |closing: bool, text: &[u8]| {
        let (mut stream, stage) = looking();
        if closing {
            stream.closing_ms = Some(0);
        }
        let (stream, _, mut actions) =
            drive(stream, stage, vec![token("1-2"), Event::Text(text.to_vec())]);
        (stream, actions.pop().unwrap())
    };
    let (stream, action) = told(true, br#"{"type":"Metadata"}"#);
    assert!(stream.metadata && matches!(action, Action::ReadToken));
    let (stream, action) = told(false, br#"{"type":"Metadata"}"#);
    assert!(!stream.metadata && matches!(action, Action::ReadToken));
    let (_, action) = told(false, br#"{"type":"Error","reason":"secret"}"#);
    assert_eq!(
        ended(&action).unwrap_err(),
        "Deepgram streaming API reported an error; audio kept"
    );
    let (_, action) = told(false, b"{");
    assert_eq!(
        ended(&action).unwrap_err(),
        "invalid Deepgram streaming JSON: EOF while parsing an object at line 1 column 1"
    );
    for other in [&br#"{"type":"UtteranceEnd"}"#[..], b"{}", b"[]", br#"{"type":7}"#] {
        assert!(matches!(told(false, other).1, Action::ReadToken));
    }
}

#[test]
fn a_message_is_taken_by_its_kind() {
    let stream = || Stream::new("1-2".into(), 7, "sv");
    let kind = |kind: &str| Ok(Some(kind.to_string()));
    let (_, _, action) = take_text(stream(), vec![1], kind("Results"));
    assert!(matches!(action, Action::Parse(text) if text == [1]));
    let (_, stage, _) = take_text(stream(), vec![], kind("results"));
    assert!(matches!(stage, RunStage::Looking));
    let (_, _, action) = take_text(stream(), vec![], Err("EOF".into()));
    assert_eq!(ended(&action).unwrap_err(), "invalid Deepgram streaming JSON: EOF");
}

#[test]
fn unreadable_and_interim_results_are_not_delivered() {
    let (stream, _) = looking();
    let events = vec![Event::Parsed(Err("missing field".into()))];
    let (stream, _, actions) = drive(stream, RunStage::Parsing, events);
    let message = "invalid Deepgram streaming result: missing field";
    assert_eq!(ended(&actions[0]).unwrap_err(), message);
    let events = vec![Event::Parsed(Ok(result(false, Some(2), "he")))];
    let (_, _, actions) = drive(stream, RunStage::Parsing, events);
    assert!(matches!(actions[0], Action::ReadToken));
}

#[test]
fn the_end_counts_only_once_it_is_confirmed() {
    for (closing, metadata, well) in
        [(true, true, true), (true, false, false), (false, false, false)]
    {
        let (mut stream, stage) = looking();
        stream.closing_ms = if closing { Some(0) } else { None };
        stream.metadata = metadata;
        let (_, _, actions) = drive(stream, stage, vec![token("1-2"), Event::Closed]);
        match ended(&actions[1]) {
            Ok(()) => assert!(well),
            Err(e) => {
                assert!(!well);
                assert_eq!(e, "Deepgram stream closed before final results were confirmed");
            }
        }
    }
}

#[test]
fn draining_has_a_deadline() {
    for (now_ms, late) in [(30999, false), (31000, true)] {
        let (stream, _) = looking();
        let sent = vec![Event::Sent { now_ms: 1000 }];
        let (stream, stage, _) = drive(stream, RunStage::Closing, sent);
        assert_eq!(stream.closing_ms, Some(1000));
        let (_, _, actions) = drive(stream, stage, vec![token("1-2"), Event::Tick { now_ms }]);
        match &actions[1] {
            Action::ReadToken => assert!(!late),
            action => {
                assert!(late);
                assert_eq!(ended(action).unwrap_err(), "Deepgram final results timed out");
            }
        }
    }
}

#[test]
fn pings_are_answered_and_breaks_are_told() {
    let (stream, stage) = looking();
    let events = vec![token("1-2"), Event::Ping(vec![1, 2]), Event::Sent { now_ms: 0 }];
    let (stream, stage, actions) = drive(stream, stage, events);
    assert!(matches!(&actions[1], Action::Send(Payload::Pong(p)) if *p == [1, 2]));
    let (stream, stage, actions) = drive(stream, stage, vec![token("1-2"), Event::Noise]);
    assert!(matches!(actions[1], Action::ReadToken));
    let (_, _, actions) = drive(stream, stage, vec![token("1-2"), Event::Broke]);
    assert_eq!(ended(&actions[1]).unwrap_err(), "Deepgram stream disconnected; audio kept");
    let (stream, _) = looking();
    let unsent = vec![Event::Failed(Failure::SendFailed)];
    let (_, _, actions) = drive(stream, RunStage::Closing, unsent);
    let message = "Deepgram connection failed while sending audio";
    assert_eq!(ended(&actions[0]).unwrap_err(), message);
}

#[test]
fn starting_publishes_the_workers_identity() {
    let step = |stage, event| start(7, "en", stage, event);
    let (stage, _) = step(LaunchStage::Ready, Event::Begin);
    let (stage, action) = step(stage, Event::Clock { process: 5, nanos: 6 });
    assert!(matches!(action, Action::WriteToken(t) if t == "5-6"));
    let (stage, action) = step(stage, Event::Done);
    assert!(matches!(action, Action::Publish(p) if p.language.as_deref() == Some("en")));
    let (stage, _) = step(stage, Event::Done);
    let (stage, action) = step(stage, Event::Done);
    assert!(matches!(action, Action::Spawn { recorder: 7, .. }));
    let (stage, action) = step(stage, Event::Started { pid: 8 });
    match action {
        Action::SaveStream(state) => {
            assert_eq!((state.session.as_str(), state.worker_pid), ("5-6", 8));
            assert_eq!(state.phase, Phase::Recording);
            assert_eq!(state.error, None);
        }
        _ => panic!("expected the state"),
    }
    assert!(matches!(step(stage, Event::Done).1, Action::End(Ok(()))));
    let lost = Event::NotSpawned { cause: "ENOMEM".into() };
    match step(LaunchStage::Spawning("5-6".into()), lost).1 {
        Action::End(Err(e)) => assert_eq!(e.message(), "could not start Deepgram worker: ENOMEM"),
        _ => panic!("expected a failure"),
    }
}

#[test]
fn finishing_is_requested_of_the_active_stream() {
    let held = Some("1-2".to_string());
    let saved = request_finish(Ok(state(Phase::Recording)), &held).unwrap();
    assert_eq!((saved.phase, saved.worker_pid), (Phase::Finishing, 9));
    assert_eq!(request_finish(Ok(state(Phase::Error)), &held).unwrap().phase, Phase::Error);
    let e = request_finish(Ok(state(Phase::Recording)), &None).unwrap_err();
    assert_eq!(e.message(), "stream session is no longer active; audio kept");
    let e = request_finish(Err(Failure::MalformedStream { cause: "EOF".into() }), &held);
    assert_eq!(
        e.unwrap_err().message(),
        "Deepgram worker is unavailable; audio kept: invalid streaming session state: EOF"
    );
}

fn draining(events: Vec<Event>) -> (DrainStage, Vec<Action>) {
    let mut stage = DrainStage::Ready;
    let mut actions = Vec::new();
    for event in events {
        let (s, a) = finish("1-2", stage, event);
        stage = s;
        actions.push(a);
    }
    (stage, actions)
}

fn upto(phase: Phase, error: Option<&str>) -> Vec<Event> {
    let mut status = state(phase);
    status.error = error.map(String::from);
    vec![Event::Begin, Event::Done, token("1-2"), Event::Stream(status)]
}

#[test]
fn a_drained_stream_is_the_dictation() {
    let mut progress = Preview::blank(Some("sv".into()), false);
    progress.text = "hej".into();
    let mut events = upto(Phase::Done, None);
    events.push(Event::Progress(Some(progress)));
    events.extend((0..6).map(|_| Event::Done));
    let (_, actions) = draining(events);
    assert!(matches!(&actions[4], Action::Copy(text) if text == "hej"));
    assert!(matches!(&actions[5], Action::Notify(Note::Spilled { .. })));
    assert!(matches!(actions[6], Action::Remove(Mark::RecordingWav)));
    assert!(matches!(actions[7], Action::Invalidate));
    assert!(matches!(actions[8], Action::Remove(Mark::StreamState)));
    assert!(matches!(actions[9], Action::Unlock));
    assert!(ended(&actions[10]).is_ok());
}

#[test]
fn a_stream_that_typed_nothing_leaves_the_recording() {
    let mut events = upto(Phase::Done, None);
    events.push(Event::Progress(Some(Preview::blank(Some("sv".into()), false))));
    events.extend((0..4).map(|_| Event::Done));
    let (_, actions) = draining(events);
    assert!(matches!(&actions[4], Action::Notify(Note::Spilled { .. })));
    assert!(matches!(actions[5], Action::Invalidate));
    assert!(matches!(actions[6], Action::Remove(Mark::StreamState)));
    assert!(matches!(actions[7], Action::Unlock));
    assert!(ended(&actions[8]).is_ok());
}

#[test]
fn waiting_lets_go_of_the_lock() {
    let mut events = upto(Phase::Finishing, None);
    events.push(Event::Running { running: true, waited_ms: 29999 });
    events.extend([Event::Done, Event::Done]);
    let (stage, actions) = draining(events);
    assert!(matches!(actions[3], Action::LookWorker { pid: 9 }));
    assert!(matches!(actions[4], Action::Unlock));
    assert!(matches!(actions[5], Action::Sleep { ms: 50 }));
    assert!(matches!(actions[6], Action::Lock));
    assert!(matches!(stage, DrainStage::Locking));
}

#[test]
fn a_failed_stream_keeps_everything_for_recovery() {
    let look = |running, waited_ms| vec![Event::Running { running, waited_ms }];
    for (phase, error, more, message) in [
        (Phase::Error, Some("boom"), vec![], "boom"),
        (Phase::Error, None, vec![], "Deepgram worker failed"),
        (
            Phase::Finishing,
            None,
            look(false, 0),
            "Deepgram worker exited before completing the stream",
        ),
        (Phase::Recording, None, look(true, 30000), "Deepgram stream did not finish within 30s"),
    ] {
        let mut events = upto(phase, error);
        let n = 3 + more.len();
        events.extend(more);
        events.extend([Event::Done, Event::Done]);
        events.push(Event::Progress(Some(Preview::blank(None, false))));
        events.extend([Event::Done, Event::Done]);
        let (_, actions) = draining(events);
        assert!(matches!(actions[n], Action::Remove(Mark::LiveSession)));
        match &actions[n + 1] {
            Action::SaveStream(status) => {
                assert_eq!(status.phase, Phase::Error);
                assert_eq!(status.error.as_deref(), Some(message));
            }
            _ => panic!("expected the state"),
        }
        match &actions[n + 3] {
            Action::Publish(p) => assert_eq!(p.error.as_deref(), Some(message)),
            _ => panic!("expected a publication"),
        }
        assert!(matches!(actions[n + 4], Action::Unlock));
        assert_eq!(
            ended(&actions[n + 5]).unwrap_err(),
            format!("{message}; recording.wav and preview.json kept for recovery")
        );
        assert!(!actions.iter().any(|a| matches!(a, Action::Remove(Mark::RecordingWav))));
    }
}

#[test]
fn a_cancelled_drain_ends_well() {
    let (_, actions) = draining(vec![Event::Begin, Event::Done, Event::Token(None), Event::Done]);
    assert!(matches!(actions[2], Action::Unlock));
    assert!(ended(&actions[3]).is_ok());
    let e = Event::Failed(Failure::LockTimeout);
    let (_, actions) = draining(vec![Event::Begin, e]);
    assert!(matches!(actions[1], Action::End(Err(Failure::LockTimeout))));
}

fn settings() -> SessionConfig {
    SessionConfig { config: Config::default(), live: true }
}

fn serving(events: Vec<Event>) -> Vec<Action> {
    let mut stage = ServeStage::Ready;
    let mut actions = Vec::new();
    for event in events {
        let (s, a) = worker("1-2", 9, stage, event);
        stage = s;
        actions.push(a);
    }
    actions
}

fn served(result: Result<(), Failure>) -> Vec<Event> {
    vec![
        Event::Begin,
        Event::Done,
        token("1-2"),
        Event::Stream(state(Phase::Recording)),
        Event::Session(settings()),
        Event::Done,
        Event::Done,
        Event::Ran { progress: empty_preview("sv"), result },
        Event::Done,
        token("1-2"),
        Event::Stream(state(Phase::Finishing)),
    ]
}

#[test]
fn a_worker_declares_its_stream_done() {
    let mut events = served(Ok(()));
    events.extend([Event::Done, Event::Done]);
    let actions = serving(events);
    assert!(matches!(actions[5], Action::Unlock));
    assert!(matches!(actions[6], Action::Run(_)));
    assert!(matches!(actions[7], Action::Lock));
    assert!(matches!(&actions[10], Action::SaveStream(s) if s.phase == Phase::Done));
    assert!(matches!(actions[11], Action::Unlock));
    assert!(ended(&actions[12]).is_ok());
}

#[test]
fn a_worker_publishes_why_its_stream_failed() {
    let mut events = served(Err(Failure::Disconnected));
    events.extend([Event::Done, Event::Done, Event::Done, Event::Done]);
    let actions = serving(events);
    let message = "Deepgram stream disconnected; audio kept";
    assert!(matches!(&actions[10], Action::Publish(p) if p.error.as_deref() == Some(message)));
    assert!(matches!(actions[11], Action::Notify(Note::StreamStopped)));
    match &actions[12] {
        Action::SaveStream(status) => {
            assert_eq!(status.phase, Phase::Error);
            assert_eq!(status.error.as_deref(), Some(message));
        }
        _ => panic!("expected the state"),
    }
    assert!(ended(&actions[14]).is_ok());
}

#[test]
fn a_worker_serves_only_its_own_stream() {
    let mut other = state(Phase::Recording);
    other.worker_pid = 10;
    let events = vec![Event::Begin, Event::Done, token("1-2"), Event::Stream(other), Event::Done];
    let actions = serving(events);
    assert_eq!(ended(&actions[4]).unwrap_err(), "invalid streaming worker identity");
    let actions = serving(vec![Event::Begin, Event::Done, token("3-4"), Event::Done]);
    assert!(ended(&actions[3]).is_ok());
}

#[test]
fn phases_have_their_words() {
    assert_eq!(Phase::Recording.as_str(), "recording");
    assert_eq!(Phase::Finishing.as_str(), "finishing");
    assert_eq!(Phase::Done.as_str(), "done");
    assert_eq!(Phase::Error.as_str(), "error");
}
