//! Append-only live typing from consecutive audio segments.
//!
//! `pw-record` finalises WAV lengths only on exit. Actual PCM bytes go into a
//! separate, valid WAV, and the warm daemon is asked about audio that was not
//! consumed yet. A session token prevents delayed replies from leaking into
//! another dictation.

use crate::config::Stored;
use crate::delivery::{
    deliver, delivery_begins, delivery_begins_with_one_line, delivery_keeps_one_line,
    delivery_step, keeps_one_line, Delivery, DeliveryStage, DeliveryStep,
};
use crate::failure::Failure;
use crate::host::{hears, hears_to_the_end, Action, Event, Note, Worker};
use crate::ipc::{self, Exchange, PREVIEW_TIMEOUT_MS};
use crate::number::{
    decimal, decimal_is_injective, decimal_reads_back, is_digit, long_decimal_text,
};
use crate::paths::{path_in, snapshot_name, Mark, Paths};
use crate::state::State;
use crate::text::{chars_of, maybe, one_line, same_text, sanitized, texts};
use crate::transcription::Transcription;
use crate::wav::{is_boundary, is_silent, segment_boundary, silent, Frame};
use vstd::prelude::*;
use vstd::string::*;

verus! {

broadcast use vstd::string::group_string_axioms;

/// How often unconsumed audio is looked at.
pub const INTERVAL_MS: u64 = 1000;

/// How far live typing has come.
#[derive(Debug)]
pub struct Preview {
    /// All that was typed.
    pub text: String,
    pub language: Option<String>,
    pub provisional: bool,
    /// Where in the PCM the last segment began.
    pub window_start: u64,
    /// Where in the PCM it ended.
    pub audio_end: u64,
    pub error: Option<String>,
    /// The PCM up to here is accounted for.
    pub consumed_bytes: u64,
    /// A paste was announced and not confirmed.
    pub delivery_pending: bool,
}

/// A copy of the text, if there is one.
fn copy_of(text: &Option<String>) -> (out: Option<String>)
    ensures
        out == *text,
{
    match text {
        Some(text) => Some(text.clone()),
        None => None,
    }
}

impl Clone for Preview {
    fn clone(&self) -> (copy: Preview)
        ensures
            copy == *self,
    {
        Preview {
            text: self.text.clone(),
            language: copy_of(&self.language),
            provisional: self.provisional,
            window_start: self.window_start,
            audio_end: self.audio_end,
            error: copy_of(&self.error),
            consumed_bytes: self.consumed_bytes,
            delivery_pending: self.delivery_pending,
        }
    }
}

impl Preview {
    /// Nothing was typed yet.
    pub open spec fn is_blank(self) -> bool {
        &&& self.text@.len() == 0
        &&& self.window_start == 0
        &&& self.audio_end == 0
        &&& self.error is None
        &&& self.consumed_bytes == 0
        &&& !self.delivery_pending
    }

    /// What the user is shown of it.
    pub fn typed(&self) -> (note: Note)
        ensures
            note == (Note::Spilled { language: self.language, text: self.text }),
    {
        Note::Spilled { language: copy_of(&self.language), text: self.text.clone() }
    }

    /// Where live typing begins.
    pub fn blank(language: Option<String>, provisional: bool) -> (preview: Preview)
        ensures
            preview.is_blank(),
            preview.language == language,
            preview.provisional == provisional,
    {
        Preview {
            text: String::new(),
            language,
            provisional,
            window_start: 0,
            audio_end: 0,
            error: None,
            consumed_bytes: 0,
            delivery_pending: false,
        }
    }
}

/// The most characters that a session token may have.
pub const TOKEN_CHARS: usize = 80;

/// A character of a session token.
pub open spec fn token_char(c: char) -> bool {
    is_digit(c) || c == '-'
}

/// A session token: digits and dashes, something, and not too many. The hidden
/// commands are still user input, so nothing else may become part of a path.
pub open spec fn valid_token(session: Seq<char>) -> bool {
    &&& 0 < session.len() <= TOKEN_CHARS
    &&& forall|i: int| 0 <= i < session.len() ==> token_char(#[trigger] session[i])
}

/// The token of a session that the process `pid` starts `nanos` after the epoch.
pub open spec fn minted(pid: nat, nanos: nat) -> Seq<char> {
    decimal(pid) + "-"@ + decimal(nanos)
}

/// Whether `session` is a session token.
pub fn is_valid_token(session: &str) -> (r: bool)
    ensures
        r == valid_token(session@),
{
    let chars = chars_of(session);
    if chars.len() == 0 || chars.len() > TOKEN_CHARS {
        return false;
    }
    for i in 0..chars.len()
        invariant
            chars@ == session@,
            forall|j: int| 0 <= j < i ==> token_char(#[trigger] chars@[j]),
    {
        let c = chars[i];
        if !(('0' <= c && c <= '9') || c == '-') {
            assert(!token_char(session@[i as int]));
            return false;
        }
    }
    true
}

/// The token of a session that the process `pid` starts `nanos` after the epoch.
pub fn mint(pid: u32, nanos: u128) -> (session: String)
    ensures
        session@ == minted(pid as nat, nanos as nat),
{
    long_decimal_text(pid as u128).concat("-").concat(long_decimal_text(nanos).as_str())
}

spec fn ten_to(k: nat) -> nat
    decreases k,
{
    if k == 0 {
        1
    } else {
        10 * ten_to((k - 1) as nat)
    }
}

proof fn lemma_decimal_length(n: nat, k: nat)
    requires
        k > 0,
        n < ten_to(k),
    ensures
        decimal(n).len() <= k,
    decreases k,
{
    if n >= 10 {
        assert(ten_to(1) == 10) by {
            assert(ten_to(0) == 1);
        }
        assert(k > 1);
        lemma_decimal_length(n / 10, (k - 1) as nat);
    }
}

/// A token that a process mints is one that the workers accept.
pub proof fn minted_token_is_valid(pid: u32, nanos: u128)
    ensures
        valid_token(minted(pid as nat, nanos as nat)),
{
    reveal_strlit("-");
    reveal_with_fuel(ten_to, 40);
    lemma_decimal_length(pid as nat, 10);
    lemma_decimal_length(nanos as nat, 39);
    decimal_reads_back(pid as nat);
    decimal_reads_back(nanos as nat);
    let token = minted(pid as nat, nanos as nat);
    let first = decimal(pid as nat);
    let second = decimal(nanos as nat);
    assert forall|i: int| 0 <= i < token.len() implies token_char(#[trigger] token[i]) by {
        if i < first.len() {
            assert(token[i] == first[i]);
        } else if i > first.len() {
            assert(token[i] == second[i - first.len() - 1]);
        }
    }
}

/// Sessions started by different processes, or at different times, have different
/// tokens.
pub proof fn minted_tokens_differ(pid: nat, nanos: nat, other_pid: nat, other_nanos: nat)
    requires
        minted(pid, nanos) == minted(other_pid, other_nanos),
    ensures
        pid == other_pid,
        nanos == other_nanos,
{
    reveal_strlit("-");
    let token = minted(pid, nanos);
    let (a, b) = (decimal(pid), decimal(nanos));
    let (c, d) = (decimal(other_pid), decimal(other_nanos));
    decimal_reads_back(pid);
    decimal_reads_back(other_pid);
    assert(token[a.len() as int] == '-');
    assert(minted(other_pid, other_nanos)[c.len() as int] == '-');
    if a.len() < c.len() {
        assert(minted(other_pid, other_nanos)[a.len() as int] == c[a.len() as int]);
        assert(is_digit(c[a.len() as int]));
    }
    if c.len() < a.len() {
        assert(token[c.len() as int] == a[c.len() as int]);
        assert(is_digit(a[c.len() as int]));
    }
    assert(a =~= token.take(a.len() as int));
    assert(c =~= minted(other_pid, other_nanos).take(c.len() as int));
    assert(b =~= token.skip(a.len() as int + 1));
    assert(d =~= minted(other_pid, other_nanos).skip(c.len() as int + 1));
    decimal_is_injective(pid, other_pid);
    decimal_is_injective(nanos, other_nanos);
}

/// The name of a snapshot for a valid token has no slash in it, so the snapshot
/// lies in the runtime directory itself.
pub proof fn snapshot_stays_in_its_directory(session: Seq<char>)
    requires
        valid_token(session),
    ensures
        forall|i: int|
            0 <= i < snapshot_name(session).len() ==> #[trigger] snapshot_name(session)[i] != '/',
{
    reveal_strlit("preview-");
    reveal_strlit(".wav");
    let name = snapshot_name(session);
    let n = session.len() as int;
    assert forall|i: int| 0 <= i < name.len() implies #[trigger] name[i] != '/' by {
        if 8 <= i < 8 + n {
            assert(name[i] == session[i - 8]);
            assert(token_char(session[i - 8]));
        } else if i >= 8 + n {
            assert(name[i] == ".wav"@[i - 8 - n]);
        } else {
            assert(name[i] == "preview-"@[i]);
        }
    }
}

/// What to remove, in this order, so that a live session can deliver no more:
/// its token, then what it published.
pub fn invalidate(paths: &Paths) -> (files: Vec<String>)
    ensures
        texts(files@) == seq![paths.path(Mark::LiveSession), paths.path(Mark::Preview)],
{
    let files = vec![paths.live_session(), paths.preview()];
    assert(texts(files@) =~= seq![paths.path(Mark::LiveSession), paths.path(Mark::Preview)]);
    files
}

/// The session may deliver: the token file holds its token, and the recorder
/// runs.
pub open spec fn is_active(session: Seq<char>, token: Option<Seq<char>>, running: bool) -> bool {
    token == Some(session) && running
}

/// Whether the token file holds the token of this session.
pub fn holds_token(token: &Option<String>, session: &str) -> (r: bool)
    ensures
        r == (maybe(*token) == Some(session@)),
{
    match token {
        Some(token) => same_text(token.as_str(), session),
        None => false,
    }
}

/// Whether the session may deliver.
pub fn active(session: &str, token: &Option<String>, running: bool) -> (r: bool)
    ensures
        r == is_active(session@, maybe(*token), running),
{
    holds_token(token, session) && running
}

/// What the file with the provisional transcription comes to in `state`.
pub open spec fn reads_preview(
    state: State,
    stored: Stored<Preview>,
    preview: Result<Option<Preview>, Failure>,
) -> bool {
    if !(state is Recording) {
        preview == Ok::<Option<Preview>, Failure>(None)
    } else {
        match stored {
            Stored::Value(value) => preview == Ok::<Option<Preview>, Failure>(Some(value)),
            Stored::Missing => preview == Ok::<Option<Preview>, Failure>(None),
            Stored::Malformed(cause) => preview == Err::<Option<Preview>, Failure>(
                Failure::Reported(cause),
            ),
            Stored::Unreadable(cause) => preview == Err::<Option<Preview>, Failure>(
                Failure::Reported(cause),
            ),
        }
    }
}

/// The provisional transcription of the running recording; there is none
/// without one. `stored` is what its file came to.
pub fn read(state: State, stored: Stored<Preview>) -> (preview: Result<Option<Preview>, Failure>)
    ensures
        reads_preview(state, stored, preview),
{
    match state {
        State::Recording { .. } => match stored {
            Stored::Value(value) => Ok(Some(value)),
            Stored::Missing => Ok(None),
            Stored::Malformed(cause) => Err(Failure::Reported(cause)),
            Stored::Unreadable(cause) => Err(Failure::Reported(cause)),
        },
        _ => Ok(None),
    }
}

/// Whether the daemon has to be asked about `pcm`, whose snapshot is that of
/// `session`, and how: not where nothing was captured.
pub open spec fn segment_asks(
    paths: Paths,
    session: Seq<char>,
    pcm: Seq<u8>,
    ask: Option<Exchange>,
) -> bool {
    match ask {
        Some(exchange) => !silent(pcm) && exchange.asks(
            paths.path(Mark::AsrSocket),
            path_in(paths@, snapshot_name(session)),
            PREVIEW_TIMEOUT_MS,
            true,
        ),
        None => silent(pcm),
    }
}

/// Whether the daemon has to be asked about `pcm`, and how; silence is its own
/// transcription.
pub fn transcribe_segment(paths: &Paths, session: &str, pcm: &[u8]) -> (ask: Option<Exchange>)
    ensures
        segment_asks(*paths, session@, pcm@, ask),
{
    if is_silent(pcm) {
        return None;
    }
    Some(ipc::preview(paths.asr_socket().as_str(), paths.live_audio(session).as_str()))
}

/// The transcription of silence.
pub open spec fn says_nothing(result: Transcription) -> bool {
    result.says(Seq::empty(), None)
}

fn nothing_said() -> (result: Transcription)
    ensures
        says_nothing(result),
{
    let text = String::new();
    assert(text@ =~= Seq::empty());
    Transcription { text, language: None }
}

/// What starting live typing waits for.
pub enum LaunchStage {
    Ready,
    /// The last session to be invalidated.
    Invalidating,
    /// The time.
    Timing,
    /// The token to be written.
    Writing(String),
    /// The worker's log to be opened.
    Opening(String),
    /// The worker to be started.
    Spawning,
    /// The session to be invalidated again, after this failure.
    Undoing(Failure),
    Over,
}

/// What starting live typing does at `stage` when told `event`; `live` is
/// whether live typing is wanted.
pub open spec fn launch_step(
    live: bool,
    recorder: i32,
    stage: LaunchStage,
    event: Event,
    next: LaunchStage,
    action: Action,
) -> bool {
    match (stage, event) {
        (LaunchStage::Ready, Event::Begin) => {
            next is Invalidating && action is Invalidate
        },
        (LaunchStage::Invalidating, Event::Done) => if live {
            next is Timing && action is AskClock
        } else {
            next is Over && action == Action::End(Ok(()))
        },
        (LaunchStage::Timing, Event::Clock { process, nanos }) => {
            &&& next matches LaunchStage::Writing(session) && session@ == minted(
                process as nat,
                nanos as nat,
            ) && action == Action::WriteToken(session)
        },
        (LaunchStage::Writing(session), Event::Done) => {
            next == LaunchStage::Opening(session) && action is OpenLog
        },
        (LaunchStage::Opening(session), Event::Done) => {
            &&& next is Spawning
            &&& action == Action::Spawn { worker: Worker::Live, session, recorder }
        },
        (LaunchStage::Spawning, Event::Started { .. }) => {
            next is Over && action == Action::End(Ok(()))
        },
        (LaunchStage::Spawning, Event::NotSpawned { cause }) => {
            &&& next == LaunchStage::Undoing(Failure::LiveWorkerNotStarted { cause })
            &&& action is Invalidate
        },
        (LaunchStage::Undoing(failure), Event::Done) => {
            next is Over && action == Action::End(Err(failure))
        },
        (_, Event::Failed(failure)) => next is Over && action == Action::End(Err(failure)),
        _ => next is Over && action == Action::End(Err(Failure::OutOfTurn)),
    }
}

/// Starts live typing for a recorder that has started, with the command lock
/// held: the next step of it.
pub fn start(live: bool, recorder: i32, stage: LaunchStage, event: Event) -> (out: (
    LaunchStage,
    Action,
))
    ensures
        launch_step(live, recorder, stage, event, out.0, out.1),
{
    match (stage, event) {
        (LaunchStage::Ready, Event::Begin) => (LaunchStage::Invalidating, Action::Invalidate),
        (LaunchStage::Invalidating, Event::Done) => if live {
            (LaunchStage::Timing, Action::AskClock)
        } else {
            (LaunchStage::Over, Action::End(Ok(())))
        },
        (LaunchStage::Timing, Event::Clock { process, nanos }) => {
            let session = mint(process, nanos);
            let action = Action::WriteToken(session.clone());
            (LaunchStage::Writing(session), action)
        },
        (LaunchStage::Writing(session), Event::Done) => (
            LaunchStage::Opening(session),
            Action::OpenLog,
        ),
        (LaunchStage::Opening(session), Event::Done) => (
            LaunchStage::Spawning,
            Action::Spawn { worker: Worker::Live, session, recorder },
        ),
        (LaunchStage::Spawning, Event::Started { .. }) => (
            LaunchStage::Over,
            Action::End(Ok(())),
        ),
        (LaunchStage::Spawning, Event::NotSpawned { cause }) => (
            LaunchStage::Undoing(Failure::LiveWorkerNotStarted { cause }),
            Action::Invalidate,
        ),
        (LaunchStage::Undoing(failure), Event::Done) => (
            LaunchStage::Over,
            Action::End(Err(failure)),
        ),
        (_, Event::Failed(failure)) => (LaunchStage::Over, Action::End(Err(failure))),
        _ => (LaunchStage::Over, Action::End(Err(Failure::OutOfTurn))),
    }
}

/// What a live worker waits for.
pub enum WorkerStage {
    Ready,
    /// To hear whether the session is active.
    Checking,
    Sleeping,
    /// To hear whether it still is.
    Rechecking,
    /// The recording to be opened. It stays open: replacing `recording.wav` in a
    /// later session cannot make this worker read that session's audio.
    Opening,
    Reading,
    /// The snapshot of a segment to be written.
    Writing { start: u64, end: u64, ask: Option<Exchange> },
    Asking { start: u64, end: u64 },
    /// The lock, to deliver under it. Inference runs without it, so stop and
    /// cancel can invalidate the session while inference is busy.
    Locking { start: u64, end: u64, result: Transcription },
    /// To hear whether the session is active, with the lock held.
    Confirming { start: u64, end: u64, result: Transcription },
    Delivering(Delivery),
    /// The failure of a delivery to be published.
    Stopping,
    /// The lock, to publish what went wrong.
    ErrorLocking(String),
    ErrorChecking(String),
    ErrorReading(String),
    ErrorPublishing,
    /// A note to be shown, with the lock held.
    Noting,
    /// The lock to be released; then either the next round, or the end.
    Unlocking(Option<Result<(), Failure>>),
    /// The snapshot to be removed.
    Sweeping(Result<(), Failure>),
    Over,
}

/// A live worker.
pub struct LiveWorker {
    pub session: String,
    pub recorder: i32,
    /// The recording was opened.
    pub opened: bool,
    pub progress: Preview,
}

impl LiveWorker {
    /// The same worker with other progress.
    pub open spec fn with(self, progress: Preview) -> LiveWorker {
        LiveWorker { progress, ..self }
    }

    /// The worker of `session`, which `recorder` records, has not begun.
    pub open spec fn is_new(self, session: String, recorder: i32) -> bool {
        &&& self.session == session
        &&& self.recorder == recorder
        &&& !self.opened
        &&& self.progress.is_blank()
        &&& self.progress.language is None
        &&& !self.progress.provisional
    }

    /// A worker that has not begun.
    pub fn new(session: String, recorder: i32) -> (worker: LiveWorker)
        ensures
            worker.is_new(session, recorder),
    {
        LiveWorker { session, recorder, opened: false, progress: Preview::blank(None, false) }
    }
}

/// `after` is `before` with the error set to `message`.
pub open spec fn with_error(before: Preview, after: Preview, message: Seq<char>) -> bool {
    &&& maybe(after.error) == Some(message)
    &&& after == Preview { error: after.error, ..before }
}

/// What a worker that has heard `frame` does: nothing yet, where no segment ends
/// in it; else it writes the segment's snapshot.
pub open spec fn heard_step(
    paths: Paths,
    worker: LiveWorker,
    frame: Frame,
    next: WorkerStage,
    action: Action,
) -> bool {
    if is_boundary(frame.pcm@, None) {
        next is Checking && action == (Action::Watch { recorder: worker.recorder })
    } else {
        exists|cut: usize|
            {
                &&& #[trigger] is_boundary(frame.pcm@, Some(cut))
                &&& next matches WorkerStage::Writing { start, end, ask } && {
                    &&& start == frame.start
                    &&& end == frame.start + cut
                    &&& segment_asks(paths, worker.session@, frame.pcm@.take(cut as int), ask)
                }
                &&& action matches Action::WriteSnapshot(pcm) && pcm@ == frame.pcm@.take(
                    cut as int,
                )
            }
    }
}

/// What a worker whose delivery is told `event` does.
pub open spec fn delivering_step(
    pre: LiveWorker,
    delivery: Delivery,
    event: Event,
    post: LiveWorker,
    next: WorkerStage,
    action: Action,
) -> bool {
    &&& post == pre.with(post.progress)
    &&& {
        ||| next matches WorkerStage::Delivering(later) && delivery_step(
            delivery,
            pre.progress,
            event,
            post.progress,
            DeliveryStep::Go(later, action),
        )
        ||| {
            &&& delivery_step(
                delivery,
                pre.progress,
                event,
                post.progress,
                DeliveryStep::Settled(Ok(())),
            )
            &&& next == WorkerStage::Unlocking(None)
            &&& action is Unlock
        }
        ||| exists|failed: Preview, failure: Failure|
            {
                &&& #[trigger] delivery_step(
                    delivery,
                    pre.progress,
                    event,
                    failed,
                    DeliveryStep::Settled(Err(failure)),
                )
                &&& with_error(failed, post.progress, failure.told())
                &&& next is Stopping
                &&& action == Action::Publish(post.progress)
            }
    }
}

/// The worker holds the lock at this stage.
pub open spec fn holds_lock(stage: WorkerStage) -> bool {
    match stage {
        WorkerStage::Confirming { .. } => true,
        WorkerStage::Delivering(_) => true,
        WorkerStage::Stopping => true,
        WorkerStage::ErrorChecking(_) => true,
        WorkerStage::ErrorReading(_) => true,
        WorkerStage::ErrorPublishing => true,
        WorkerStage::Noting => true,
        _ => false,
    }
}

/// A worker at `stage` gives up after `failure`: it releases the lock where it
/// holds it, and sweeps.
pub open spec fn gives_up(
    stage: WorkerStage,
    failure: Failure,
    next: WorkerStage,
    action: Action,
) -> bool {
    match stage {
        WorkerStage::Ready => next is Over && action == Action::End(Err(failure)),
        WorkerStage::Over => next is Over && action == Action::End(Err(failure)),
        _ => if holds_lock(stage) {
            next == WorkerStage::Unlocking(Some(Err(failure))) && action is Unlock
        } else {
            next == WorkerStage::Sweeping(Err(failure)) && action is RemoveSnapshot
        },
    }
}

/// What a live worker at `stage` does when told `event`.
pub open spec fn worker_step(
    paths: Paths,
    pre: LiveWorker,
    stage: WorkerStage,
    event: Event,
    post: LiveWorker,
    next: WorkerStage,
    action: Action,
) -> bool {
    let watch = Action::Watch { recorder: pre.recorder };
    let read = Action::Snapshot { from: pre.progress.consumed_bytes };
    match (stage, event) {
        (WorkerStage::Confirming { start, end, result }, Event::Watch { token, running }) => {
            &&& post == pre.with(post.progress)
            &&& if is_active(pre.session@, maybe(token), running) {
                next matches WorkerStage::Delivering(delivery) && delivery_begins(
                    pre.progress,
                    start,
                    end,
                    result,
                    post.progress,
                    delivery,
                    action,
                )
            } else {
                &&& post == pre
                &&& next == WorkerStage::Unlocking(Some(Ok(())))
                &&& action is Unlock
            }
        },
        (WorkerStage::Delivering(delivery), _) => delivering_step(
            pre,
            delivery,
            event,
            post,
            next,
            action,
        ),
        (WorkerStage::Opening, Event::Done) => {
            &&& post == LiveWorker { opened: true, ..pre }
            &&& next is Reading
            &&& action == read
        },
        _ => {
            &&& post == pre
            &&& match (stage, event) {
                (WorkerStage::Ready, Event::Begin) => if valid_token(pre.session@) {
                    next is Checking && action == watch
                } else {
                    next is Over && action == Action::End(Err(Failure::InvalidToken))
                },
                (WorkerStage::Checking, Event::Watch { token, running }) => if is_active(
                    pre.session@,
                    maybe(token),
                    running,
                ) {
                    next is Sleeping && action == (Action::Sleep { ms: INTERVAL_MS })
                } else {
                    next == WorkerStage::Sweeping(Ok(())) && action is RemoveSnapshot
                },
                (WorkerStage::Sleeping, Event::Done) => next is Rechecking && action == watch,
                (WorkerStage::Rechecking, Event::Watch { token, running }) => if !is_active(
                    pre.session@,
                    maybe(token),
                    running,
                ) {
                    next == WorkerStage::Sweeping(Ok(())) && action is RemoveSnapshot
                } else if pre.opened {
                    next is Reading && action == read
                } else {
                    next is Opening && action is OpenRecording
                },
                (WorkerStage::Opening, Event::Failed(_)) => next is Checking && action == watch,
                (WorkerStage::Reading, Event::Heard(None)) => next is Checking && action == watch,
                (WorkerStage::Reading, Event::Heard(Some(frame))) => if frame.well_formed()
                    && frame.start == pre.progress.consumed_bytes {
                    heard_step(paths, pre, frame, next, action)
                } else {
                    gives_up(stage, Failure::OutOfTurn, next, action)
                },
                (WorkerStage::Reading, Event::Failed(failure)) => {
                    &&& next matches WorkerStage::ErrorLocking(message) && message@
                        == failure.told()
                    &&& action is Lock
                },
                (WorkerStage::Writing { start, end, ask: Some(exchange) }, Event::Done) => {
                    &&& next == (WorkerStage::Asking { start, end })
                    &&& action == Action::AskDaemon(exchange)
                },
                (WorkerStage::Writing { start, end, ask: None }, Event::Done) => {
                    &&& next matches WorkerStage::Locking { start: s, end: e, result } && s
                        == start && e == end && says_nothing(result)
                    &&& action is Lock
                },
                (WorkerStage::Asking { start, end }, Event::Transcribed(result)) => {
                    next == (WorkerStage::Locking { start, end, result }) && action is Lock
                },
                (WorkerStage::Asking { .. }, Event::Failed(failure)) => {
                    &&& next matches WorkerStage::ErrorLocking(message) && message@
                        == failure.told()
                    &&& action is Lock
                },
                (WorkerStage::Locking { start, end, result }, Event::Done) => {
                    next == (WorkerStage::Confirming { start, end, result }) && action == watch
                },
                (WorkerStage::Stopping, Event::Done) => {
                    next is Noting && action == Action::Notify(Note::LiveStopped)
                },
                (WorkerStage::ErrorLocking(message), Event::Done) => {
                    next == WorkerStage::ErrorChecking(message) && action == watch
                },
                (
                    WorkerStage::ErrorChecking(message),
                    Event::Watch { token, running },
                ) => if is_active(pre.session@, maybe(token), running) {
                    next == WorkerStage::ErrorReading(message) && action is ReadPreview
                } else {
                    next == WorkerStage::Unlocking(Some(Ok(()))) && action is Unlock
                },
                (WorkerStage::ErrorReading(message), Event::Progress(found)) => {
                    &&& next is ErrorPublishing
                    &&& action matches Action::Publish(published) && match found {
                        Some(found) => with_error(found, published, message@),
                        None => {
                            &&& maybe(published.error) == Some(message@)
                            &&& published.provisional
                            &&& published.language is None
                            &&& (Preview { error: None, ..published }).is_blank()
                        },
                    }
                },
                (WorkerStage::ErrorPublishing, Event::Done) => {
                    next is Noting && action == Action::Notify(Note::PreviewUnavailable)
                },
                (WorkerStage::Noting, _) => {
                    next == WorkerStage::Unlocking(Some(Ok(()))) && action is Unlock
                },
                (WorkerStage::Unlocking(None), _) => next is Checking && action == watch,
                (WorkerStage::Unlocking(Some(result)), _) => {
                    next == WorkerStage::Sweeping(result) && action is RemoveSnapshot
                },
                (WorkerStage::Sweeping(result), _) => {
                    next is Over && action == Action::End(result)
                },
                (_, Event::Failed(failure)) => gives_up(stage, failure, next, action),
                _ => gives_up(stage, Failure::OutOfTurn, next, action),
            }
        },
    }
}

fn give_up(stage: WorkerStage, failure: Failure) -> (out: (WorkerStage, Action))
    ensures
        gives_up(stage, failure, out.0, out.1),
{
    match stage {
        WorkerStage::Ready => (WorkerStage::Over, Action::End(Err(failure))),
        WorkerStage::Over => (WorkerStage::Over, Action::End(Err(failure))),
        WorkerStage::Confirming { .. } => unlock(failure),
        WorkerStage::Delivering(_) => unlock(failure),
        WorkerStage::Stopping => unlock(failure),
        WorkerStage::ErrorChecking(_) => unlock(failure),
        WorkerStage::ErrorReading(_) => unlock(failure),
        WorkerStage::ErrorPublishing => unlock(failure),
        WorkerStage::Noting => unlock(failure),
        _ => (WorkerStage::Sweeping(Err(failure)), Action::RemoveSnapshot),
    }
}

fn unlock(failure: Failure) -> (out: (WorkerStage, Action))
    ensures
        out == (WorkerStage::Unlocking(Some(Err(failure))), Action::Unlock),
{
    (WorkerStage::Unlocking(Some(Err(failure))), Action::Unlock)
}

fn hear(paths: &Paths, worker: &LiveWorker, frame: Frame) -> (out: (WorkerStage, Action))
    requires
        frame.well_formed(),
    ensures
        heard_step(*paths, *worker, frame, out.0, out.1),
{
    match segment_boundary(frame.pcm.as_slice()) {
        None => (WorkerStage::Checking, Action::Watch { recorder: worker.recorder }),
        Some(cut) => {
            let ghost pcm = frame.pcm@;
            proof {
                if is_boundary(pcm, None) {
                    crate::wav::boundary_is_unique(pcm, None, Some(cut));
                }
            }
            let segment = frame.cut_to(cut);
            let ask = transcribe_segment(
                paths,
                worker.session.as_str(),
                segment.pcm.as_slice(),
            );
            let stage = WorkerStage::Writing { start: segment.start, end: segment.end, ask };
            assert(is_boundary(pcm, Some(cut)));
            (stage, Action::WriteSnapshot(segment.pcm))
        },
    }
}

/// Delivers finished segments while the recorder runs: the next step of it, from
/// `Ready` and `Begin` on.
pub fn worker(paths: &Paths, live: LiveWorker, stage: WorkerStage, event: Event) -> (out: (
    LiveWorker,
    WorkerStage,
    Action,
))
    ensures
        worker_step(*paths, live, stage, event, out.0, out.1, out.2),
{
    let recorder = live.recorder;
    let from = live.progress.consumed_bytes;
    let mut live = live;
    match (stage, event) {
        (WorkerStage::Confirming { start, end, result }, Event::Watch { token, running }) => {
            if !active(live.session.as_str(), &token, running) {
                return (live, WorkerStage::Unlocking(Some(Ok(()))), Action::Unlock);
            }
            let (progress, delivery, action) = deliver(live.progress, start, end, result);
            live.progress = progress;
            (live, WorkerStage::Delivering(delivery), action)
        },
        (WorkerStage::Delivering(delivery), event) => {
            let (progress, step) = delivery.advance(live.progress, event);
            live.progress = progress;
            match step {
                DeliveryStep::Go(later, action) => (
                    live,
                    WorkerStage::Delivering(later),
                    action,
                ),
                DeliveryStep::Settled(Ok(())) => (
                    live,
                    WorkerStage::Unlocking(None),
                    Action::Unlock,
                ),
                DeliveryStep::Settled(Err(failure)) => {
                    live.progress.error = Some(failure.message());
                    let action = Action::Publish(live.progress.clone());
                    (live, WorkerStage::Stopping, action)
                },
            }
        },
        (WorkerStage::Opening, Event::Done) => {
            live.opened = true;
            (live, WorkerStage::Reading, Action::Snapshot { from })
        },
        (WorkerStage::Ready, Event::Begin) => {
            if is_valid_token(live.session.as_str()) {
                (live, WorkerStage::Checking, Action::Watch { recorder })
            } else {
                (live, WorkerStage::Over, Action::End(Err(Failure::InvalidToken)))
            }
        },
        (WorkerStage::Checking, Event::Watch { token, running }) => {
            if active(live.session.as_str(), &token, running) {
                (live, WorkerStage::Sleeping, Action::Sleep { ms: INTERVAL_MS })
            } else {
                (live, WorkerStage::Sweeping(Ok(())), Action::RemoveSnapshot)
            }
        },
        (WorkerStage::Sleeping, Event::Done) => (
            live,
            WorkerStage::Rechecking,
            Action::Watch { recorder },
        ),
        (WorkerStage::Rechecking, Event::Watch { token, running }) => {
            if !active(live.session.as_str(), &token, running) {
                (live, WorkerStage::Sweeping(Ok(())), Action::RemoveSnapshot)
            } else if live.opened {
                (live, WorkerStage::Reading, Action::Snapshot { from })
            } else {
                (live, WorkerStage::Opening, Action::OpenRecording)
            }
        },
        (WorkerStage::Opening, Event::Failed(_)) => (
            live,
            WorkerStage::Checking,
            Action::Watch { recorder },
        ),
        (WorkerStage::Reading, Event::Heard(None)) => (
            live,
            WorkerStage::Checking,
            Action::Watch { recorder },
        ),
        (WorkerStage::Reading, Event::Heard(Some(frame))) => {
            let (next, action) = if frame.start == from && frame.is_whole() {
                hear(paths, &live, frame)
            } else {
                give_up(WorkerStage::Reading, Failure::OutOfTurn)
            };
            (live, next, action)
        },
        (WorkerStage::Reading, Event::Failed(failure)) => (
            live,
            WorkerStage::ErrorLocking(failure.message()),
            Action::Lock,
        ),
        (WorkerStage::Writing { start, end, ask: Some(exchange) }, Event::Done) => (
            live,
            WorkerStage::Asking { start, end },
            Action::AskDaemon(exchange),
        ),
        (WorkerStage::Writing { start, end, ask: None }, Event::Done) => (
            live,
            WorkerStage::Locking { start, end, result: nothing_said() },
            Action::Lock,
        ),
        (WorkerStage::Asking { start, end }, Event::Transcribed(result)) => (
            live,
            WorkerStage::Locking { start, end, result },
            Action::Lock,
        ),
        (WorkerStage::Asking { .. }, Event::Failed(failure)) => (
            live,
            WorkerStage::ErrorLocking(failure.message()),
            Action::Lock,
        ),
        (WorkerStage::Locking { start, end, result }, Event::Done) => (
            live,
            WorkerStage::Confirming { start, end, result },
            Action::Watch { recorder },
        ),
        (WorkerStage::Stopping, Event::Done) => (
            live,
            WorkerStage::Noting,
            Action::Notify(Note::LiveStopped),
        ),
        (WorkerStage::ErrorLocking(message), Event::Done) => (
            live,
            WorkerStage::ErrorChecking(message),
            Action::Watch { recorder },
        ),
        (WorkerStage::ErrorChecking(message), Event::Watch { token, running }) => {
            if active(live.session.as_str(), &token, running) {
                (live, WorkerStage::ErrorReading(message), Action::ReadPreview)
            } else {
                (live, WorkerStage::Unlocking(Some(Ok(()))), Action::Unlock)
            }
        },
        (WorkerStage::ErrorReading(message), Event::Progress(found)) => {
            let mut published = match found {
                Some(found) => found,
                None => Preview::blank(None, true),
            };
            published.error = Some(message);
            (live, WorkerStage::ErrorPublishing, Action::Publish(published))
        },
        (WorkerStage::ErrorPublishing, Event::Done) => (
            live,
            WorkerStage::Noting,
            Action::Notify(Note::PreviewUnavailable),
        ),
        (WorkerStage::Noting, _) => (
            live,
            WorkerStage::Unlocking(Some(Ok(()))),
            Action::Unlock,
        ),
        (WorkerStage::Unlocking(None), _) => (
            live,
            WorkerStage::Checking,
            Action::Watch { recorder },
        ),
        (WorkerStage::Unlocking(Some(result)), _) => (
            live,
            WorkerStage::Sweeping(result),
            Action::RemoveSnapshot,
        ),
        (WorkerStage::Sweeping(result), _) => (live, WorkerStage::Over, Action::End(result)),
        (stage, Event::Failed(failure)) => {
            let (next, action) = give_up(stage, failure);
            (live, next, action)
        },
        (stage, _) => {
            let (next, action) = give_up(stage, Failure::OutOfTurn);
            (live, next, action)
        },
    }
}

/// A run of a live worker: `events[i]`, told at `stages[i]`, is answered by
/// `actions[i]`; `live[i]` is the worker at that stage.
pub open spec fn worker_run(
    paths: Paths,
    live: Seq<LiveWorker>,
    stages: Seq<WorkerStage>,
    events: Seq<Event>,
    actions: Seq<Action>,
) -> bool {
    &&& stages.len() == events.len() + 1
    &&& live.len() == stages.len()
    &&& actions.len() == events.len()
    &&& stages[0] is Ready
    &&& live[0].progress.is_blank()
    &&& forall|i: int|
        0 <= i < events.len() ==> worker_step(
            paths,
            live[i],
            stages[i],
            #[trigger] events[i],
            live[i + 1],
            stages[i + 1],
            actions[i],
        )
}

/// Action `i` happens under the lock that was asked for by action `j`: it was
/// taken, the session was then seen to be active, and the lock was not released
/// since.
pub open spec fn under_lock(
    session: Seq<char>,
    events: Seq<Event>,
    actions: Seq<Action>,
    j: int,
    i: int,
) -> bool {
    &&& 0 <= j
    &&& j + 2 <= i
    &&& actions[j] is Lock
    &&& events[j + 1] is Done
    &&& actions[j + 1] is Watch
    &&& events[j + 2] matches Event::Watch { token, running } && is_active(
        session,
        maybe(token),
        running,
    )
    &&& forall|k: int| j < k < i ==> !(#[trigger] actions[k] is Unlock)
}

proof fn lemma_locked(
    paths: Paths,
    live: Seq<LiveWorker>,
    stages: Seq<WorkerStage>,
    events: Seq<Event>,
    actions: Seq<Action>,
    m: int,
)
    requires
        worker_run(paths, live, stages, events, actions),
        0 <= m <= events.len(),
    ensures
        live[m].session == live[0].session,
        stages[m] is Locking ==> m >= 1 && actions[m - 1] is Lock,
        stages[m] is Confirming ==> m >= 2 && actions[m - 2] is Lock && events[m - 1] is Done
            && actions[m - 1] is Watch,
        stages[m] is Delivering ==> exists|j: int|
            #[trigger] under_lock(live[0].session@, events, actions, j, m),
    decreases m,
{
    if m > 0 {
        lemma_locked(paths, live, stages, events, actions, m - 1);
        assert(worker_step(
            paths,
            live[m - 1],
            stages[m - 1],
            events[m - 1],
            live[m],
            stages[m],
            actions[m - 1],
        ));
        if stages[m] is Delivering {
            if stages[m - 1] is Delivering {
                let j = choose|j: int|
                    #[trigger] under_lock(live[0].session@, events, actions, j, m - 1);
                assert(under_lock(live[0].session@, events, actions, j, m));
            } else {
                assert(under_lock(live[0].session@, events, actions, m - 3, m));
            }
        }
    }
}

/// A live worker copies and pastes only under the command lock, and only after it
/// saw under that lock that its session is still the one that may deliver and
/// that the recorder still runs. So no late reply reaches another dictation,
/// and none is typed after stop or cancel, which take the token away under the
/// same lock.
pub proof fn live_worker_delivers_under_the_lock(
    paths: Paths,
    live: Seq<LiveWorker>,
    stages: Seq<WorkerStage>,
    events: Seq<Event>,
    actions: Seq<Action>,
    i: int,
)
    requires
        worker_run(paths, live, stages, events, actions),
        0 <= i < events.len(),
        actions[i] is Copy || actions[i] is Paste,
    ensures
        exists|j: int| #[trigger] under_lock(live[0].session@, events, actions, j, i),
{
    assert(worker_step(
        paths,
        live[i],
        stages[i],
        events[i],
        live[i + 1],
        stages[i + 1],
        actions[i],
    ));
    lemma_locked(paths, live, stages, events, actions, i);
    if stages[i] is Confirming {
        assert(under_lock(live[0].session@, events, actions, i - 2, i));
    }
}

/// The segment that a worker is about to deliver follows what was consumed.
pub open spec fn in_order(progress: Preview, stage: WorkerStage) -> bool {
    match stage {
        WorkerStage::Writing { start, end, .. } => progress.consumed_bytes == start <= end,
        WorkerStage::Asking { start, end } => progress.consumed_bytes == start <= end,
        WorkerStage::Locking { start, end, .. } => progress.consumed_bytes == start <= end,
        WorkerStage::Confirming { start, end, .. } => progress.consumed_bytes == start <= end,
        WorkerStage::Delivering(delivery) => delivery.stage
            != DeliveryStage::Committing ==> progress.consumed_bytes
            == delivery.start <= delivery.end,
        _ => true,
    }
}

/// `later` has come at least as far as `before`, and what was typed then is still
/// there.
pub open spec fn comes_after(before: Preview, later: Preview) -> bool {
    &&& before.consumed_bytes <= later.consumed_bytes
    &&& before.text@.is_prefix_of(later.text@)
}

proof fn lemma_step_grows(
    paths: Paths,
    pre: LiveWorker,
    stage: WorkerStage,
    event: Event,
    post: LiveWorker,
    next: WorkerStage,
    action: Action,
)
    requires
        worker_step(paths, pre, stage, event, post, next, action),
        in_order(pre.progress, stage),
    ensures
        in_order(post.progress, next),
        comes_after(pre.progress, post.progress),
{
    if let (WorkerStage::Delivering(delivery), _) = (stage, event) {
        if !(next is Delivering) && !(next is Unlocking) {
            let (failed, failure) = choose|failed: Preview, failure: Failure|
                {
                    &&& #[trigger] delivery_step(
                        delivery,
                        pre.progress,
                        event,
                        failed,
                        DeliveryStep::Settled(Err(failure)),
                    )
                    &&& with_error(failed, post.progress, failure.told())
                    &&& next is Stopping
                    &&& action == Action::Publish(post.progress)
                };
            assert(post.progress.text == pre.progress.text);
        }
    }
}

/// Live typing is append-only: over any stretch of a run the typed text only grows
/// at its end, and consumed audio is never consumed again.
pub proof fn live_typing_is_append_only(
    paths: Paths,
    live: Seq<LiveWorker>,
    stages: Seq<WorkerStage>,
    events: Seq<Event>,
    actions: Seq<Action>,
    i: int,
    k: int,
)
    requires
        worker_run(paths, live, stages, events, actions),
        0 <= i <= k <= events.len(),
    ensures
        comes_after(live[i].progress, live[k].progress),
        in_order(live[k].progress, stages[k]),
    decreases k,
{
    if k > 0 {
        live_typing_is_append_only(paths, live, stages, events, actions, 0, k - 1);
        assert(worker_step(
            paths,
            live[k - 1],
            stages[k - 1],
            events[k - 1],
            live[k],
            stages[k],
            actions[k - 1],
        ));
        lemma_step_grows(
            paths,
            live[k - 1],
            stages[k - 1],
            events[k - 1],
            live[k],
            stages[k],
            actions[k - 1],
        );
        if i < k {
            live_typing_is_append_only(paths, live, stages, events, actions, i, k - 1);
        }
    }
}

/// What finishing a dictation waits for.
pub enum FinishStage {
    Ready,
    /// The recording to be opened.
    Opening,
    Reading,
    /// The snapshot of what is left to be written.
    Writing { start: u64, end: u64, ask: Option<Exchange> },
    Asking { start: u64, end: u64 },
    Delivering(Delivery),
    /// The whole text to be on the clipboard, for manual reuse.
    Copying,
    Telling,
    RemovingWav,
    RemovingPreview,
    /// The snapshot to be removed.
    Sweeping(Result<(), Failure>),
    Over,
}

/// The session name of the snapshot that finishing writes.
pub const FINAL_SESSION: &'static str = "final";

/// The user is shown what was typed.
pub open spec fn shows_typed(progress: Preview, action: Action) -> bool {
    action == Action::Notify(
        Note::Spilled { language: progress.language, text: progress.text },
    )
}

/// What finishing does when its delivery is told `event`.
pub open spec fn finish_delivering(
    before: Preview,
    delivery: Delivery,
    event: Event,
    after: Preview,
    next: FinishStage,
    action: Action,
) -> bool {
    ||| next matches FinishStage::Delivering(later) && delivery_step(
        delivery,
        before,
        event,
        after,
        DeliveryStep::Go(later, action),
    )
    ||| {
        &&& delivery_step(delivery, before, event, after, DeliveryStep::Settled(Ok(())))
        &&& next is Reading
        &&& action == (Action::Snapshot { from: after.consumed_bytes })
    }
    ||| {
        &&& next matches FinishStage::Sweeping(Err(failure)) && delivery_step(
            delivery,
            before,
            event,
            after,
            DeliveryStep::Settled(Err(failure)),
        )
        &&& action is RemoveSnapshot
    }
}

/// What finishing at `stage` does when told `event`.
pub open spec fn finish_step(
    paths: Paths,
    before: Preview,
    stage: FinishStage,
    event: Event,
    after: Preview,
    next: FinishStage,
    action: Action,
) -> bool {
    match (stage, event) {
        (FinishStage::Writing { start, end, ask: None }, Event::Done) => {
            exists|result: Transcription|
                {
                    &&& #[trigger] says_nothing(result)
                    &&& next matches FinishStage::Delivering(delivery) && delivery_begins(
                        before,
                        start,
                        end,
                        result,
                        after,
                        delivery,
                        action,
                    )
                }
        },
        (FinishStage::Asking { start, end }, Event::Transcribed(result)) => {
            next matches FinishStage::Delivering(delivery) && delivery_begins(
                before,
                start,
                end,
                result,
                after,
                delivery,
                action,
            )
        },
        (FinishStage::Delivering(delivery), _) => finish_delivering(
            before,
            delivery,
            event,
            after,
            next,
            action,
        ),
        _ => {
            &&& after == before
            &&& match (stage, event) {
                (FinishStage::Ready, Event::Begin) => if before.delivery_pending {
                    next is Over && action == Action::End(Err(Failure::PasteUnconfirmed))
                } else {
                    next is Opening && action is OpenRecording
                },
                (FinishStage::Opening, Event::Done) => {
                    next is Reading && action == (Action::Snapshot { from: before.consumed_bytes })
                },
                (FinishStage::Reading, Event::Heard(Some(frame))) => if frame.well_formed()
                    && before.consumed_bytes == frame.start < frame.end {
                    &&& next matches FinishStage::Writing { start, end, ask } && start
                        == frame.start && end == frame.end && segment_asks(
                        paths,
                        FINAL_SESSION@,
                        frame.pcm@,
                        ask,
                    )
                    &&& action == Action::WriteSnapshot(frame.pcm)
                } else {
                    next == FinishStage::Sweeping(Err(Failure::OutOfTurn)) && action
                        is RemoveSnapshot
                },
                (FinishStage::Reading, Event::Heard(None)) => if before.text@.len() > 0 {
                    next is Copying && action == Action::Copy(before.text)
                } else {
                    next is Telling && shows_typed(before, action)
                },
                (FinishStage::Writing { start, end, ask: Some(exchange) }, Event::Done) => {
                    &&& next == (FinishStage::Asking { start, end })
                    &&& action == Action::AskDaemon(exchange)
                },
                (FinishStage::Copying, Event::Done) => {
                    next is Telling && shows_typed(before, action)
                },
                (FinishStage::Telling, _) => if before.text@.len() > 0 {
                    next is RemovingWav && action == Action::Remove(Mark::RecordingWav)
                } else {
                    next is RemovingPreview && action == Action::Remove(Mark::Preview)
                },
                (FinishStage::RemovingWav, Event::Done) => {
                    next is RemovingPreview && action == Action::Remove(Mark::Preview)
                },
                (FinishStage::RemovingPreview, Event::Done) => {
                    next == FinishStage::Sweeping(Ok(())) && action is RemoveSnapshot
                },
                (FinishStage::Sweeping(result), _) => {
                    next is Over && action == Action::End(result)
                },
                (FinishStage::Ready, _) => {
                    next is Over && action == Action::End(Err(Failure::OutOfTurn))
                },
                (FinishStage::Over, _) => {
                    next is Over && action == Action::End(Err(Failure::OutOfTurn))
                },
                (_, Event::Failed(failure)) => {
                    next == FinishStage::Sweeping(Err(failure)) && action is RemoveSnapshot
                },
                _ => {
                    next == FinishStage::Sweeping(Err(Failure::OutOfTurn)) && action
                        is RemoveSnapshot
                },
            }
        },
    }
}

/// Finishes a dictation whose recording was stopped, with the command lock held:
/// the next step of it. Only audio after the last delivered segment is
/// processed; the whole dictation is never replayed.
pub fn finish(paths: &Paths, progress: Preview, stage: FinishStage, event: Event) -> (out: (
    Preview,
    FinishStage,
    Action,
))
    ensures
        finish_step(*paths, progress, stage, event, out.0, out.1, out.2),
{
    match (stage, event) {
        (FinishStage::Writing { start, end, ask: None }, Event::Done) => {
            let result = nothing_said();
            let ghost said = result;
            let ghost before = progress;
            let (progress, delivery, action) = deliver(progress, start, end, result);
            assert(delivery_begins(before, start, end, said, progress, delivery, action));
            (progress, FinishStage::Delivering(delivery), action)
        },
        (FinishStage::Asking { start, end }, Event::Transcribed(result)) => {
            let (progress, delivery, action) = deliver(progress, start, end, result);
            (progress, FinishStage::Delivering(delivery), action)
        },
        (FinishStage::Delivering(delivery), event) => {
            let (progress, step) = delivery.advance(progress, event);
            match step {
                DeliveryStep::Go(later, action) => (
                    progress,
                    FinishStage::Delivering(later),
                    action,
                ),
                DeliveryStep::Settled(Ok(())) => {
                    let from = progress.consumed_bytes;
                    (progress, FinishStage::Reading, Action::Snapshot { from })
                },
                DeliveryStep::Settled(Err(failure)) => (
                    progress,
                    FinishStage::Sweeping(Err(failure)),
                    Action::RemoveSnapshot,
                ),
            }
        },
        (FinishStage::Ready, Event::Begin) => if progress.delivery_pending {
            (progress, FinishStage::Over, Action::End(Err(Failure::PasteUnconfirmed)))
        } else {
            (progress, FinishStage::Opening, Action::OpenRecording)
        },
        (FinishStage::Opening, Event::Done) => {
            let from = progress.consumed_bytes;
            (progress, FinishStage::Reading, Action::Snapshot { from })
        },
        (FinishStage::Reading, Event::Heard(Some(frame))) => {
            if progress.consumed_bytes == frame.start && frame.start < frame.end
                && frame.is_whole() {
                let ask = transcribe_segment(paths, FINAL_SESSION, frame.pcm.as_slice());
                let stage = FinishStage::Writing { start: frame.start, end: frame.end, ask };
                (progress, stage, Action::WriteSnapshot(frame.pcm))
            } else {
                (
                    progress,
                    FinishStage::Sweeping(Err(Failure::OutOfTurn)),
                    Action::RemoveSnapshot,
                )
            }
        },
        (FinishStage::Reading, Event::Heard(None)) => if progress.text.as_str().is_empty() {
            let action = Action::Notify(progress.typed());
            (progress, FinishStage::Telling, action)
        } else {
            let action = Action::Copy(progress.text.clone());
            (progress, FinishStage::Copying, action)
        },
        (FinishStage::Writing { start, end, ask: Some(exchange) }, Event::Done) => (
            progress,
            FinishStage::Asking { start, end },
            Action::AskDaemon(exchange),
        ),
        (FinishStage::Copying, Event::Done) => {
            let action = Action::Notify(progress.typed());
            (progress, FinishStage::Telling, action)
        },
        // A recording that nothing was typed of stays.
        (FinishStage::Telling, _) => if progress.text.as_str().is_empty() {
            (progress, FinishStage::RemovingPreview, Action::Remove(Mark::Preview))
        } else {
            (progress, FinishStage::RemovingWav, Action::Remove(Mark::RecordingWav))
        },
        (FinishStage::RemovingWav, Event::Done) => (
            progress,
            FinishStage::RemovingPreview,
            Action::Remove(Mark::Preview),
        ),
        (FinishStage::RemovingPreview, Event::Done) => (
            progress,
            FinishStage::Sweeping(Ok(())),
            Action::RemoveSnapshot,
        ),
        (FinishStage::Sweeping(result), _) => (progress, FinishStage::Over, Action::End(result)),
        (FinishStage::Ready, _) => (
            progress,
            FinishStage::Over,
            Action::End(Err(Failure::OutOfTurn)),
        ),
        (FinishStage::Over, _) => (
            progress,
            FinishStage::Over,
            Action::End(Err(Failure::OutOfTurn)),
        ),
        (_, Event::Failed(failure)) => (
            progress,
            FinishStage::Sweeping(Err(failure)),
            Action::RemoveSnapshot,
        ),
        _ => (
            progress,
            FinishStage::Sweeping(Err(Failure::OutOfTurn)),
            Action::RemoveSnapshot,
        ),
    }
}

/// A run of finishing: `events[i]`, told at `stages[i]`, is answered by
/// `actions[i]`; `progress[i]` is the progress at that stage.
pub open spec fn finish_run(
    paths: Paths,
    progress: Seq<Preview>,
    stages: Seq<FinishStage>,
    events: Seq<Event>,
    actions: Seq<Action>,
) -> bool {
    &&& stages.len() == events.len() + 1
    &&& progress.len() == stages.len()
    &&& actions.len() == events.len()
    &&& stages[0] is Ready
    &&& forall|i: int|
        0 <= i < events.len() ==> finish_step(
            paths,
            progress[i],
            stages[i],
            #[trigger] events[i],
            progress[i + 1],
            stages[i + 1],
            actions[i],
        )
}

/// At event `j` no audio was left, and the whole typed text, if any, was then
/// copied.
pub open spec fn heard_out(
    text: String,
    events: Seq<Event>,
    actions: Seq<Action>,
    j: int,
    i: int,
) -> bool {
    &&& 0 <= j < i
    &&& events[j] == Event::Heard(None)
    &&& text@.len() > 0 ==> j + 1 < i && actions[j] == Action::Copy(text) && events[j + 1] is Done
}

proof fn lemma_heard_out(
    paths: Paths,
    progress: Seq<Preview>,
    stages: Seq<FinishStage>,
    events: Seq<Event>,
    actions: Seq<Action>,
    m: int,
)
    requires
        finish_run(paths, progress, stages, events, actions),
        0 <= m <= events.len(),
    ensures
        stages[m] is Copying ==> m >= 1 && events[m - 1] == Event::Heard(None) && actions[m - 1]
            == Action::Copy(progress[m].text),
        stages[m] is Telling || stages[m] is RemovingWav || stages[m] is RemovingPreview || (
        stages[m] matches FinishStage::Sweeping(Ok(_))) ==> exists|j: int|
            #[trigger] heard_out(progress[m].text, events, actions, j, m),
    decreases m,
{
    if m > 0 {
        lemma_heard_out(paths, progress, stages, events, actions, m - 1);
        assert(finish_step(
            paths,
            progress[m - 1],
            stages[m - 1],
            events[m - 1],
            progress[m],
            stages[m],
            actions[m - 1],
        ));
        let text = progress[m].text;
        if stages[m] is Telling {
            if stages[m - 1] is Copying {
                assert(heard_out(text, events, actions, m - 2, m));
            } else {
                assert(heard_out(text, events, actions, m - 1, m));
            }
        } else if stages[m] is RemovingWav || stages[m] is RemovingPreview || (stages[m] matches
            FinishStage::Sweeping(Ok(_))) {
            let j = choose|j: int|
                #[trigger] heard_out(progress[m - 1].text, events, actions, j, m - 1);
            assert(heard_out(text, events, actions, j, m));
        }
    }
}

/// At event `j` no audio was left; something was typed, and all of it was then copied.
pub open spec fn all_typed(
    text: String,
    events: Seq<Event>,
    actions: Seq<Action>,
    j: int,
    i: int,
) -> bool {
    &&& 0 <= j
    &&& j + 1 < i
    &&& events[j] == Event::Heard(None)
    &&& text@.len() > 0
    &&& actions[j] == Action::Copy(text)
    &&& events[j + 1] is Done
}

/// Finishing removes the recording only after all of its audio was typed and the
/// whole text, which is not empty, was put on the clipboard. A failure leaves it in
/// place, and so does a dictation that nothing was typed of.
pub proof fn finishing_keeps_the_recording(
    paths: Paths,
    progress: Seq<Preview>,
    stages: Seq<FinishStage>,
    events: Seq<Event>,
    actions: Seq<Action>,
    i: int,
)
    requires
        finish_run(paths, progress, stages, events, actions),
        0 <= i < events.len(),
        actions[i] == Action::Remove(Mark::RecordingWav),
    ensures
        exists|j: int| #[trigger] all_typed(progress[i].text, events, actions, j, i),
{
    assert(finish_step(
        paths,
        progress[i],
        stages[i],
        events[i],
        progress[i + 1],
        stages[i + 1],
        actions[i],
    ));
    lemma_heard_out(paths, progress, stages, events, actions, i);
    let j = choose|j: int| #[trigger] heard_out(progress[i].text, events, actions, j, i);
    assert(all_typed(progress[i].text, events, actions, j, i));
}

/// Finishing ends well only after all audio was heard and the whole typed text, if
/// any, was put on the clipboard.
pub proof fn finished_means_heard_out(
    paths: Paths,
    progress: Seq<Preview>,
    stages: Seq<FinishStage>,
    events: Seq<Event>,
    actions: Seq<Action>,
    i: int,
)
    requires
        finish_run(paths, progress, stages, events, actions),
        0 <= i < events.len(),
        actions[i] == Action::End(Ok(())),
    ensures
        exists|j: int| #[trigger] heard_out(progress[i].text, events, actions, j, i),
{
    assert(finish_step(
        paths,
        progress[i],
        stages[i],
        events[i],
        progress[i + 1],
        stages[i + 1],
        actions[i],
    ));
    lemma_heard_out(paths, progress, stages, events, actions, i);
}


/// A paste that may or may not have happened is never repeated: finishing refuses
/// at once.
pub proof fn unconfirmed_paste_is_not_repeated(
    paths: Paths,
    progress: Seq<Preview>,
    stages: Seq<FinishStage>,
    events: Seq<Event>,
    actions: Seq<Action>,
    i: int,
)
    requires
        finish_run(paths, progress, stages, events, actions),
        progress[0].delivery_pending,
        0 <= i < events.len(),
    ensures
        actions[i] matches Action::End(Err(_)),
        events[0] is Begin ==> actions[0] == Action::End(Err(Failure::PasteUnconfirmed)),
{
    lemma_refused(paths, progress, stages, events, actions, i);
    lemma_refused(paths, progress, stages, events, actions, 0);
}

proof fn lemma_refused(
    paths: Paths,
    progress: Seq<Preview>,
    stages: Seq<FinishStage>,
    events: Seq<Event>,
    actions: Seq<Action>,
    i: int,
)
    requires
        finish_run(paths, progress, stages, events, actions),
        progress[0].delivery_pending,
        0 <= i < events.len(),
    ensures
        stages[i + 1] is Over,
        actions[i] matches Action::End(Err(_)),
        i == 0 && events[0] is Begin ==> actions[0] == Action::End(Err(Failure::PasteUnconfirmed)),
    decreases i,
{
    if i > 0 {
        lemma_refused(paths, progress, stages, events, actions, i - 1);
    }
    assert(finish_step(
        paths,
        progress[i],
        stages[i],
        events[i],
        progress[i + 1],
        stages[i + 1],
        actions[i],
    ));
}

/// Finishing is append-only too: it types only behind what was typed, and takes
/// up the audio where it was left.
pub proof fn finishing_is_append_only(
    paths: Paths,
    progress: Seq<Preview>,
    stages: Seq<FinishStage>,
    events: Seq<Event>,
    actions: Seq<Action>,
    i: int,
    k: int,
)
    requires
        finish_run(paths, progress, stages, events, actions),
        0 <= i <= k <= events.len(),
    ensures
        comes_after(progress[i], progress[k]),
        match stages[k] {
            FinishStage::Writing { start, end, .. } => progress[k].consumed_bytes == start < end,
            FinishStage::Asking { start, end } => progress[k].consumed_bytes == start < end,
            FinishStage::Delivering(delivery) => delivery.stage
                != DeliveryStage::Committing ==> progress[k].consumed_bytes
                == delivery.start < delivery.end,
            _ => true,
        },
    decreases k,
{
    if k > 0 {
        finishing_is_append_only(paths, progress, stages, events, actions, 0, k - 1);
        assert(finish_step(
            paths,
            progress[k - 1],
            stages[k - 1],
            events[k - 1],
            progress[k],
            stages[k],
            actions[k - 1],
        ));
        assert(comes_after(progress[k - 1], progress[k]));
        if i < k {
            finishing_is_append_only(paths, progress, stages, events, actions, i, k - 1);
        }
    }
}

/// A live worker asks for a keystroke only right after the progress that announces it
/// was published.
pub proof fn live_paste_is_announced(
    paths: Paths,
    live: Seq<LiveWorker>,
    stages: Seq<WorkerStage>,
    events: Seq<Event>,
    actions: Seq<Action>,
    i: int,
)
    requires
        worker_run(paths, live, stages, events, actions),
        0 <= i < events.len(),
        actions[i] is Paste,
    ensures
        i >= 1,
        actions[i - 1] matches Action::Publish(progress) && progress.delivery_pending,
        events[i] is Done,
{
    assert(worker_step(
        paths,
        live[i],
        stages[i],
        events[i],
        live[i + 1],
        stages[i + 1],
        actions[i],
    ));
    if i > 0 {
        assert(worker_step(
            paths,
            live[i - 1],
            stages[i - 1],
            events[i - 1],
            live[i],
            stages[i],
            actions[i - 1],
        ));
    }
}

/// All that a live worker copies, and all that it has typed, holds no line break.
pub proof fn live_typing_is_one_line(
    paths: Paths,
    live: Seq<LiveWorker>,
    stages: Seq<WorkerStage>,
    events: Seq<Event>,
    actions: Seq<Action>,
    m: int,
)
    requires
        worker_run(paths, live, stages, events, actions),
        0 <= m <= events.len(),
    ensures
        one_line(live[m].progress.text@),
        stages[m] matches WorkerStage::Delivering(delivery) ==> keeps_one_line(
            delivery,
            live[m].progress,
        ),
        m > 0 ==> (actions[m - 1] matches Action::Copy(text) ==> one_line(text@)),
    decreases m,
{
    if m > 0 {
        live_typing_is_one_line(paths, live, stages, events, actions, m - 1);
        let (pre, post) = (live[m - 1], live[m]);
        let event = events[m - 1];
        let action = actions[m - 1];
        assert(worker_step(paths, pre, stages[m - 1], event, post, stages[m], action));
        match (stages[m - 1], event) {
            (WorkerStage::Confirming { start, end, result }, Event::Watch { .. }) => {
                if let WorkerStage::Delivering(delivery) = stages[m] {
                    delivery_begins_with_one_line(
                        pre.progress,
                        start,
                        end,
                        result,
                        post.progress,
                        delivery,
                        action,
                    );
                }
            },
            (WorkerStage::Delivering(delivery), _) => {
                if let WorkerStage::Delivering(later) = stages[m] {
                    delivery_keeps_one_line(
                        delivery,
                        pre.progress,
                        event,
                        post.progress,
                        DeliveryStep::Go(later, action),
                    );
                } else if stages[m] is Unlocking {
                    delivery_keeps_one_line(
                        delivery,
                        pre.progress,
                        event,
                        post.progress,
                        DeliveryStep::Settled(Ok(())),
                    );
                } else {
                    let (failed, failure) = choose|failed: Preview, failure: Failure|
                        {
                            &&& #[trigger] delivery_step(
                                delivery,
                                pre.progress,
                                event,
                                failed,
                                DeliveryStep::Settled(Err(failure)),
                            )
                            &&& with_error(failed, post.progress, failure.told())
                            &&& stages[m] is Stopping
                            &&& action == Action::Publish(post.progress)
                        };
                    delivery_keeps_one_line(
                        delivery,
                        pre.progress,
                        event,
                        failed,
                        DeliveryStep::Settled(Err(failure)),
                    );
                }
            },
            _ => {},
        }
    } else {
        assert(one_line(live[0].progress.text@));
    }
}

/// Finishing asks for a keystroke only right after the progress that announces it was
/// published.
pub proof fn final_paste_is_announced(
    paths: Paths,
    progress: Seq<Preview>,
    stages: Seq<FinishStage>,
    events: Seq<Event>,
    actions: Seq<Action>,
    i: int,
)
    requires
        finish_run(paths, progress, stages, events, actions),
        0 <= i < events.len(),
        actions[i] is Paste,
    ensures
        i >= 1,
        actions[i - 1] matches Action::Publish(progress) && progress.delivery_pending,
        events[i] is Done,
{
    assert(finish_step(
        paths,
        progress[i],
        stages[i],
        events[i],
        progress[i + 1],
        stages[i + 1],
        actions[i],
    ));
    if i > 0 {
        assert(finish_step(
            paths,
            progress[i - 1],
            stages[i - 1],
            events[i - 1],
            progress[i],
            stages[i],
            actions[i - 1],
        ));
    }
}

/// Where what was typed before holds no line break, nothing that finishing copies
/// does.
pub proof fn finishing_is_one_line(
    paths: Paths,
    progress: Seq<Preview>,
    stages: Seq<FinishStage>,
    events: Seq<Event>,
    actions: Seq<Action>,
    m: int,
)
    requires
        finish_run(paths, progress, stages, events, actions),
        one_line(progress[0].text@),
        0 <= m <= events.len(),
    ensures
        one_line(progress[m].text@),
        stages[m] matches FinishStage::Delivering(delivery) ==> keeps_one_line(
            delivery,
            progress[m],
        ),
        m > 0 ==> (actions[m - 1] matches Action::Copy(text) ==> one_line(text@)),
    decreases m,
{
    if m > 0 {
        finishing_is_one_line(paths, progress, stages, events, actions, m - 1);
        let (before, after) = (progress[m - 1], progress[m]);
        let event = events[m - 1];
        let action = actions[m - 1];
        assert(finish_step(paths, before, stages[m - 1], event, after, stages[m], action));
        match (stages[m - 1], event) {
            (FinishStage::Writing { start, end, ask: None }, Event::Done) => {
                let result = choose|result: Transcription|
                    {
                        &&& #[trigger] says_nothing(result)
                        &&& stages[m] matches FinishStage::Delivering(delivery)
                            && delivery_begins(before, start, end, result, after, delivery, action)
                    };
                if let FinishStage::Delivering(delivery) = stages[m] {
                    delivery_begins_with_one_line(
                        before,
                        start,
                        end,
                        result,
                        after,
                        delivery,
                        action,
                    );
                }
            },
            (FinishStage::Asking { start, end }, Event::Transcribed(result)) => {
                if let FinishStage::Delivering(delivery) = stages[m] {
                    delivery_begins_with_one_line(
                        before,
                        start,
                        end,
                        result,
                        after,
                        delivery,
                        action,
                    );
                }
            },
            (FinishStage::Delivering(delivery), _) => {
                if let FinishStage::Delivering(later) = stages[m] {
                    delivery_keeps_one_line(
                        delivery,
                        before,
                        event,
                        after,
                        DeliveryStep::Go(later, action),
                    );
                } else if stages[m] is Reading {
                    delivery_keeps_one_line(
                        delivery,
                        before,
                        event,
                        after,
                        DeliveryStep::Settled(Ok(())),
                    );
                } else if let FinishStage::Sweeping(Err(failure)) = stages[m] {
                    delivery_keeps_one_line(
                        delivery,
                        before,
                        event,
                        after,
                        DeliveryStep::Settled(Err(failure)),
                    );
                }
            },
            _ => {},
        }
    }
}

/// The audio that was last written to a snapshot, before action `m`.
pub open spec fn written(actions: Seq<Action>, m: int) -> Seq<u8>
    decreases m,
{
    if m <= 0 {
        Seq::empty()
    } else {
        match actions[m - 1] {
            Action::WriteSnapshot(pcm) => pcm@,
            _ => written(actions, m - 1),
        }
    }
}

/// The audio that was delivered, up to stage `m`: whenever more counts as consumed, what
/// was written to the snapshot then. `consumed[i]` is what counts as consumed at stage
/// `i`.
pub open spec fn delivered(consumed: Seq<u64>, actions: Seq<Action>, m: int) -> Seq<u8>
    decreases m,
{
    if m <= 0 {
        Seq::empty()
    } else if consumed[m] == consumed[m - 1] {
        delivered(consumed, actions, m - 1)
    } else {
        delivered(consumed, actions, m - 1) + written(actions, m - 1)
    }
}

/// What counts as consumed at each stage of a live worker.
pub open spec fn worker_consumed(live: Seq<LiveWorker>) -> Seq<u64> {
    live.map_values(|worker: LiveWorker| worker.progress.consumed_bytes)
}

/// What counts as consumed at each stage of finishing.
pub open spec fn finish_consumed(progress: Seq<Preview>) -> Seq<u64> {
    progress.map_values(|preview: Preview| preview.consumed_bytes)
}

/// The segment from `start` to `end` comes next in `source`, and `snapshot` holds it.
spec fn comes_next(
    source: Seq<u8>,
    consumed: u64,
    start: u64,
    end: u64,
    snapshot: Seq<u8>,
) -> bool {
    &&& consumed == start < end <= source.len()
    &&& snapshot == source.subrange(start as int, end as int)
}

/// What a live worker is about to deliver comes next in `source`.
spec fn worker_next(
    source: Seq<u8>,
    progress: Preview,
    stage: WorkerStage,
    snapshot: Seq<u8>,
) -> bool {
    let consumed = progress.consumed_bytes;
    match stage {
        WorkerStage::Writing { start, end, .. } => {
            comes_next(source, consumed, start, end, snapshot)
        },
        WorkerStage::Asking { start, end } => comes_next(source, consumed, start, end, snapshot),
        WorkerStage::Locking { start, end, .. } => {
            comes_next(source, consumed, start, end, snapshot)
        },
        WorkerStage::Confirming { start, end, .. } => {
            comes_next(source, consumed, start, end, snapshot)
        },
        WorkerStage::Delivering(delivery) => delivery.stage
            != DeliveryStage::Committing ==> comes_next(
            source,
            consumed,
            delivery.start,
            delivery.end,
            snapshot,
        ),
        _ => true,
    }
}

proof fn lemma_delivered_more(
    source: Seq<u8>,
    consumed: Seq<u64>,
    actions: Seq<Action>,
    m: int,
    start: int,
)
    requires
        0 < m < consumed.len(),
        0 <= start <= consumed[m - 1] <= source.len(),
        delivered(consumed, actions, m - 1) == source.subrange(start, consumed[m - 1] as int),
        consumed[m] == consumed[m - 1] || (consumed[m - 1] < consumed[m] <= source.len() && written(
            actions,
            m - 1,
        ) == source.subrange(consumed[m - 1] as int, consumed[m] as int)),
    ensures
        delivered(consumed, actions, m) == source.subrange(start, consumed[m] as int),
{
    if consumed[m] != consumed[m - 1] {
        assert(source.subrange(start, consumed[m - 1] as int) + source.subrange(
            consumed[m - 1] as int,
            consumed[m] as int,
        ) =~= source.subrange(start, consumed[m] as int));
    }
}

proof fn lemma_worker_audio(
    paths: Paths,
    live: Seq<LiveWorker>,
    stages: Seq<WorkerStage>,
    events: Seq<Event>,
    actions: Seq<Action>,
    source: Seq<u8>,
    m: int,
)
    requires
        worker_run(paths, live, stages, events, actions),
        hears(source, events),
        0 <= m <= events.len(),
    ensures
        live[m].progress.consumed_bytes <= source.len(),
        delivered(worker_consumed(live), actions, m) == source.take(
            live[m].progress.consumed_bytes as int,
        ),
        worker_next(source, live[m].progress, stages[m], written(actions, m)),
    decreases m,
{
    let consumed = worker_consumed(live);
    if m == 0 {
        assert(source.take(0) =~= Seq::empty());
    } else {
        lemma_worker_audio(paths, live, stages, events, actions, source, m - 1);
        let (pre, post) = (live[m - 1], live[m]);
        let event = events[m - 1];
        let action = actions[m - 1];
        assert(worker_step(paths, pre, stages[m - 1], event, post, stages[m], action));
        assert(source.take(pre.progress.consumed_bytes as int) =~= source.subrange(
            0,
            consumed[m - 1] as int,
        ));
        match (stages[m - 1], event) {
            (WorkerStage::Reading, Event::Heard(Some(frame))) => {
                if let WorkerStage::Writing { start, end, .. } = stages[m] {
                    let cut = choose|cut: usize|
                        {
                            &&& #[trigger] is_boundary(frame.pcm@, Some(cut))
                            &&& end == frame.start + cut
                            &&& action matches Action::WriteSnapshot(pcm) && pcm@
                                == frame.pcm@.take(cut as int)
                        };
                    assert(written(actions, m) =~= source.subrange(start as int, end as int));
                }
            },
            (WorkerStage::Delivering(delivery), _) => {
                if stages[m] is Stopping {
                    let (failed, failure) = choose|failed: Preview, failure: Failure|
                        {
                            &&& #[trigger] delivery_step(
                                delivery,
                                pre.progress,
                                event,
                                failed,
                                DeliveryStep::Settled(Err(failure)),
                            )
                            &&& with_error(failed, post.progress, failure.told())
                        };
                    assert(post.progress.consumed_bytes == pre.progress.consumed_bytes);
                }
            },
            _ => {},
        }
        lemma_delivered_more(source, consumed, actions, m, 0);
        assert(source.take(post.progress.consumed_bytes as int) =~= source.subrange(
            0,
            consumed[m] as int,
        ));
    }
}

/// What live typing has written to snapshots and delivered is, taken together, the
/// recording from its beginning to what counts as consumed: in order, without a gap, and
/// no byte twice. What it writes next follows there.
pub proof fn live_audio_is_delivered_in_order(
    paths: Paths,
    live: Seq<LiveWorker>,
    stages: Seq<WorkerStage>,
    events: Seq<Event>,
    actions: Seq<Action>,
    source: Seq<u8>,
    m: int,
)
    requires
        worker_run(paths, live, stages, events, actions),
        hears(source, events),
        0 <= m <= events.len(),
    ensures
        live[m].progress.consumed_bytes <= source.len(),
        delivered(worker_consumed(live), actions, m) == source.take(
            live[m].progress.consumed_bytes as int,
        ),
        m < events.len() ==> (actions[m] matches Action::WriteSnapshot(pcm) ==> {
            let from = live[m].progress.consumed_bytes;
            &&& 0 < pcm@.len()
            &&& from + pcm@.len() <= source.len()
            &&& pcm@ == source.subrange(from as int, from + pcm@.len())
        }),
{
    lemma_worker_audio(paths, live, stages, events, actions, source, m);
    if m < events.len() {
        lemma_worker_audio(paths, live, stages, events, actions, source, m + 1);
        assert(worker_step(
            paths,
            live[m],
            stages[m],
            events[m],
            live[m + 1],
            stages[m + 1],
            actions[m],
        ));
    }
}

/// What finishing is about to deliver comes next in `source`, and where no more audio was
/// heard, none is left.
spec fn finish_next(
    source: Seq<u8>,
    progress: Preview,
    stage: FinishStage,
    snapshot: Seq<u8>,
) -> bool {
    let consumed = progress.consumed_bytes;
    let all = source.len() - source.len() % 2 <= consumed;
    match stage {
        FinishStage::Writing { start, end, .. } => {
            comes_next(source, consumed, start, end, snapshot)
        },
        FinishStage::Asking { start, end } => comes_next(source, consumed, start, end, snapshot),
        FinishStage::Delivering(delivery) => delivery.stage
            != DeliveryStage::Committing ==> comes_next(
            source,
            consumed,
            delivery.start,
            delivery.end,
            snapshot,
        ),
        FinishStage::Copying => all,
        FinishStage::Telling => all,
        FinishStage::RemovingWav => all,
        FinishStage::RemovingPreview => all,
        FinishStage::Sweeping(Ok(_)) => all,
        _ => true,
    }
}

proof fn lemma_finish_audio(
    paths: Paths,
    progress: Seq<Preview>,
    stages: Seq<FinishStage>,
    events: Seq<Event>,
    actions: Seq<Action>,
    source: Seq<u8>,
    m: int,
)
    requires
        finish_run(paths, progress, stages, events, actions),
        hears(source, events),
        hears_to_the_end(source, events, actions),
        progress[0].consumed_bytes <= source.len(),
        0 <= m <= events.len(),
    ensures
        progress[0].consumed_bytes <= progress[m].consumed_bytes <= source.len(),
        delivered(finish_consumed(progress), actions, m) == source.subrange(
            progress[0].consumed_bytes as int,
            progress[m].consumed_bytes as int,
        ),
        stages[m] is Reading ==> m >= 1 && actions[m - 1] == (Action::Snapshot {
            from: progress[m].consumed_bytes,
        }),
        finish_next(source, progress[m], stages[m], written(actions, m)),
    decreases m,
{
    let consumed = finish_consumed(progress);
    let start = progress[0].consumed_bytes as int;
    if m == 0 {
        assert(source.subrange(start, start) =~= Seq::empty());
    } else {
        lemma_finish_audio(paths, progress, stages, events, actions, source, m - 1);
        let (before, after) = (progress[m - 1], progress[m]);
        let event = events[m - 1];
        let action = actions[m - 1];
        assert(finish_step(paths, before, stages[m - 1], event, after, stages[m], action));
        lemma_delivered_more(source, consumed, actions, m, start);
    }
}

/// What finishing has written to snapshots and delivered is, taken together, the
/// recording from where live typing had come to what counts as consumed: in order,
/// without a gap, and no byte twice. When it ends well, no whole sample is left.
pub proof fn finishing_delivers_what_is_left(
    paths: Paths,
    progress: Seq<Preview>,
    stages: Seq<FinishStage>,
    events: Seq<Event>,
    actions: Seq<Action>,
    source: Seq<u8>,
    m: int,
)
    requires
        finish_run(paths, progress, stages, events, actions),
        hears(source, events),
        hears_to_the_end(source, events, actions),
        progress[0].consumed_bytes <= source.len(),
        0 <= m <= events.len(),
    ensures
        progress[0].consumed_bytes <= progress[m].consumed_bytes <= source.len(),
        delivered(finish_consumed(progress), actions, m) == source.subrange(
            progress[0].consumed_bytes as int,
            progress[m].consumed_bytes as int,
        ),
        m < events.len() ==> (actions[m] matches Action::WriteSnapshot(pcm) ==> {
            let from = progress[m].consumed_bytes;
            &&& 0 < pcm@.len()
            &&& from + pcm@.len() <= source.len()
            &&& pcm@ == source.subrange(from as int, from + pcm@.len())
        }),
        m < events.len() && actions[m] == Action::End(Ok(())) ==> source.len() - source.len() % 2
            <= progress[m].consumed_bytes,
{
    lemma_finish_audio(paths, progress, stages, events, actions, source, m);
    if m < events.len() {
        lemma_finish_audio(paths, progress, stages, events, actions, source, m + 1);
        assert(finish_step(
            paths,
            progress[m],
            stages[m],
            events[m],
            progress[m + 1],
            stages[m + 1],
            actions[m],
        ));
    }
}

/// What the daemon said of the segment at hand, before event `m`: nothing until it has
/// answered, and nothing of a segment that it was not asked about.
pub open spec fn last_answer(events: Seq<Event>, actions: Seq<Action>, m: int) -> Seq<char>
    decreases m,
{
    if m <= 0 {
        Seq::empty()
    } else {
        match (events[m - 1], actions[m - 1]) {
            (_, Action::WriteSnapshot(_)) => Seq::empty(),
            (Event::Transcribed(result), _) => result.text@,
            _ => last_answer(events, actions, m - 1),
        }
    }
}

/// All that was said in the audio that was consumed up to stage `m`, behind `text`:
/// whenever more audio counts as consumed, the answer on it comes behind what was there,
/// on the same line, parted by a space. `consumed[i]` is what counts as consumed at stage
/// `i`.
pub open spec fn dictated(
    text: Seq<char>,
    consumed: Seq<u64>,
    events: Seq<Event>,
    actions: Seq<Action>,
    m: int,
) -> Seq<char>
    decreases m,
{
    if m <= 0 {
        text
    } else {
        let before = dictated(text, consumed, events, actions, m - 1);
        let said = sanitized(last_answer(events, actions, m));
        if consumed[m] == consumed[m - 1] || said.len() == 0 {
            before
        } else if before.len() == 0 {
            said
        } else {
            before.push(' ') + said
        }
    }
}

/// What a delivery types is what was said, behind what was typed.
spec fn delivers(progress: Preview, delivery: Delivery, said: Seq<char>) -> bool {
    delivery.stage != DeliveryStage::Committing ==> {
        &&& progress.consumed_bytes == delivery.start < delivery.end
        &&& sanitized(said).len() > 0
        &&& delivery.addition@ == crate::delivery::addition_to(progress.text@, sanitized(said))
    }
}

/// What a live worker is about to deliver is what the daemon said of the segment.
spec fn worker_tells(progress: Preview, stage: WorkerStage, said: Seq<char>) -> bool {
    match stage {
        WorkerStage::Writing { start, end, .. } => progress.consumed_bytes == start < end
            && said.len() == 0,
        WorkerStage::Asking { start, end } => progress.consumed_bytes == start < end,
        WorkerStage::Locking { start, end, result } => progress.consumed_bytes == start < end
            && result.text@ == said,
        WorkerStage::Confirming { start, end, result } => progress.consumed_bytes == start < end
            && result.text@ == said,
        WorkerStage::Delivering(delivery) => delivers(progress, delivery, said),
        _ => true,
    }
}

proof fn lemma_typed_behind(text: Seq<char>, said: Seq<char>)
    requires
        said.len() > 0,
    ensures
        text + crate::delivery::addition_to(text, said) == if text.len() == 0 {
            said
        } else {
            text.push(' ') + said
        },
{
    if text.len() == 0 {
        assert(text + said =~= said);
    } else {
        assert(text + (seq![' '] + said) =~= text.push(' ') + said);
    }
}

proof fn lemma_worker_dictated(
    paths: Paths,
    live: Seq<LiveWorker>,
    stages: Seq<WorkerStage>,
    events: Seq<Event>,
    actions: Seq<Action>,
    m: int,
)
    requires
        worker_run(paths, live, stages, events, actions),
        0 <= m <= events.len(),
    ensures
        live[m].progress.text@ == dictated(
            Seq::empty(),
            worker_consumed(live),
            events,
            actions,
            m,
        ),
        worker_tells(live[m].progress, stages[m], last_answer(events, actions, m)),
    decreases m,
{
    let consumed = worker_consumed(live);
    if m == 0 {
        assert(live[0].progress.text@ =~= Seq::empty());
    } else {
        lemma_worker_dictated(paths, live, stages, events, actions, m - 1);
        let (pre, post) = (live[m - 1], live[m]);
        let event = events[m - 1];
        let action = actions[m - 1];
        assert(worker_step(paths, pre, stages[m - 1], event, post, stages[m], action));
        match (stages[m - 1], event) {
            (WorkerStage::Reading, Event::Heard(Some(frame))) => {
                if let WorkerStage::Writing { start, end, .. } = stages[m] {
                    let cut = choose|cut: usize|
                        {
                            &&& #[trigger] is_boundary(frame.pcm@, Some(cut))
                            &&& end == frame.start + cut
                            &&& action matches Action::WriteSnapshot(pcm) && pcm@
                                == frame.pcm@.take(cut as int)
                        };
                    assert(start < end);
                }
            },
            (WorkerStage::Delivering(delivery), _) => {
                if stages[m] is Stopping {
                    let (failed, failure) = choose|failed: Preview, failure: Failure|
                        {
                            &&& #[trigger] delivery_step(
                                delivery,
                                pre.progress,
                                event,
                                failed,
                                DeliveryStep::Settled(Err(failure)),
                            )
                            &&& with_error(failed, post.progress, failure.told())
                        };
                    assert(post.progress.consumed_bytes == pre.progress.consumed_bytes);
                    assert(post.progress.text == pre.progress.text);
                } else if delivery.stage == DeliveryStage::Pasting {
                    lemma_typed_behind(
                        pre.progress.text@,
                        sanitized(last_answer(events, actions, m)),
                    );
                }
            },
            _ => {},
        }
    }
}

/// What live typing has typed by the time audio counts as consumed is exactly what the
/// daemon said of that audio, segment by segment, in order, on one line, parted by
/// single spaces: no transcription of consumed audio is missing, and nothing else was
/// typed.
pub proof fn live_text_is_all_that_was_said(
    paths: Paths,
    live: Seq<LiveWorker>,
    stages: Seq<WorkerStage>,
    events: Seq<Event>,
    actions: Seq<Action>,
    m: int,
)
    requires
        worker_run(paths, live, stages, events, actions),
        0 <= m <= events.len(),
    ensures
        live[m].progress.text@ == dictated(
            Seq::empty(),
            worker_consumed(live),
            events,
            actions,
            m,
        ),
{
    lemma_worker_dictated(paths, live, stages, events, actions, m);
}

/// What finishing is about to deliver is what the daemon said of what was left.
spec fn finish_tells(progress: Preview, stage: FinishStage, said: Seq<char>) -> bool {
    match stage {
        FinishStage::Writing { start, end, .. } => progress.consumed_bytes == start < end
            && said.len() == 0,
        FinishStage::Asking { start, end } => progress.consumed_bytes == start < end,
        FinishStage::Delivering(delivery) => delivers(progress, delivery, said),
        _ => true,
    }
}

/// What stands typed when finishing has come to stage `m` is what live typing had typed,
/// and behind it exactly what the daemon said of the audio that was consumed since, in
/// order, on one line, parted by single spaces.
pub proof fn finishing_types_all_that_was_said(
    paths: Paths,
    progress: Seq<Preview>,
    stages: Seq<FinishStage>,
    events: Seq<Event>,
    actions: Seq<Action>,
    m: int,
)
    requires
        finish_run(paths, progress, stages, events, actions),
        0 <= m <= events.len(),
    ensures
        progress[m].text@ == dictated(
            progress[0].text@,
            finish_consumed(progress),
            events,
            actions,
            m,
        ),
{
    lemma_finish_dictated(paths, progress, stages, events, actions, m);
}

proof fn lemma_finish_dictated(
    paths: Paths,
    progress: Seq<Preview>,
    stages: Seq<FinishStage>,
    events: Seq<Event>,
    actions: Seq<Action>,
    m: int,
)
    requires
        finish_run(paths, progress, stages, events, actions),
        0 <= m <= events.len(),
    ensures
        progress[m].text@ == dictated(
            progress[0].text@,
            finish_consumed(progress),
            events,
            actions,
            m,
        ),
        finish_tells(progress[m], stages[m], last_answer(events, actions, m)),
    decreases m,
{
    let consumed = finish_consumed(progress);
    if m > 0 {
        lemma_finish_dictated(paths, progress, stages, events, actions, m - 1);
        let (before, after) = (progress[m - 1], progress[m]);
        let event = events[m - 1];
        let action = actions[m - 1];
        assert(finish_step(paths, before, stages[m - 1], event, after, stages[m], action));
        if let FinishStage::Delivering(delivery) = stages[m - 1] {
            if delivery.stage == DeliveryStage::Pasting && event == Event::Pasted(true) {
                lemma_typed_behind(before.text@, sanitized(last_answer(events, actions, m)));
            }
        }
    }
}

proof fn lemma_worker_step(
    paths: Paths,
    live: Seq<LiveWorker>,
    stages: Seq<WorkerStage>,
    events: Seq<Event>,
    actions: Seq<Action>,
    i: int,
)
    requires
        worker_run(paths, live, stages, events, actions),
        0 <= i < events.len(),
    ensures
        worker_step(
            paths,
            live[i],
            stages[i],
            events[i],
            live[i + 1],
            stages[i + 1],
            actions[i],
        ),
{
}

/// The token and the recorder that the worker looked for at event `i` are in order.
pub open spec fn seen_active(session: Seq<char>, event: Event) -> bool {
    event matches Event::Watch { token, running } && maybe(token) == Some(session) && running
}

/// A live worker with a valid token watches its session; one with any other token is
/// refused. A token is valid that is made of at most eighty digits and dashes, and at
/// least one.
pub proof fn a_live_worker_begins_with_a_valid_token(
    paths: Paths,
    live: Seq<LiveWorker>,
    stages: Seq<WorkerStage>,
    events: Seq<Event>,
    actions: Seq<Action>,
)
    requires
        worker_run(paths, live, stages, events, actions),
        events.len() > 0,
        events[0] is Begin,
    ensures
        ({
            let token = live[0].session@;
            if 0 < token.len() <= 80 && forall|k: int|
                0 <= k < token.len() ==> ('0' <= #[trigger] token[k] && token[k] <= '9')
                    || token[k] == '-' {
                actions[0] == (Action::Watch { recorder: live[0].recorder }) && stages[1]
                    is Checking
            } else {
                actions[0] == Action::End(Err(Failure::InvalidToken))
            }
        }),
{
    lemma_worker_step(paths, live, stages, events, actions, 0);
    let token = live[0].session@;
    if valid_token(token) {
        assert forall|k: int| 0 <= k < token.len() implies ('0' <= #[trigger] token[k] && token[k]
            <= '9') || token[k] == '-' by {
            assert(token_char(token[k]));
        }
    }
}

/// Every round of a live worker whose session is active waits a second, looks again, and
/// then reads the recording from what was consumed on; the first round that gets so far
/// opens the recording, and one that cannot yet is tried again.
pub proof fn an_active_round_reads_on(
    paths: Paths,
    live: Seq<LiveWorker>,
    stages: Seq<WorkerStage>,
    events: Seq<Event>,
    actions: Seq<Action>,
    i: int,
)
    requires
        worker_run(paths, live, stages, events, actions),
        0 <= i,
        i + 3 < events.len(),
        stages[i] is Checking,
        seen_active(live[i].session@, events[i]),
        events[i + 1] is Done,
        seen_active(live[i].session@, events[i + 2]),
    ensures
        actions[i] == (Action::Sleep { ms: 1000 }),
        actions[i + 1] == (Action::Watch { recorder: live[i].recorder }),
        ({
            let read = Action::Snapshot { from: live[i].progress.consumed_bytes };
            if live[i].opened {
                actions[i + 2] == read
            } else {
                &&& actions[i + 2] is OpenRecording
                &&& events[i + 3] is Done ==> actions[i + 3] == read && live[i + 4].opened
                &&& events[i + 3] is Failed ==> actions[i + 3] == (Action::Watch {
                    recorder: live[i].recorder,
                }) && stages[i + 4] is Checking && !live[i + 4].opened
            }
        }),
        live[i + 3].progress == live[i].progress,
{
    lemma_worker_step(paths, live, stages, events, actions, i);
    lemma_worker_step(paths, live, stages, events, actions, i + 1);
    lemma_worker_step(paths, live, stages, events, actions, i + 2);
    lemma_worker_step(paths, live, stages, events, actions, i + 3);
}

/// What is heard is either cut or waited on: where it can be cut, its beginning up to the
/// cut is written to a snapshot, which the daemon is then asked about, unless every byte
/// is zero; where it cannot, and where nothing is heard, the worker begins the next
/// round with nothing changed.
pub proof fn a_heard_segment_is_asked_about(
    paths: Paths,
    live: Seq<LiveWorker>,
    stages: Seq<WorkerStage>,
    events: Seq<Event>,
    actions: Seq<Action>,
    i: int,
)
    requires
        worker_run(paths, live, stages, events, actions),
        1 <= i,
        i + 1 < events.len(),
        actions[i - 1] is Snapshot,
        events[i] matches Event::Heard(found) && (found matches Some(frame) ==> frame.start
            <= frame.end && frame.pcm@.len() == frame.end - frame.start
            && frame.start == live[i].progress.consumed_bytes),
        events[i + 1] is Done,
    ensures
        live[i + 2].progress == live[i].progress,
        match events[i]->Heard_0 {
            None => actions[i] == (Action::Watch { recorder: live[i].recorder }) && stages[i + 1]
                is Checking,
            Some(frame) => if is_boundary(frame.pcm@, None) {
                actions[i] == (Action::Watch { recorder: live[i].recorder }) && stages[i + 1]
                    is Checking
            } else {
                &&& actions[i] matches Action::WriteSnapshot(pcm)
                &&& pcm@ == frame.pcm@.take(pcm@.len() as int)
                &&& 48000 <= pcm@.len() <= 128000
                &&& is_boundary(frame.pcm@, Some(pcm@.len() as usize))
                &&& if exists|k: int| 0 <= k < pcm@.len() && #[trigger] pcm@[k] != 0 {
                    actions[i + 1] matches Action::AskDaemon(exchange) && {
                        &&& exchange.socket@ == path_in(paths@, "asr.sock"@)
                        &&& exchange.audio_path@ == path_in(
                            paths@,
                            "preview-"@ + live[i].session@ + ".wav"@,
                        )
                        &&& exchange.preview
                        &&& exchange.read_timeout_ms == 30000
                    }
                } else {
                    actions[i + 1] is Lock
                }
            },
        },
{
    lemma_worker_step(paths, live, stages, events, actions, i - 1);
    lemma_worker_step(paths, live, stages, events, actions, i);
    lemma_worker_step(paths, live, stages, events, actions, i + 1);
    if let Some(frame) = events[i]->Heard_0 {
        if !is_boundary(frame.pcm@, None) {
            let cut = choose|cut: usize|
                {
                    &&& #[trigger] is_boundary(frame.pcm@, Some(cut))
                    &&& stages[i + 1] matches WorkerStage::Writing { start, end, ask } && {
                        &&& start == frame.start
                        &&& end == frame.start + cut
                        &&& segment_asks(
                            paths,
                            live[i].session@,
                            frame.pcm@.take(cut as int),
                            ask,
                        )
                    }
                    &&& actions[i] matches Action::WriteSnapshot(pcm) && pcm@ == frame.pcm@.take(
                        cut as int,
                    )
                };
            let pcm = actions[i]->WriteSnapshot_0;
            assert(pcm@.len() == cut);
            if !silent(pcm@) {
                let k = choose|k: int| 0 <= k < pcm@.len() && #[trigger] pcm@[k] != 0;
                assert(pcm@[k] != 0);
            }
        }
    }
}

/// The daemon's answer on a segment is what is delivered: the lock is asked for, the
/// session is looked at under it, and, where it is still active, what is copied is the
/// answer on one line, parted by a space from what was typed. An answer that says
/// nothing is accounted for at once.
pub proof fn the_answer_is_what_is_delivered(
    paths: Paths,
    live: Seq<LiveWorker>,
    stages: Seq<WorkerStage>,
    events: Seq<Event>,
    actions: Seq<Action>,
    i: int,
)
    requires
        worker_run(paths, live, stages, events, actions),
        1 <= i,
        i + 2 < events.len(),
        actions[i - 1] is AskDaemon,
        events[i] is Transcribed,
        events[i + 1] is Done,
        seen_active(live[i].session@, events[i + 2]),
    ensures
        actions[i] is Lock,
        actions[i + 1] == (Action::Watch { recorder: live[i].recorder }),
        ({
            let result = events[i]->Transcribed_0;
            let said = sanitized(result.text@);
            let before = live[i].progress;
            let after = live[i + 3].progress;
            if said.len() == 0 {
                &&& actions[i + 2] == Action::Publish(after)
                &&& after.text == before.text
                &&& after.language == result.language
            } else {
                &&& actions[i + 2] matches Action::Copy(text)
                &&& text@ == if before.text@.len() == 0 {
                    said
                } else {
                    seq![' '] + said
                }
                &&& after == before
                &&& stages[i + 3] matches WorkerStage::Delivering(delivery) && delivery.language
                    == result.language
            }
        }),
{
    lemma_worker_step(paths, live, stages, events, actions, i - 1);
    lemma_worker_step(paths, live, stages, events, actions, i);
    lemma_worker_step(paths, live, stages, events, actions, i + 1);
    lemma_worker_step(paths, live, stages, events, actions, i + 2);
}

/// A segment of silence needs no answer: after its snapshot was written it is delivered
/// as one that says nothing.
pub proof fn silence_is_delivered_without_asking(
    paths: Paths,
    live: Seq<LiveWorker>,
    stages: Seq<WorkerStage>,
    events: Seq<Event>,
    actions: Seq<Action>,
    i: int,
)
    requires
        worker_run(paths, live, stages, events, actions),
        1 <= i,
        i + 2 < events.len(),
        actions[i - 1] is WriteSnapshot,
        actions[i] is Lock,
        events[i] is Done,
        events[i + 1] is Done,
        seen_active(live[i].session@, events[i + 2]),
    ensures
        actions[i + 1] == (Action::Watch { recorder: live[i].recorder }),
        actions[i + 2] == Action::Publish(live[i + 3].progress),
        live[i + 3].progress.text == live[i].progress.text,
        live[i + 3].progress.consumed_bytes == live[i].progress.consumed_bytes
            + actions[i - 1]->WriteSnapshot_0@.len(),
{
    lemma_worker_step(paths, live, stages, events, actions, i - 1);
    lemma_worker_step(paths, live, stages, events, actions, i);
    lemma_worker_step(paths, live, stages, events, actions, i + 1);
    lemma_worker_step(paths, live, stages, events, actions, i + 2);
    lemma_nothing_sanitized();
    if let WorkerStage::Reading = stages[i - 1] {
        let frame = events[i - 1]->Heard_0->0;
        let cut = choose|cut: usize|
            {
                &&& #[trigger] is_boundary(frame.pcm@, Some(cut))
                &&& stages[i] matches WorkerStage::Writing { start, end, ask } && start
                    == frame.start && end == frame.start + cut
                &&& actions[i - 1] matches Action::WriteSnapshot(pcm) && pcm@ == frame.pcm@.take(
                    cut as int,
                )
            };
        assert(actions[i - 1]->WriteSnapshot_0@.len() == cut);
    }
}

proof fn lemma_nothing_sanitized()
    ensures
        sanitized(Seq::empty()).len() == 0,
{
    crate::text::sanitized_keeps_one_trim_line(Seq::empty());
}

/// A copy of a live worker that goes well is typed: the paste is announced and asked for,
/// the text counts as typed once the keystroke was sent, that is published, the lock is
/// released and the next round begins. What was accounted for as silence is over once it
/// is published.
pub proof fn a_live_copy_is_typed(
    paths: Paths,
    live: Seq<LiveWorker>,
    stages: Seq<WorkerStage>,
    events: Seq<Event>,
    actions: Seq<Action>,
    i: int,
)
    requires
        worker_run(paths, live, stages, events, actions),
        1 <= i,
        i + 4 < events.len(),
        events[i] is Done,
    ensures
        actions[i - 1] is Copy && events[i + 1] is Done && events[i + 2] == Event::Pasted(true)
            && events[i + 3] is Done ==> {
            let typed = live[i + 3].progress;
            &&& actions[i] matches Action::Publish(told) && told == (Preview {
                delivery_pending: true,
                ..live[i].progress
            })
            &&& actions[i + 1] is Paste
            &&& actions[i + 2] == Action::Publish(typed)
            &&& typed.text@ == live[i].progress.text@ + actions[i - 1]->Copy_0@
            &&& !typed.delivery_pending
            &&& typed.error is None
            &&& actions[i + 3] is Unlock
            &&& live[i + 5].progress == typed
            &&& actions[i + 4] == (Action::Watch { recorder: live[i].recorder })
            &&& stages[i + 5] is Checking
        },
        stages[i] matches WorkerStage::Delivering(delivery) && delivery.stage
            == DeliveryStage::Committing ==> {
            &&& actions[i] is Unlock
            &&& actions[i + 1] == (Action::Watch { recorder: live[i].recorder })
            &&& stages[i + 2] is Checking
            &&& live[i + 2].progress == live[i].progress
        },
{
    lemma_worker_step(paths, live, stages, events, actions, i - 1);
    lemma_worker_step(paths, live, stages, events, actions, i);
    lemma_worker_step(paths, live, stages, events, actions, i + 1);
    lemma_worker_step(paths, live, stages, events, actions, i + 2);
    lemma_worker_step(paths, live, stages, events, actions, i + 3);
    lemma_worker_step(paths, live, stages, events, actions, i + 4);
}

/// A segment that cannot be read or transcribed is told of, and recording goes on: under
/// the lock, with the session still active, what is published so far is read and
/// published again with the error, the user is told, the lock is released, the snapshot
/// removed, and the worker ends well.
pub proof fn a_failed_transcription_is_published(
    paths: Paths,
    live: Seq<LiveWorker>,
    stages: Seq<WorkerStage>,
    events: Seq<Event>,
    actions: Seq<Action>,
    i: int,
)
    requires
        worker_run(paths, live, stages, events, actions),
        1 <= i,
        i + 7 < events.len(),
        actions[i - 1] is Snapshot || actions[i - 1] is AskDaemon,
        events[i] is Failed,
        events[i + 1] is Done,
        seen_active(live[i].session@, events[i + 2]),
        events[i + 3] is Progress,
        events[i + 4] is Done,
    ensures
        ({
            let error = events[i]->Failed_0.told();
            &&& actions[i] is Lock
            &&& actions[i + 1] == (Action::Watch { recorder: live[i].recorder })
            &&& actions[i + 2] is ReadPreview
            &&& actions[i + 3] matches Action::Publish(told) && maybe(told.error) == Some(error)
                && match events[i + 3]->Progress_0 {
                Some(found) => told == (Preview { error: told.error, ..found }),
                None => told.text@.len() == 0 && told.consumed_bytes == 0
                    && !told.delivery_pending,
            }
            &&& actions[i + 4] == Action::Notify(Note::PreviewUnavailable)
            &&& actions[i + 5] is Unlock
            &&& actions[i + 6] is RemoveSnapshot
            &&& actions[i + 7] == Action::End(Ok(()))
        }),
{
    lemma_worker_step(paths, live, stages, events, actions, i - 1);
    lemma_worker_step(paths, live, stages, events, actions, i);
    lemma_worker_step(paths, live, stages, events, actions, i + 1);
    lemma_worker_step(paths, live, stages, events, actions, i + 2);
    lemma_worker_step(paths, live, stages, events, actions, i + 3);
    lemma_worker_step(paths, live, stages, events, actions, i + 4);
    lemma_worker_step(paths, live, stages, events, actions, i + 5);
    lemma_worker_step(paths, live, stages, events, actions, i + 6);
    lemma_worker_step(paths, live, stages, events, actions, i + 7);
}

/// A delivery that fails is published with its error and told of, and live typing stops:
/// the lock is released, the snapshot removed, and the worker ends well, with text and
/// consumed audio as they were.
pub proof fn a_failed_live_delivery_stops_typing(
    paths: Paths,
    live: Seq<LiveWorker>,
    stages: Seq<WorkerStage>,
    events: Seq<Event>,
    actions: Seq<Action>,
    i: int,
)
    requires
        worker_run(paths, live, stages, events, actions),
        1 <= i,
        i + 4 < events.len(),
        actions[i - 1] is Copy || actions[i - 1] is Paste,
        events[i] is Failed || (actions[i - 1] is Paste && events[i] == Event::Pasted(false)),
        events[i + 1] is Done,
    ensures
        ({
            let error = match events[i] {
                Event::Failed(failure) => failure.told(),
                _ => "live typing requires a paste backend"@,
            };
            let after = live[i + 1].progress;
            &&& actions[i] == Action::Publish(after)
            &&& maybe(after.error) == Some(error)
            &&& after == (Preview { error: after.error, ..live[i].progress })
            &&& actions[i + 1] == Action::Notify(Note::LiveStopped)
            &&& actions[i + 2] is Unlock
            &&& actions[i + 3] is RemoveSnapshot
            &&& actions[i + 4] == Action::End(Ok(()))
        }),
{
    lemma_worker_step(paths, live, stages, events, actions, i - 1);
    lemma_worker_step(paths, live, stages, events, actions, i);
    lemma_worker_step(paths, live, stages, events, actions, i + 1);
    lemma_worker_step(paths, live, stages, events, actions, i + 2);
    lemma_worker_step(paths, live, stages, events, actions, i + 3);
    lemma_worker_step(paths, live, stages, events, actions, i + 4);
}

/// A live worker whose session is no longer active ends well with nothing delivered, and
/// every failure that is not of a segment or a delivery ends it with that failure: the
/// lock is released first where it is held, and the snapshot removed.
pub proof fn a_live_worker_ends_with_its_session(
    paths: Paths,
    live: Seq<LiveWorker>,
    stages: Seq<WorkerStage>,
    events: Seq<Event>,
    actions: Seq<Action>,
    i: int,
)
    requires
        worker_run(paths, live, stages, events, actions),
        1 <= i,
        i + 2 < events.len(),
    ensures
        actions[i - 1] is Watch && events[i] is Watch && !seen_active(live[i].session@, events[i])
            ==> {
            &&& live[i + 1].progress == live[i].progress
            &&& {
                ||| actions[i] is RemoveSnapshot && actions[i + 1] == Action::End(Ok(()))
                ||| actions[i] is Unlock && actions[i + 1] is RemoveSnapshot && actions[i + 2]
                    == Action::End(Ok(()))
            }
        },
        events[i] is Failed && (actions[i - 1] is Lock || actions[i - 1] is Sleep || actions[i - 1]
            is Watch || actions[i - 1] is WriteSnapshot || actions[i - 1] is ReadPreview) ==> {
            let failed = Action::End(Err(events[i]->Failed_0));
            ||| actions[i] is RemoveSnapshot && actions[i + 1] == failed
            ||| actions[i] is Unlock && actions[i + 1] is RemoveSnapshot && actions[i + 2]
                == failed
        },
{
    lemma_worker_step(paths, live, stages, events, actions, i - 1);
    lemma_worker_step(paths, live, stages, events, actions, i);
    lemma_worker_step(paths, live, stages, events, actions, i + 1);
    lemma_worker_step(paths, live, stages, events, actions, i + 2);
}

proof fn lemma_finish_step(
    paths: Paths,
    progress: Seq<Preview>,
    stages: Seq<FinishStage>,
    events: Seq<Event>,
    actions: Seq<Action>,
    i: int,
)
    requires
        finish_run(paths, progress, stages, events, actions),
        0 <= i < events.len(),
    ensures
        finish_step(
            paths,
            progress[i],
            stages[i],
            events[i],
            progress[i + 1],
            stages[i + 1],
            actions[i],
        ),
{
}

/// Finishing opens the recording and reads it from what was consumed on, except after a
/// paste that was not confirmed, which it refuses to repeat.
pub proof fn finishing_reads_what_is_left(
    paths: Paths,
    progress: Seq<Preview>,
    stages: Seq<FinishStage>,
    events: Seq<Event>,
    actions: Seq<Action>,
)
    requires
        finish_run(paths, progress, stages, events, actions),
        events.len() >= 2,
        events[0] is Begin,
        events[1] is Done,
    ensures
        if progress[0].delivery_pending {
            actions[0] == Action::End(Err(Failure::PasteUnconfirmed))
        } else {
            &&& actions[0] is OpenRecording
            &&& actions[1] == (Action::Snapshot { from: progress[0].consumed_bytes })
            &&& progress[2] == progress[0]
        },
{
    lemma_finish_step(paths, progress, stages, events, actions, 0);
    lemma_finish_step(paths, progress, stages, events, actions, 1);
}

/// All that is heard while finishing is written to a snapshot as it is, the daemon is
/// asked about it unless every byte is zero, and its answer is what is copied, on one
/// line, behind what was typed. Silence, and an answer that says nothing, is accounted
/// for.
pub proof fn what_is_left_is_asked_about(
    paths: Paths,
    progress: Seq<Preview>,
    stages: Seq<FinishStage>,
    events: Seq<Event>,
    actions: Seq<Action>,
    i: int,
)
    requires
        finish_run(paths, progress, stages, events, actions),
        1 <= i,
        i + 2 < events.len(),
        actions[i - 1] is Snapshot,
        events[i] matches Event::Heard(Some(frame)) && frame.start
            <= frame.end && frame.pcm@.len() == frame.end - frame.start && frame.start
            == progress[i].consumed_bytes && frame.start < frame.end,
        events[i + 1] is Done,
        events[i + 2] is Transcribed,
    ensures
        ({
            let frame = events[i]->Heard_0->0;
            let before = progress[i];
            let heard = exists|k: int| 0 <= k < frame.pcm@.len() && #[trigger] frame.pcm@[k] != 0;
            let result = events[i + 2]->Transcribed_0;
            let said = sanitized(result.text@);
            &&& actions[i] == Action::WriteSnapshot(frame.pcm)
            &&& heard ==> {
                &&& actions[i + 1] matches Action::AskDaemon(exchange) && {
                    &&& exchange.socket@ == path_in(paths@, "asr.sock"@)
                    &&& exchange.audio_path@ == path_in(paths@, "preview-"@ + "final"@ + ".wav"@)
                    &&& exchange.preview
                    &&& exchange.read_timeout_ms == 30000
                }
                &&& progress[i + 2] == before
                &&& if said.len() == 0 {
                    &&& actions[i + 2] == Action::Publish(progress[i + 3])
                    &&& progress[i + 3].consumed_bytes == frame.end
                    &&& progress[i + 3].text == before.text
                    &&& progress[i + 3].language == result.language
                } else {
                    &&& actions[i + 2] matches Action::Copy(text) && text@
                        == if before.text@.len() == 0 {
                        said
                    } else {
                        seq![' '] + said
                    }
                    &&& progress[i + 3] == before
                    &&& stages[i + 3] matches FinishStage::Delivering(delivery)
                        && delivery.language == result.language && delivery.end == frame.end
                }
            }
            &&& !heard ==> {
                &&& actions[i + 1] == Action::Publish(progress[i + 2])
                &&& progress[i + 2].consumed_bytes == frame.end
                &&& progress[i + 2].text == before.text
            }
        }),
{
    lemma_finish_step(paths, progress, stages, events, actions, i - 1);
    lemma_finish_step(paths, progress, stages, events, actions, i);
    lemma_finish_step(paths, progress, stages, events, actions, i + 1);
    lemma_finish_step(paths, progress, stages, events, actions, i + 2);
    lemma_nothing_sanitized();
    let frame = events[i]->Heard_0->0;
    if !silent(frame.pcm@) {
        let k = choose|k: int| 0 <= k < frame.pcm@.len() && #[trigger] frame.pcm@[k] != 0;
        assert(frame.pcm@[k] != 0);
    } else {
        let result = choose|result: Transcription|
            {
                &&& #[trigger] says_nothing(result)
                &&& stages[i + 2] matches FinishStage::Delivering(delivery) && delivery_begins(
                    progress[i + 1],
                    frame.start,
                    frame.end,
                    result,
                    progress[i + 2],
                    delivery,
                    actions[i + 1],
                )
            };
        assert(sanitized(result.text@).len() == 0);
    }
}

/// A piece that was copied while finishing, and goes well, is pasted, counts as typed and
/// is published; then reading goes on behind it. What was accounted for as silence is
/// over once it is published.
pub proof fn a_final_copy_is_typed(
    paths: Paths,
    progress: Seq<Preview>,
    stages: Seq<FinishStage>,
    events: Seq<Event>,
    actions: Seq<Action>,
    i: int,
)
    requires
        finish_run(paths, progress, stages, events, actions),
        1 <= i,
        i + 3 < events.len(),
        stages[i] is Delivering,
        events[i] is Done,
    ensures
        actions[i - 1] is Copy && events[i + 1] is Done && events[i + 2] == Event::Pasted(true)
            && events[i + 3] is Done ==> {
            let typed = progress[i + 3];
            &&& actions[i] matches Action::Publish(told) && told == (Preview {
                delivery_pending: true,
                ..progress[i]
            })
            &&& actions[i + 1] is Paste
            &&& actions[i + 2] == Action::Publish(typed)
            &&& typed.text@ == progress[i].text@ + actions[i - 1]->Copy_0@
            &&& !typed.delivery_pending
            &&& actions[i + 3] == (Action::Snapshot { from: typed.consumed_bytes })
            &&& progress[i + 4] == typed
        },
        stages[i]->Delivering_0.stage == DeliveryStage::Committing ==> actions[i] == (
        Action::Snapshot { from: progress[i].consumed_bytes }) && progress[i + 1] == progress[i],
{
    lemma_finish_step(paths, progress, stages, events, actions, i - 1);
    lemma_finish_step(paths, progress, stages, events, actions, i);
    lemma_finish_step(paths, progress, stages, events, actions, i + 1);
    lemma_finish_step(paths, progress, stages, events, actions, i + 2);
    lemma_finish_step(paths, progress, stages, events, actions, i + 3);
}

/// Once no audio is left, what was typed is put on the clipboard as a whole and shown,
/// the recording, what was published and the snapshot are removed, and finishing ends
/// well; where nothing was typed, the recording stays and the clipboard is left alone.
pub proof fn a_finished_dictation_is_cleared_away(
    paths: Paths,
    progress: Seq<Preview>,
    stages: Seq<FinishStage>,
    events: Seq<Event>,
    actions: Seq<Action>,
    i: int,
)
    requires
        finish_run(paths, progress, stages, events, actions),
        1 <= i,
        i + 5 < events.len(),
        actions[i - 1] is Snapshot,
        events[i] == Event::Heard(None),
        forall|k: int| i < k < events.len() ==> #[trigger] events[k] is Done,
    ensures
        ({
            let typed = progress[i];
            let shown = Action::Notify(
                Note::Spilled { language: typed.language, text: typed.text },
            );
            if typed.text@.len() > 0 {
                &&& actions[i] == Action::Copy(typed.text)
                &&& actions[i + 1] == shown
                &&& actions[i + 2] == Action::Remove(Mark::RecordingWav)
                &&& actions[i + 3] == Action::Remove(Mark::Preview)
                &&& actions[i + 4] is RemoveSnapshot
                &&& actions[i + 5] == Action::End(Ok(()))
            } else {
                &&& actions[i] == shown
                &&& actions[i + 1] == Action::Remove(Mark::Preview)
                &&& actions[i + 2] is RemoveSnapshot
                &&& actions[i + 3] == Action::End(Ok(()))
            }
        }),
{
    lemma_finish_step(paths, progress, stages, events, actions, i - 1);
    lemma_finish_step(paths, progress, stages, events, actions, i);
    lemma_finish_step(paths, progress, stages, events, actions, i + 1);
    lemma_finish_step(paths, progress, stages, events, actions, i + 2);
    lemma_finish_step(paths, progress, stages, events, actions, i + 3);
    lemma_finish_step(paths, progress, stages, events, actions, i + 4);
    lemma_finish_step(paths, progress, stages, events, actions, i + 5);
}

/// A failure while finishing ends it with that failure, after the snapshot was removed
/// and with text and consumed audio as they were; so does a keystroke that no backend
/// sent.
pub proof fn finishing_passes_failures_on(
    paths: Paths,
    progress: Seq<Preview>,
    stages: Seq<FinishStage>,
    events: Seq<Event>,
    actions: Seq<Action>,
    i: int,
)
    requires
        finish_run(paths, progress, stages, events, actions),
        1 <= i,
        i + 1 < events.len(),
        !(actions[i - 1] is End),
        !(actions[i - 1] is Notify),
        !(actions[i - 1] is RemoveSnapshot),
    ensures
        events[i] is Failed ==> {
            &&& actions[i] is RemoveSnapshot
            &&& actions[i + 1] == Action::End(Err(events[i]->Failed_0))
            &&& progress[i + 1] == progress[i]
        },
        actions[i - 1] is Paste && events[i] == Event::Pasted(false) ==> {
            &&& actions[i] is RemoveSnapshot
            &&& actions[i + 1] == Action::End(Err(Failure::NoLiveBackend))
            &&& progress[i + 1] == progress[i]
        },
{
    lemma_finish_step(paths, progress, stages, events, actions, i - 1);
    lemma_finish_step(paths, progress, stages, events, actions, i);
    lemma_finish_step(paths, progress, stages, events, actions, i + 1);
}

/// A run of starting live typing: `events[i]`, told at `stages[i]`, is answered by
/// `actions[i]`.
pub open spec fn launch_run(
    live: bool,
    recorder: i32,
    stages: Seq<LaunchStage>,
    events: Seq<Event>,
    actions: Seq<Action>,
) -> bool {
    &&& stages.len() == events.len() + 1
    &&& actions.len() == events.len()
    &&& stages[0] is Ready
    &&& forall|i: int|
        0 <= i < events.len() ==> launch_step(
            live,
            recorder,
            stages[i],
            #[trigger] events[i],
            stages[i + 1],
            actions[i],
        )
}

/// Starting live typing invalidates the last session; where live typing is wanted it
/// then writes the token of a session that is minted from the own PID and the time, and
/// starts a worker for this session and this recorder. A worker that cannot be started
/// is told of, after its session was invalidated.
pub proof fn starting_live_typing_starts_its_worker(
    live: bool,
    recorder: i32,
    stages: Seq<LaunchStage>,
    events: Seq<Event>,
    actions: Seq<Action>,
)
    requires
        launch_run(live, recorder, stages, events, actions),
        events.len() >= 7,
        events[0] is Begin,
        events[1] is Done,
        events[2] is Clock,
        events[3] is Done,
        events[4] is Done,
        events[5] is Started || events[5] is NotSpawned,
        events[6] is Done,
    ensures
        actions[0] is Invalidate,
        if !live {
            actions[1] == Action::End(Ok(()))
        } else {
            let session = minted(
                events[2]->Clock_process as nat,
                events[2]->Clock_nanos as nat,
            );
            &&& actions[1] is AskClock
            &&& actions[2] matches Action::WriteToken(token) && token@ == session
            &&& actions[3] is OpenLog
            &&& actions[4] matches Action::Spawn { worker, session: named, recorder: r }
                && worker == Worker::Live && named@ == session && r == recorder
            &&& match events[5] {
                Event::Started { .. } => actions[5] == Action::End(Ok(())),
                Event::NotSpawned { cause } => {
                    &&& actions[5] is Invalidate
                    &&& actions[6] matches Action::End(Err(failure)) && failure.told()
                        == "could not start live preview worker: "@ + cause@
                },
                _ => true,
            }
        },
{
    assert(launch_step(live, recorder, stages[0], events[0], stages[1], actions[0]));
    assert(launch_step(live, recorder, stages[1], events[1], stages[2], actions[1]));
    assert(launch_step(live, recorder, stages[2], events[2], stages[3], actions[2]));
    assert(launch_step(live, recorder, stages[3], events[3], stages[4], actions[3]));
    assert(launch_step(live, recorder, stages[4], events[4], stages[5], actions[4]));
    assert(launch_step(live, recorder, stages[5], events[5], stages[6], actions[5]));
    assert(launch_step(live, recorder, stages[6], events[6], stages[7], actions[6]));
}

/// A failure on the way ends the start of live typing with that failure.
pub proof fn starting_live_typing_passes_failures_on(
    live: bool,
    recorder: i32,
    stages: Seq<LaunchStage>,
    events: Seq<Event>,
    actions: Seq<Action>,
    i: int,
)
    requires
        launch_run(live, recorder, stages, events, actions),
        0 <= i < events.len(),
    ensures
        events[i] matches Event::Failed(failure) ==> actions[i] == Action::End(Err(failure)),
{
    assert(launch_step(live, recorder, stages[i], events[i], stages[i + 1], actions[i]));
}

/// The provisional transcription is shown as it was published while a recording runs, and
/// never without one; one that cannot be read is told of with the cause.
pub proof fn a_preview_belongs_to_a_recording(
    state: State,
    stored: Stored<Preview>,
    preview: Result<Option<Preview>, Failure>,
)
    requires
        reads_preview(state, stored, preview),
    ensures
        !(state is Recording) ==> preview == Ok::<Option<Preview>, Failure>(None),
        state is Recording ==> match stored {
            Stored::Value(value) => preview matches Ok(Some(found)) && found == value,
            Stored::Missing => preview matches Ok(None),
            Stored::Malformed(cause) => preview matches Err(failure) && failure.told() == cause@,
            Stored::Unreadable(cause) => preview matches Err(failure) && failure.told() == cause@,
        },
{
}

/// Only the session whose token the file holds may deliver, and only while the recorder
/// runs; it always may then.
pub proof fn the_session_with_the_token_is_active(
    session: Seq<char>,
    token: Option<Seq<char>>,
    running: bool,
)
    ensures
        is_active(session, token, running) <==> running && token is Some && token->0 == session,
{
}

/// A live worker serves the session and the recorder that it was made for to its end: it
/// looks at no other recorder, and begins with nothing typed and nothing consumed.
pub proof fn a_live_worker_serves_what_it_was_made_for(
    session: String,
    recorder: i32,
    paths: Paths,
    live: Seq<LiveWorker>,
    stages: Seq<WorkerStage>,
    events: Seq<Event>,
    actions: Seq<Action>,
    m: int,
)
    requires
        live.len() > 0,
        live[0].is_new(session, recorder),
        worker_run(paths, live, stages, events, actions),
        0 <= m <= events.len(),
    ensures
        live[m].session == session,
        live[m].recorder == recorder,
        m < events.len() ==> (actions[m] matches Action::Watch { recorder: r } ==> r == recorder),
        live[0].progress.text@.len() == 0,
        live[0].progress.consumed_bytes == 0,
        live[0].progress.error is None,
        live[0].progress.language is None,
        !live[0].progress.delivery_pending,
        !live[0].opened,
    decreases m,
{
    if m > 0 {
        a_live_worker_serves_what_it_was_made_for(
            session,
            recorder,
            paths,
            live,
            stages,
            events,
            actions,
            m - 1,
        );
        lemma_worker_step(paths, live, stages, events, actions, m - 1);
    }
    if m < events.len() {
        lemma_worker_step(paths, live, stages, events, actions, m);
    }
}

}
