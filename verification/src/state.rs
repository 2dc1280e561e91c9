//! Recording state, derived from PID files under the runtime dir.
//!
//! State is not stored as a value that can go out of sync with reality; it is
//! *derived* by asking `/proc` whether the recorded PIDs are still alive. A
//! crashed `pw-record` therefore reads as `idle`, and the stale file is removed
//! as a side effect of looking.

use crate::audio::PROCESS_NAME;
use crate::failure::Failure;
use crate::host::{remove_if_present, Removal};
use crate::number::{
    all_digits, decimal, decimal_reads_back, is_digit, number, read_number, signed_decimal,
    signed_decimal_text,
};
use crate::text::{
    all_white, chars_of, maybe, to_text, trim_end, trimmed, trimmed_end, trimmed_start,
    trimming_loses_only_white_space, trimming_takes_off_the_padding, visible, white_space,
};
use vstd::prelude::*;
use vstd::string::*;
use vstd::utf8::{encode_utf8, is_char_boundary};

verus! {

broadcast use vstd::string::group_string_axioms;

/// What TextSpill is doing right now.
#[derive(Clone, Copy, Debug, PartialEq, Eq, Structural)]
pub enum State {
    Idle,
    /// `pw-record` is capturing.
    Recording { pid: i32 },
    /// Another `textspill` process is waiting on the ASR daemon.
    Transcribing,
}

impl State {
    /// The word that `textspill status` prints.
    pub open spec fn word(self) -> Seq<char> {
        match self {
            State::Idle => "idle"@,
            State::Recording { .. } => "recording"@,
            State::Transcribing => "transcribing"@,
        }
    }

    pub fn as_str(&self) -> (word: &'static str)
        ensures
            word@ == self.word(),
    {
        match self {
            State::Idle => "idle",
            State::Recording { .. } => "recording",
            State::Transcribing => "transcribing",
        }
    }
}

/// The name of the program itself, and of the process that transcribes.
pub const BIN_NAME: &'static str = "textspill";

/// The kernel truncates a process name to this many bytes.
pub const COMM_BYTES: usize = 15;

/// The first `COMM_BYTES` bytes of a program's name.
pub open spec fn comm_bytes(comm: Seq<char>) -> Seq<u8> {
    let bytes = encode_utf8(comm);
    if bytes.len() <= COMM_BYTES {
        bytes
    } else {
        bytes.take(COMM_BYTES as int)
    }
}

/// The kernel's truncation does not cut a character of the name in two.
pub open spec fn comm_is_whole(comm: Seq<char>) -> bool {
    encode_utf8(comm).len() <= COMM_BYTES || is_char_boundary(
        encode_utf8(comm),
        COMM_BYTES as int,
    )
}

/// `") "` stands at `i`.
pub open spec fn closes_at(s: Seq<char>, i: int) -> bool {
    0 <= i && i + 1 < s.len() && s[i] == ')' && s[i + 1] == ' '
}

/// `/proc/<pid>/stat` tells of a process that has ended but is not reaped: the
/// letter behind the last `") "` is `Z` or `X`.
pub open spec fn defunct(stat: Seq<char>) -> bool {
    exists|i: int|
        {
            &&& #[trigger] closes_at(stat, i)
            &&& forall|j: int| i < j ==> !#[trigger] closes_at(stat, j)
            &&& i + 2 < stat.len()
            &&& stat[i + 2] == 'Z' || stat[i + 2] == 'X'
        }
}

/// `/proc` shows a running process named `comm`: it is not defunct, and its
/// name, but for white space at the end, is `comm` as the kernel truncates it.
/// `stat` and `named` are what `/proc/<pid>/stat` and `/proc/<pid>/comm` hold,
/// where they can be read.
pub open spec fn runs(
    stat: Option<Seq<char>>,
    named: Option<Seq<char>>,
    comm: Seq<char>,
) -> bool {
    &&& stat matches Some(stat) ==> !defunct(stat)
    &&& named matches Some(named) && encode_utf8(trimmed_end(named)) == comm_bytes(comm)
}

fn is_defunct(stat: &str) -> (r: bool)
    ensures
        r == defunct(stat@),
{
    let chars = chars_of(stat);
    if chars.len() < 2 {
        return false;
    }
    let mut i: usize = chars.len() - 1;
    while i > 0
        invariant
            chars@ == stat@,
            0 <= i < chars@.len(),
            forall|j: int| i <= j ==> !#[trigger] closes_at(stat@, j),
        decreases i,
    {
        i = i - 1;
        if chars[i] == ')' && chars[i + 1] == ' ' {
            assert(closes_at(stat@, i as int));
            let r = i + 2 < chars.len() && (chars[i + 2] == 'Z' || chars[i + 2] == 'X');
            proof {
                if defunct(stat@) {
                    let k = choose|k: int|
                        {
                            &&& #[trigger] closes_at(stat@, k)
                            &&& forall|j: int| k < j ==> !#[trigger] closes_at(stat@, j)
                            &&& k + 2 < stat@.len()
                            &&& stat@[k + 2] == 'Z' || stat@[k + 2] == 'X'
                        };
                    assert(k == i);
                }
            }
            return r;
        }
    }
    false
}

fn same_bytes(a: &[u8], b: &[u8], n: usize) -> (same: bool)
    requires
        n <= b@.len(),
    ensures
        same == (a@ == b@.take(n as int)),
{
    if a.len() != n {
        return false;
    }
    for i in 0..n
        invariant
            n <= b@.len(),
            a@.len() == n,
            forall|j: int| 0 <= j < i ==> a@[j] == b@[j],
    {
        if a[i] != b[i] {
            assert(a@[i as int] != b@.take(n as int)[i as int]);
            return false;
        }
    }
    assert(a@ =~= b@.take(n as int));
    true
}

/// True if the process exists and its executable name is `comm`.
///
/// A failed child can remain in `/proc` until its parent reaps it. Zombies
/// neither record nor respond to signals and must be treated as stale.
pub fn is_running(stat: Option<&str>, named: Option<&str>, comm: &str) -> (r: bool)
    requires
        comm_is_whole(comm@),
    ensures
        r == runs(
            match stat {
                Some(stat) => Some(stat@),
                None => None,
            },
            match named {
                Some(named) => Some(named@),
                None => None,
            },
            comm@,
        ),
{
    if let Some(stat) = stat {
        if is_defunct(stat) {
            return false;
        }
    }
    match named {
        Some(named) => {
            let actual = trim_end(named);
            let expected = comm.as_bytes();
            let n = if expected.len() < COMM_BYTES {
                expected.len()
            } else {
                COMM_BYTES
            };
            assert(expected@.take(n as int) =~= comm_bytes(comm@));
            same_bytes(actual.as_str().as_bytes(), expected, n)
        },
        None => false,
    }
}

/// The PID in the text of a PID file, if it holds one: a positive decimal number
/// that fits, in white space.
pub open spec fn pid_in(raw: Seq<char>) -> Option<i32> {
    let text = trimmed(raw);
    let digits = if text.len() > 0 && text[0] == '+' {
        text.skip(1)
    } else {
        text
    };
    if digits.len() > 0 && all_digits(digits) && 0 < number(digits) <= i32::MAX {
        Some(number(digits) as i32)
    } else {
        None
    }
}

/// The PID that a PID file holds; `None` where the file has to be discarded.
pub fn read_pid(raw: &str) -> (pid: Option<i32>)
    ensures
        pid == pid_in(raw@),
{
    let text = crate::text::trim(raw);
    let chars = chars_of(text.as_str());
    let from: usize = if chars.len() > 0 && chars[0] == '+' {
        1
    } else {
        0
    };
    assert(chars@.skip(0) =~= chars@);
    match read_number(chars.as_slice(), from, i32::MAX as u64) {
        Some(n) => if n > 0 {
            Some(n as i32)
        } else {
            None
        },
        None => None,
    }
}

/// The text of a PID file.
pub open spec fn pid_file(pid: i32) -> Seq<char> {
    signed_decimal(pid as int).push('\n')
}

/// The text of a PID file.
pub fn write_pid(pid: i32) -> (text: String)
    ensures
        text@ == pid_file(pid),
{
    let mut text = signed_decimal_text(pid);
    text.push('\n');
    text
}

/// Judges how removing the PID file at `path` went; cleanup runs on paths that may
/// be gone.
pub fn remove_pid(path: &str, removal: Removal) -> (r: Result<(), Failure>)
    ensures
        crate::host::removes(path@, removal, r),
{
    remove_if_present(path, removal)
}

/// A PID file reads back as the PID that was written to it.
pub proof fn pid_file_reads_back(pid: i32)
    requires
        pid > 0,
    ensures
        pid_in(pid_file(pid)) == Some(pid),
{
    let digits = decimal(pid as nat);
    decimal_reads_back(pid as nat);
    let raw = pid_file(pid);
    assert(is_digit(digits[0]));
    assert(is_digit(digits[digits.len() - 1]));
    assert(raw[0] == digits[0]);
    assert(trimmed_start(raw) == raw);
    assert(raw.last() == '\n');
    assert(raw.drop_last() =~= digits);
    assert(trimmed_end(digits) == digits);
    assert(trimmed(raw) == digits);
}

/// What a PID file and `/proc` show of the process that it names.
pub struct Probe {
    /// What the PID file holds; `None` where there is no such file.
    pub file: Option<String>,
    /// What `/proc/<pid>/stat` of the PID in the file holds, where it can be
    /// read.
    pub stat: Option<String>,
    /// What `/proc/<pid>/comm` of the PID in the file holds, where it can be
    /// read.
    pub named: Option<String>,
}

impl Probe {
    /// The process that the file names, if it still runs `comm`.
    pub open spec fn live(self, comm: Seq<char>) -> Option<i32> {
        match self.file {
            Some(file) => match pid_in(file@) {
                Some(pid) => if runs(
                    maybe(self.stat),
                    maybe(self.named),
                    comm,
                ) {
                    Some(pid)
                } else {
                    None
                },
                None => None,
            },
            None => None,
        }
    }

    /// There is a file, and it names no process that runs `comm`.
    pub open spec fn stale(self, comm: Seq<char>) -> bool {
        self.file is Some && self.live(comm) is None
    }

    /// What the file holds once a stale one was removed.
    pub open spec fn left(self, comm: Seq<char>) -> Option<Seq<char>> {
        if self.stale(comm) {
            None
        } else {
            maybe(self.file)
        }
    }
}

fn as_ref_str(text: &Option<String>) -> (out: Option<&str>)
    ensures
        out is Some == text is Some,
        out is Some ==> out->0@ == text->0@,
{
    match text {
        Some(text) => Some(text.as_str()),
        None => None,
    }
}

/// What a PID file came to.
pub struct Found {
    /// The process that it names and that runs.
    pub pid: Option<i32>,
    /// The file has to go.
    pub discard: bool,
}

/// Returns the PID in the file if that process is still running `comm`, and
/// whether the file has to go: exactly where it names no such process.
///
/// Matching on the process name as well as the PID guards against PID reuse:
/// a recycled PID belonging to an unrelated process must never be signalled.
pub fn live_pid(probe: &Probe, comm: &str) -> (found: Found)
    requires
        comm_is_whole(comm@),
    ensures
        found.pid == probe.live(comm@),
        found.discard == probe.stale(comm@),
{
    match &probe.file {
        Some(file) => match read_pid(file.as_str()) {
            Some(pid) => if is_running(
                as_ref_str(&probe.stat),
                as_ref_str(&probe.named),
                comm,
            ) {
                Found { pid: Some(pid), discard: false }
            } else {
                Found { pid: None, discard: true }
            },
            None => Found { pid: None, discard: true },
        },
        None => Found { pid: None, discard: false },
    }
}

/// A PID file that was written stays as it is while its process runs under the name
/// that is expected, and names it. Otherwise the file goes, and whoever looks again
/// finds neither a process nor a file to remove, whatever runs by then.
pub proof fn pid_file_stays_while_its_process_runs(
    pid: i32,
    comm: Seq<char>,
    probe: Probe,
    again: Probe,
)
    requires
        pid > 0,
        maybe(probe.file) == Some(pid_file(pid)),
        maybe(again.file) == probe.left(comm),
    ensures
        if runs(maybe(probe.stat), maybe(probe.named), comm) {
            &&& probe.live(comm) == Some(pid)
            &&& probe.left(comm) == Some(pid_file(pid))
        } else {
            &&& probe.live(comm) is None
            &&& probe.left(comm) is None
            &&& again.live(comm) is None
            &&& !again.stale(comm)
        },
{
    pid_file_reads_back(pid);
}

/// The state, and which PID files were left by a dead process and have to go.
pub struct Reading {
    pub state: State,
    pub discard_recording: bool,
    pub discard_transcribing: bool,
}

/// The state that the two PID files and `/proc` show. A live recorder decides;
/// the other file is looked at only without one.
pub open spec fn state_of(recording: Probe, transcribing: Probe) -> State {
    match recording.live(PROCESS_NAME@) {
        Some(pid) => State::Recording { pid },
        None => if transcribing.live(BIN_NAME@) is Some {
            State::Transcribing
        } else {
            State::Idle
        },
    }
}

/// What looking at the two PID files and `/proc` comes to.
pub open spec fn reads(recording: Probe, transcribing: Probe, reading: Reading) -> bool {
    &&& reading.state == state_of(recording, transcribing)
    &&& reading.discard_recording == recording.stale(PROCESS_NAME@)
    &&& reading.discard_transcribing == (recording.live(PROCESS_NAME@) is None
        && transcribing.stale(BIN_NAME@))
}

proof fn lemma_names_are_whole()
    ensures
        comm_is_whole(PROCESS_NAME@),
        comm_is_whole(BIN_NAME@),
{
    reveal_strlit("pw-record");
    reveal_strlit("textspill");
    assert(vstd::utf8::is_ascii_chars(PROCESS_NAME@));
    assert(vstd::utf8::is_ascii_chars(BIN_NAME@));
    vstd::utf8::is_ascii_chars_encode_utf8(PROCESS_NAME@);
    vstd::utf8::is_ascii_chars_encode_utf8(BIN_NAME@);
}

/// Reads the current state, and says which PID files a dead process left.
pub fn current(recording: &Probe, transcribing: &Probe) -> (reading: Reading)
    ensures
        reads(*recording, *transcribing, reading),
{
    proof {
        lemma_names_are_whole();
    }
    let recorder = live_pid(recording, PROCESS_NAME);
    if let Some(pid) = recorder.pid {
        return Reading {
            state: State::Recording { pid },
            discard_recording: false,
            discard_transcribing: false,
        };
    }
    let transcriber = live_pid(transcribing, BIN_NAME);
    Reading {
        state: if transcriber.pid.is_some() {
            State::Transcribing
        } else {
            State::Idle
        },
        discard_recording: recorder.discard,
        discard_transcribing: transcriber.discard,
    }
}

/// State is derived, not stored: a recording is only ever reported of a recorder that
/// still runs under its own name, so neither a crashed recorder nor a recycled PID
/// reads as one, and what such a process left is discarded.
pub proof fn state_is_derived(recording: Probe, transcribing: Probe)
    ensures
        state_of(recording, transcribing) matches State::Recording { pid } ==> {
            &&& recording.file is Some
            &&& pid_in(recording.file->0@) == Some(pid)
            &&& pid > 0
            &&& runs(maybe(recording.stat), maybe(recording.named), PROCESS_NAME@)
        },
        state_of(recording, transcribing) is Transcribing ==> runs(
            maybe(transcribing.stat),
            maybe(transcribing.named),
            BIN_NAME@,
        ),
        !runs(maybe(recording.stat), maybe(recording.named), PROCESS_NAME@) && transcribing.file
            is None ==> state_of(recording, transcribing) == State::Idle && (recording.file is Some
            ==> recording.stale(PROCESS_NAME@)),
{
}

/// A process under another name is not the one that was recorded, whatever its PID.
pub proof fn recycled_pid_does_not_run(
    stat: Option<Seq<char>>,
    named: Seq<char>,
    comm: Seq<char>,
)
    requires
        encode_utf8(trimmed_end(named)) != comm_bytes(comm),
    ensures
        !runs(stat, Some(named), comm),
{
}

/// How long a command waits for the lock before giving up.
///
/// Commands arrive in quick succession by design: push-to-talk releases the
/// key milliseconds after pressing it, and `stop` must not be refused just
/// because `start` is still confirming that the recorder came up. Waiting
/// serialises them instead; the bound is what keeps a wedged command from
/// blocking the hotkey forever.
pub const LOCK_TIMEOUT_MS: u64 = 3000;

/// How long to wait between two attempts.
pub const LOCK_POLL_MS: u64 = 20;

/// What one attempt to take the lock came to.
pub enum LockAttempt {
    Taken,
    /// The lock file could not be opened.
    Unopened(String),
    /// Another command holds it.
    Held,
    /// The attempt itself failed.
    Broken(String),
}

/// What to do after an attempt.
pub enum LockStep {
    /// The lock is held from here on.
    Proceed,
    /// Try again after `LOCK_POLL_MS`.
    Wait,
    Refuse(Failure),
}

/// What to do after an attempt to take the lock at `path`, `waited_ms` after the first.
pub open spec fn lock_step(
    path: Seq<char>,
    attempt: LockAttempt,
    waited_ms: u64,
    step: LockStep,
) -> bool {
    match attempt {
        LockAttempt::Taken => step is Proceed,
        LockAttempt::Unopened(cause) => step matches LockStep::Refuse(failure) && (failure matches
            Failure::LockUnopened { path: p, cause: c } && p@ == path && c == cause),
        LockAttempt::Broken(cause) => step matches LockStep::Refuse(failure) && (failure matches
            Failure::LockBroken { path: p, cause: c } && p@ == path && c == cause),
        LockAttempt::Held => if waited_ms >= LOCK_TIMEOUT_MS {
            step == LockStep::Refuse(Failure::LockTimeout)
        } else {
            step is Wait
        },
    }
}

/// Decides what to do after an attempt to take the lock at `path`, `waited_ms`
/// after the first.
pub fn acquire_lock(path: &str, attempt: LockAttempt, waited_ms: u64) -> (step: LockStep)
    ensures
        lock_step(path@, attempt, waited_ms, step),
{
    match attempt {
        LockAttempt::Taken => LockStep::Proceed,
        LockAttempt::Unopened(cause) => LockStep::Refuse(
            Failure::LockUnopened { path: to_text(path), cause },
        ),
        LockAttempt::Broken(cause) => LockStep::Refuse(
            Failure::LockBroken { path: to_text(path), cause },
        ),
        LockAttempt::Held => if waited_ms >= LOCK_TIMEOUT_MS {
            LockStep::Refuse(Failure::LockTimeout)
        } else {
            LockStep::Wait
        },
    }
}

/// A run of attempts to take the lock: the attempt `attempts[i]`, made `waited_ms[i]`
/// after the first, is answered by `steps[i]`. Time does not run back, and another
/// attempt is made only where the answer is to wait.
pub open spec fn lock_run(
    path: Seq<char>,
    attempts: Seq<LockAttempt>,
    waited_ms: Seq<u64>,
    steps: Seq<LockStep>,
) -> bool {
    &&& waited_ms.len() == attempts.len()
    &&& steps.len() == attempts.len()
    &&& forall|i: int|
        0 <= i < attempts.len() ==> lock_step(
            path,
            #[trigger] attempts[i],
            waited_ms[i],
            steps[i],
        )
    &&& forall|i: int, j: int| 0 <= i <= j < waited_ms.len() ==> waited_ms[i] <= waited_ms[j]
    &&& forall|i: int| 0 <= i < steps.len() - 1 ==> #[trigger] steps[i] is Wait
}

/// Every attempt before `i` found the lock held, with time left, and was answered by
/// waiting.
pub open spec fn waited_until(
    attempts: Seq<LockAttempt>,
    waited_ms: Seq<u64>,
    steps: Seq<LockStep>,
    i: int,
) -> bool {
    forall|j: int|
        0 <= j < i ==> #[trigger] attempts[j] is Held && waited_ms[j] < LOCK_TIMEOUT_MS && steps[j]
            is Wait
}

/// A command waits for the holder: it proceeds only on having taken the lock, which no
/// one else holds then, and is refused because the lock is held only once its time is
/// over. Until either, every attempt finds the lock held and is answered by waiting.
/// `others[i]` is whether another command holds the lock at attempt `i`: a lock that is
/// held cannot be taken.
pub proof fn lock_is_waited_for(
    path: Seq<char>,
    attempts: Seq<LockAttempt>,
    waited_ms: Seq<u64>,
    steps: Seq<LockStep>,
    others: Seq<bool>,
    i: int,
)
    requires
        lock_run(path, attempts, waited_ms, steps),
        others.len() == attempts.len(),
        forall|k: int|
            0 <= k < attempts.len() ==> (#[trigger] attempts[k] is Taken ==> !others[k]),
        0 <= i < attempts.len(),
    ensures
        waited_until(attempts, waited_ms, steps, i),
        steps[i] is Proceed <==> attempts[i] is Taken,
        steps[i] is Proceed ==> !others[i],
        steps[i] == LockStep::Refuse(Failure::LockTimeout) <==> attempts[i] is Held && waited_ms[i]
            >= LOCK_TIMEOUT_MS,
{
    assert(lock_step(path, attempts[i], waited_ms[i], steps[i]));
    assert forall|j: int| 0 <= j < i implies #[trigger] attempts[j] is Held && waited_ms[j]
        < LOCK_TIMEOUT_MS && steps[j] is Wait by {
        assert(steps[j] is Wait);
        assert(lock_step(path, attempts[j], waited_ms[j], steps[j]));
    }
}

/// Waiting for a lock that stays held ends: with attempts at most `gap_ms` apart, the
/// refusal comes no later than that after the time is over, and says that the lock is
/// held.
pub proof fn waiting_for_the_lock_is_bounded(
    path: Seq<char>,
    attempts: Seq<LockAttempt>,
    waited_ms: Seq<u64>,
    steps: Seq<LockStep>,
    gap_ms: u64,
    i: int,
)
    requires
        lock_run(path, attempts, waited_ms, steps),
        0 <= i < attempts.len(),
        waited_ms[0] <= gap_ms,
        forall|k: int|
            0 < k < waited_ms.len() ==> #[trigger] waited_ms[k] <= waited_ms[k - 1] + gap_ms,
    ensures
        waited_ms[i] < LOCK_TIMEOUT_MS + gap_ms,
        Failure::LockTimeout.told().subrange(30, 43) == "held the lock"@,
{
    if i > 0 {
        assert(steps[i - 1] is Wait);
        assert(lock_step(path, attempts[i - 1], waited_ms[i - 1], steps[i - 1]));
        assert(waited_ms[i] <= waited_ms[i - 1] + gap_ms);
    }
    reveal_strlit("another textspill command has held the lock for over 3s");
    reveal_strlit("held the lock");
    assert(Failure::LockTimeout.told().subrange(30, 43) =~= "held the lock"@);
}

/// A holder that lets go in time is followed: the attempt that takes the lock proceeds,
/// however long it waited.
pub proof fn the_lock_goes_to_the_waiter(
    path: Seq<char>,
    attempts: Seq<LockAttempt>,
    waited_ms: Seq<u64>,
    steps: Seq<LockStep>,
    i: int,
)
    requires
        waited_ms.len() == attempts.len(),
        steps.len() == attempts.len(),
        forall|k: int|
            0 <= k < attempts.len() ==> lock_step(
                path,
                #[trigger] attempts[k],
                waited_ms[k],
                steps[k],
            ),
        0 <= i < attempts.len(),
        attempts[i] is Taken,
        forall|k: int|
            0 <= k < i ==> #[trigger] attempts[k] is Held && waited_ms[k] < LOCK_TIMEOUT_MS,
    ensures
        waited_until(attempts, waited_ms, steps, i),
        steps[i] is Proceed,
{
    assert(lock_step(path, attempts[i], waited_ms[i], steps[i]));
    assert forall|j: int| 0 <= j < i implies #[trigger] attempts[j] is Held && waited_ms[j]
        < LOCK_TIMEOUT_MS && steps[j] is Wait by {
        assert(lock_step(path, attempts[j], waited_ms[j], steps[j]));
    }
}

/// A PID file is believed exactly of a process that runs under the name that is
/// expected: then its PID is the one in the file, and the file stays. Any other file
/// names nothing and goes.
pub proof fn a_pid_file_is_believed_of_its_process(probe: Probe, comm: Seq<char>, pid: i32)
    ensures
        probe.live(comm) == Some(pid) <==> probe.file is Some && pid_in(probe.file->0@) == Some(
            pid,
        ) && runs(maybe(probe.stat), maybe(probe.named), comm),
        probe.stale(comm) <==> probe.file is Some && !(pid_in(probe.file->0@) is Some && runs(
            maybe(probe.stat),
            maybe(probe.named),
            comm,
        )),
        probe.left(comm) is Some <==> probe.file is Some && !probe.stale(comm),
        probe.left(comm) is Some ==> probe.left(comm)->0 == probe.file->0@,
{
}

/// The state is exactly what the two files and `/proc` show. A recorder that the
/// recording file names and that runs makes it a recording; without one, a TextSpill
/// that the other file names and that runs makes it a transcription; and it is idle
/// only where there is neither. A file that names no such process goes, but for the
/// other file while a recorder runs.
pub proof fn state_tells_what_runs(recording: Probe, transcribing: Probe, reading: Reading)
    requires
        reads(recording, transcribing, reading),
    ensures
        ({
            let recorder = recording.file is Some && pid_in(recording.file->0@) is Some && runs(
                maybe(recording.stat),
                maybe(recording.named),
                "pw-record"@,
            );
            let transcriber = transcribing.file is Some && pid_in(transcribing.file->0@) is Some
                && runs(maybe(transcribing.stat), maybe(transcribing.named), "textspill"@);
            &&& recorder ==> reading.state == (State::Recording {
                pid: pid_in(recording.file->0@)->0,
            })
            &&& !recorder && transcriber ==> reading.state == State::Transcribing
            &&& !recorder && !transcriber ==> reading.state == State::Idle
            &&& reading.discard_recording == (recording.file is Some && !recorder)
            &&& reading.discard_transcribing == (!recorder && transcribing.file is Some
                && !transcriber)
        }),
{
}

/// A process that `/proc` shows under a name that fits there runs under it, whatever
/// white space stands behind the name, where nothing is known of its state.
pub proof fn a_process_runs_under_its_name(comm: Seq<char>, after: Seq<char>)
    requires
        comm.len() > 0,
        !white_space(comm[0]),
        !white_space(comm.last()),
        all_white(after),
        encode_utf8(comm).len() <= 15,
    ensures
        runs(None, Some(comm + after), comm),
{
    trimming_takes_off_the_padding(Seq::empty(), comm, after);
    assert(Seq::empty() + comm + after =~= comm + after);
    assert(Seq::empty() + comm =~= comm);
}

/// A name too long for `/proc` shows there as its first fifteen bytes, and that is all
/// that a process is known by: it runs under such a name or not at all.
pub proof fn a_process_is_known_by_fifteen_bytes(
    stat: Option<Seq<char>>,
    named: Option<Seq<char>>,
    comm: Seq<char>,
)
    ensures
        runs(stat, named, comm) ==> named is Some && ({
            let (shown, name) = (encode_utf8(trimmed_end(named->0)), encode_utf8(comm));
            if name.len() <= 15 {
                shown == name
            } else {
                shown == name.take(15)
            }
        }),
        named is Some && encode_utf8(comm).len() > 15 && encode_utf8(trimmed_end(named->0))
            == encode_utf8(comm).take(15) ==> runs(None, named, comm),
{
}

/// Where `/proc` shows a process under its name, the letter behind the last `") "` of its
/// state decides whether it runs: one that has ended does not, every other does.
pub proof fn the_state_letter_decides(
    before: Seq<char>,
    letter: char,
    rest: Seq<char>,
    named: Seq<char>,
    comm: Seq<char>,
)
    requires
        runs(None, Some(named), comm),
        ({
            let tail = seq![letter] + rest;
            forall|j: int|
                0 <= j < tail.len() - 1 ==> !(#[trigger] tail[j] == ')' && tail[j + 1] == ' ')
        }),
    ensures
        runs(Some(before + seq![')', ' '] + (seq![letter] + rest)), Some(named), comm) <==> letter
            != 'Z' && letter != 'X',
{
    let tail = seq![letter] + rest;
    let stat = before + seq![')', ' '] + tail;
    let h = before.len() as int;
    assert(stat[h] == ')' && stat[h + 1] == ' ');
    assert(stat[h + 2] == letter) by {
        assert(stat[h + 2] == tail[0]);
    }
    assert(closes_at(stat, h));
    assert forall|j: int| h < j implies !#[trigger] closes_at(stat, j) by {
        if closes_at(stat, j) {
            if j >= h + 2 {
                assert(stat[j] == tail[j - h - 2]);
                assert(stat[j + 1] == tail[j + 1 - h - 2]);
            }
        }
    }
    if defunct(stat) {
        let k = choose|k: int|
            {
                &&& #[trigger] closes_at(stat, k)
                &&& forall|j: int| k < j ==> !#[trigger] closes_at(stat, j)
                &&& k + 2 < stat.len()
                &&& stat[k + 2] == 'Z' || stat[k + 2] == 'X'
            };
        assert(k == h);
    }
}

/// A state without `") "` in it tells of no process that has ended.
pub proof fn no_state_letter_means_running(stat: Seq<char>, named: Seq<char>, comm: Seq<char>)
    requires
        runs(None, Some(named), comm),
        forall|j: int|
            0 <= j < stat.len() - 1 ==> !(#[trigger] stat[j] == ')' && stat[j + 1] == ' '),
    ensures
        runs(Some(stat), Some(named), comm),
{
    if defunct(stat) {
        let k = choose|k: int| #[trigger] closes_at(stat, k);
        assert(stat[k] == ')');
    }
}

/// A PID is read from any white space around its digits, with or without a plus sign,
/// as far as it is positive and fits.
pub proof fn a_pid_reads_in_white_space(before: Seq<char>, digits: Seq<char>, after: Seq<char>)
    requires
        all_white(before),
        all_white(after),
        digits.len() > 0,
        forall|k: int|
            0 <= k < digits.len() ==> '0' <= #[trigger] digits[k] && digits[k] <= '9',
    ensures
        ({
            let pid = if 0 < number(digits) <= i32::MAX {
                Some(number(digits) as i32)
            } else {
                None
            };
            &&& pid_in(before + digits + after) == pid
            &&& pid_in(before + (seq!['+'] + digits) + after) == pid
        }),
{
    assert('0' <= digits[0] && '0' <= digits[digits.len() - 1]);
    trimming_takes_off_the_padding(before, digits, after);
    let signed = seq!['+'] + digits;
    assert(signed.last() == digits.last());
    trimming_takes_off_the_padding(before, signed, after);
    assert(signed.skip(1) =~= digits);
}

/// Only a number is a PID: what is read as one stands in the file as its digits, in
/// nothing but white space.
pub proof fn only_a_number_is_a_pid(raw: Seq<char>)
    requires
        pid_in(raw) is Some,
    ensures
        pid_in(raw)->0 > 0,
        exists|digits: Seq<char>|
            {
                &&& #[trigger] all_digits(digits)
                &&& digits.len() > 0
                &&& number(digits) == pid_in(raw)->0
                &&& visible(raw) == digits || visible(raw) == seq!['+'] + digits
            },
{
    let text = trimmed(raw);
    let digits = if text[0] == '+' {
        text.skip(1)
    } else {
        text
    };
    trimming_loses_only_white_space(raw);
    assert(all_digits(digits));
    assert forall|i: int| 0 <= i < text.len() implies is_digit(#[trigger] text[i]) || text[i]
        == '+' by {
        if text[0] == '+' {
            if i > 0 {
                assert(digits[i - 1] == text[i]);
            }
        } else {
            assert(digits[i] == text[i]);
        }
    }
    lemma_visible_solid(text);
    if text[0] == '+' {
        assert(text =~= seq!['+'] + digits);
    }
}

proof fn lemma_visible_solid(s: Seq<char>)
    requires
        forall|i: int| 0 <= i < s.len() ==> is_digit(#[trigger] s[i]) || s[i] == '+',
    ensures
        visible(s) == s,
    decreases s.len(),
{
    if s.len() > 0 {
        assert(is_digit(s[s.len() - 1]) || s[s.len() - 1] == '+');
        assert forall|i: int| 0 <= i < s.drop_last().len() implies is_digit(
            #[trigger] s.drop_last()[i],
        ) || s.drop_last()[i] == '+' by {
            assert(s.drop_last()[i] == s[i]);
        }
        lemma_visible_solid(s.drop_last());
        assert(s.drop_last().push(s.last()) =~= s);
    } else {
        assert(visible(s) =~= s);
    }
}

/// One attempt is answered by what it came to: a lock that is taken lets the command
/// proceed at any time, one that is held is waited for until three seconds are over, and
/// every other trouble refuses at once, with the path and the cause in what is told.
pub proof fn a_lock_attempt_is_answered(
    path: Seq<char>,
    attempt: LockAttempt,
    waited_ms: u64,
    step: LockStep,
)
    requires
        lock_step(path, attempt, waited_ms, step),
    ensures
        step is Proceed <==> attempt is Taken,
        step is Wait <==> attempt is Held && waited_ms < 3000,
        attempt matches LockAttempt::Unopened(cause) ==> (step matches LockStep::Refuse(failure)
            && failure.told() == "failed to open lock file "@ + path + ": "@ + cause@),
        attempt matches LockAttempt::Broken(cause) ==> (step matches LockStep::Refuse(failure)
            && failure.told() == "failed to lock "@ + path + ": "@ + cause@),
        attempt is Held && waited_ms >= 3000 ==> (step matches LockStep::Refuse(failure)
            && failure.told() == "another textspill command has held the lock for over 3s"@),
{
}

/// The status word tells the state apart from every other and does not depend on which
/// process records.
pub proof fn the_status_word_tells_the_state(pid: i32)
    ensures
        (State::Recording { pid }).word() == "recording"@,
        State::Transcribing.word() == "transcribing"@,
        State::Idle.word() == "idle"@,
{
}

}
