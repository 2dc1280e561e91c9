//! Every file TextSpill touches is named here, so that nothing else hardcodes a
//! path.

use crate::config::{stem_within, temporary_name, write_json, Replacement};
use crate::failure::Failure;
use crate::number::{decimal, decimal_text};
use crate::text::to_text;
use vstd::prelude::*;
use vstd::string::*;

verus! {

broadcast use vstd::string::group_string_axioms;

/// The path of `name` in the directory `dir`.
pub open spec fn path_in(dir: Seq<char>, name: Seq<char>) -> Seq<char> {
    if dir.len() == 0 || dir.last() == '/' {
        dir + name
    } else {
        dir.push('/') + name
    }
}

/// Whether `text` ends with `c`.
fn ends_with(text: &str, c: char) -> (r: bool)
    ensures
        r == (text@.len() > 0 && text@.last() == c),
{
    let n = text.unicode_len();
    n > 0 && text.get_char(n - 1) == c
}

/// The path of `name` in the directory `dir`.
pub fn join(dir: &str, name: &str) -> (path: String)
    ensures
        path@ == path_in(dir@, name@),
{
    let mut path = to_text(dir);
    if !dir.is_empty() && !ends_with(dir, '/') {
        path.push('/');
    }
    path.append(name);
    assert(path@ =~= path_in(dir@, name@));
    path
}

/// The files of one runtime directory that have a fixed name.
#[derive(Clone, Copy, Debug, PartialEq, Eq, Structural)]
pub enum Mark {
    SessionConfig,
    StreamState,
    RecordingPid,
    TranscribingPid,
    RecordingWav,
    CaptureLog,
    AsrSocket,
    LockFile,
    LiveSession,
    Preview,
    LiveLog,
}

impl Mark {
    /// The name of the file.
    pub open spec fn name(self) -> Seq<char> {
        match self {
            Mark::SessionConfig => "session-config.json"@,
            Mark::StreamState => "stream.json"@,
            Mark::RecordingPid => "recording.pid"@,
            Mark::TranscribingPid => "transcribing.pid"@,
            Mark::RecordingWav => "recording.wav"@,
            Mark::CaptureLog => "pw-record.log"@,
            Mark::AsrSocket => "asr.sock"@,
            Mark::LockFile => "textspill.lock"@,
            Mark::LiveSession => "live-session"@,
            Mark::Preview => "preview.json"@,
            Mark::LiveLog => "live.log"@,
        }
    }
}

impl Mark {
    /// The name of the file.
    pub fn file_name(self) -> (name: &'static str)
        ensures
            name@ == self.name(),
    {
        match self {
            Mark::SessionConfig => "session-config.json",
            Mark::StreamState => "stream.json",
            Mark::RecordingPid => "recording.pid",
            Mark::TranscribingPid => "transcribing.pid",
            Mark::RecordingWav => "recording.wav",
            Mark::CaptureLog => "pw-record.log",
            Mark::AsrSocket => "asr.sock",
            Mark::LockFile => "textspill.lock",
            Mark::LiveSession => "live-session",
            Mark::Preview => "preview.json",
            Mark::LiveLog => "live.log",
        }
    }
}

/// The name of the snapshot of a live session.
pub open spec fn snapshot_name(session: Seq<char>) -> Seq<char> {
    "preview-"@ + session + ".wav"@
}

/// Resolved locations for one invocation of `textspill`.
pub struct Paths {
    runtime_dir: String,
}

impl View for Paths {
    type V = Seq<char>;

    /// The runtime directory.
    closed spec fn view(&self) -> Seq<char> {
        self.runtime_dir@
    }
}

/// A runtime directory that may be used.
pub struct Claim {
    pub paths: Paths,
    /// Its permissions have to be set to 0700 first.
    pub tighten: bool,
}

/// The permission bits are not 0700: runtime state is per-user and never
/// world-readable.
pub open spec fn too_open(mode: u32) -> bool {
    mode % 0o1000 != 0o700
}

/// The directory for runtime files under `base`.
pub fn runtime_dir(base: &str) -> (dir: String)
    ensures
        dir@ == path_in(base@, "textspill"@),
{
    join(base, "textspill")
}

/// What looking for the directory of the settings comes to.
pub open spec fn finds_settings(
    xdg_config_home: Option<Seq<char>>,
    home: Option<Seq<char>>,
    dir: Result<String, Failure>,
) -> bool {
    match (xdg_config_home, home) {
        (Some(xdg), _) if xdg.len() > 0 => dir matches Ok(dir) && dir@ == path_in(
            xdg,
            "textspill"@,
        ),
        (_, Some(home)) => dir matches Ok(dir) && dir@ == path_in(
            path_in(home, ".config"@),
            "textspill"@,
        ),
        _ => dir == Err::<String, Failure>(Failure::NoConfigHome),
    }
}

/// What taking the runtime directory under `base` comes to.
pub open spec fn claims(
    base: Seq<char>,
    owner: u32,
    uid: u32,
    mode: u32,
    claim: Result<Claim, Failure>,
) -> bool {
    match claim {
        Ok(claim) => {
            &&& owner == uid
            &&& claim.paths@ == path_in(base, "textspill"@)
            &&& claim.tighten == too_open(mode)
        },
        Err(failure) => {
            &&& owner != uid
            &&& failure matches Failure::ForeignRuntimeDir {
                dir,
                owner: o,
                uid: u,
            } && dir@ == path_in(base, "textspill"@) && o == owner && u == uid
        },
    }
}

impl Paths {
    /// The directory of TextSpill's settings: under `$XDG_CONFIG_HOME` where
    /// that is set to something, else under `.config` in `$HOME`.
    pub fn config_dir(xdg_config_home: Option<&str>, home: Option<&str>) -> (dir: Result<
        String,
        Failure,
    >)
        ensures
            finds_settings(
                match xdg_config_home {
                    Some(xdg) => Some(xdg@),
                    None => None,
                },
                match home {
                    Some(home) => Some(home@),
                    None => None,
                },
                dir,
            ),
    {
        if let Some(xdg) = xdg_config_home {
            if !xdg.is_empty() {
                return Ok(join(xdg, "textspill"));
            }
        }
        match home {
            Some(home) => Ok(join(join(home, ".config").as_str(), "textspill")),
            None => Err(Failure::NoConfigHome),
        }
    }

    /// Takes the runtime directory under `base`, which belongs to `owner` and
    /// has permissions `mode`, for the user `uid`.
    ///
    /// Refuses a directory owned by anyone else: on the `/tmp` fallback path
    /// that would let another user plant a socket or a PID file.
    pub fn new(base: &str, owner: u32, uid: u32, mode: u32) -> (claim: Result<Claim, Failure>)
        ensures
            claims(base@, owner, uid, mode, claim),
    {
        let dir = runtime_dir(base);
        if owner != uid {
            return Err(Failure::ForeignRuntimeDir { dir, owner, uid });
        }
        Ok(Claim { paths: Paths { runtime_dir: dir }, tighten: mode % 0o1000 != 0o700 })
    }

    /// The paths over an existing directory.
    pub fn for_test(runtime_dir: String) -> (paths: Paths)
        ensures
            paths@ == runtime_dir@,
    {
        Paths { runtime_dir }
    }

    /// The path of the file with a fixed name.
    pub open spec fn path(self, mark: Mark) -> Seq<char> {
        path_in(self@, mark.name())
    }

    /// The path of the file with a fixed name.
    pub fn at(&self, mark: Mark) -> (path: String)
        ensures
            path@ == self.path(mark),
    {
        join(self.runtime_dir.as_str(), mark.file_name())
    }

    /// How the file with a fixed name is replaced as a whole.
    pub fn replacement(&self, mark: Mark) -> (replacement: Replacement)
        ensures
            replacement.temporary@ == path_in(self@, temporary_name(mark.name())),
            replacement.path@ == self.path(mark),
    {
        write_json(self.runtime_dir.as_str(), mark.file_name())
    }

    /// The settings of the current recording.
    pub fn session_config(&self) -> (path: String)
        ensures
            path@ == path_in(self@, "session-config.json"@),
    {
        join(self.runtime_dir.as_str(), "session-config.json")
    }

    /// The state of the streaming session.
    pub fn stream_state(&self) -> (path: String)
        ensures
            path@ == path_in(self@, "stream.json"@),
    {
        join(self.runtime_dir.as_str(), "stream.json")
    }

    /// PID of the running `pw-record`, present only while recording.
    pub fn recording_pid(&self) -> (path: String)
        ensures
            path@ == path_in(self@, "recording.pid"@),
    {
        join(self.runtime_dir.as_str(), "recording.pid")
    }

    /// PID of the `textspill` process currently talking to the ASR daemon.
    pub fn transcribing_pid(&self) -> (path: String)
        ensures
            path@ == path_in(self@, "transcribing.pid"@),
    {
        join(self.runtime_dir.as_str(), "transcribing.pid")
    }

    /// The captured audio. Kept on failure so a dictation is never lost.
    pub fn recording_wav(&self) -> (path: String)
        ensures
            path@ == path_in(self@, "recording.wav"@),
    {
        join(self.runtime_dir.as_str(), "recording.wav")
    }

    /// `pw-record`'s stderr, so a failed capture can be explained.
    pub fn capture_log(&self) -> (path: String)
        ensures
            path@ == path_in(self@, "pw-record.log"@),
    {
        join(self.runtime_dir.as_str(), "pw-record.log")
    }

    /// Where `textspill-asr.service` listens.
    pub fn asr_socket(&self) -> (path: String)
        ensures
            path@ == path_in(self@, "asr.sock"@),
    {
        join(self.runtime_dir.as_str(), "asr.sock")
    }

    /// Serialises concurrent `textspill` invocations (double hotkey presses).
    pub fn lock_file(&self) -> (path: String)
        ensures
            path@ == path_in(self@, "textspill.lock"@),
    {
        join(self.runtime_dir.as_str(), "textspill.lock")
    }

    /// The token of the session that may deliver text.
    pub fn live_session(&self) -> (path: String)
        ensures
            path@ == path_in(self@, "live-session"@),
    {
        join(self.runtime_dir.as_str(), "live-session")
    }

    /// The provisional transcription.
    pub fn preview(&self) -> (path: String)
        ensures
            path@ == path_in(self@, "preview.json"@),
    {
        join(self.runtime_dir.as_str(), "preview.json")
    }

    /// The worker's stderr.
    pub fn live_log(&self) -> (path: String)
        ensures
            path@ == path_in(self@, "live.log"@),
    {
        join(self.runtime_dir.as_str(), "live.log")
    }

    /// The snapshot that a live session asks the daemon about.
    pub fn live_audio(&self, session: &str) -> (path: String)
        ensures
            path@ == path_in(self@, snapshot_name(session@)),
    {
        let name = to_text("preview-").concat(session).concat(".wav");
        join(self.runtime_dir.as_str(), name.as_str())
    }
}

/// Where the runtime directory goes: `$XDG_RUNTIME_DIR` where that names a
/// directory, else `/run/user/<uid>` where there is one, else a private
/// directory under `/tmp`.
pub open spec fn runtime_base_of(
    xdg_runtime_dir: Option<Seq<char>>,
    uid: u32,
    run_user_exists: bool,
) -> Seq<char> {
    match xdg_runtime_dir {
        Some(dir) => dir,
        None => if run_user_exists {
            "/run/user/"@ + decimal(uid as nat)
        } else {
            "/tmp/textspill-"@ + decimal(uid as nat)
        },
    }
}

/// The directory that is used where `$XDG_RUNTIME_DIR` is of no use, if it
/// exists.
pub fn run_user_dir(uid: u32) -> (dir: String)
    ensures
        dir@ == "/run/user/"@ + decimal(uid as nat),
{
    to_text("/run/user/").concat(decimal_text(uid as u64).as_str())
}

/// Where the runtime directory goes, with `$XDG_RUNTIME_DIR` as it is set.
pub open spec fn chosen_base(
    xdg_runtime_dir: Option<Seq<char>>,
    xdg_is_dir: bool,
    uid: u32,
    run_user_exists: bool,
) -> Seq<char> {
    runtime_base_of(
        match xdg_runtime_dir {
            Some(dir) if xdg_is_dir => Some(dir),
            _ => None,
        },
        uid,
        run_user_exists,
    )
}

/// `$XDG_RUNTIME_DIR`, or a private `/tmp` directory when it is unset.
pub fn runtime_base(
    xdg_runtime_dir: Option<&str>,
    xdg_is_dir: bool,
    uid: u32,
    run_user_exists: bool,
) -> (base: String)
    ensures
        base@ == chosen_base(
            match xdg_runtime_dir {
                Some(dir) => Some(dir@),
                None => None,
            },
            xdg_is_dir,
            uid,
            run_user_exists,
        ),
{
    if let Some(dir) = xdg_runtime_dir {
        if xdg_is_dir {
            return to_text(dir);
        }
    }
    if run_user_exists {
        return run_user_dir(uid);
    }
    to_text("/tmp/textspill-").concat(decimal_text(uid as u64).as_str())
}

/// In one directory, different names are different paths.
pub proof fn path_in_is_injective(dir: Seq<char>, a: Seq<char>, b: Seq<char>)
    requires
        path_in(dir, a) == path_in(dir, b),
    ensures
        a == b,
{
    let n = path_in(dir, a).len() - a.len();
    assert(path_in(dir, a).len() - b.len() == n);
    assert(path_in(dir, a).skip(n) =~= a);
    assert(path_in(dir, b).skip(n) =~= b);
}

proof fn lemma_mark_names()
    ensures
        forall|mark: Mark| (#[trigger] mark.name()).len() > 1,
        Mark::SessionConfig.name().len() == 19,
        Mark::StreamState.name().len() == 11,
        Mark::RecordingPid.name().len() == 13 && Mark::RecordingPid.name()[0] == 'r'
            && Mark::RecordingPid.name()[10] == 'p',
        Mark::TranscribingPid.name().len() == 16 && Mark::TranscribingPid.name()[0] == 't',
        Mark::RecordingWav.name().len() == 13 && Mark::RecordingWav.name()[0] == 'r'
            && Mark::RecordingWav.name()[10] == 'w',
        Mark::CaptureLog.name().len() == 13 && Mark::CaptureLog.name()[0] == 'p'
            && Mark::CaptureLog.name()[1] == 'w',
        Mark::AsrSocket.name().len() == 8 && Mark::AsrSocket.name()[0] == 'a',
        Mark::LockFile.name().len() == 14 && Mark::LockFile.name()[0] == 't',
        Mark::LiveSession.name().len() == 12 && Mark::LiveSession.name()[0] == 'l',
        Mark::Preview.name().len() == 12 && Mark::Preview.name()[0] == 'p'
            && Mark::Preview.name()[7] == '.',
        Mark::LiveLog.name().len() == 8 && Mark::LiveLog.name()[0] == 'l',
        Mark::SessionConfig.name()[0] == 's',
        Mark::StreamState.name()[0] == 's',
{
    reveal_strlit("session-config.json");
    reveal_strlit("stream.json");
    reveal_strlit("recording.pid");
    reveal_strlit("transcribing.pid");
    reveal_strlit("recording.wav");
    reveal_strlit("pw-record.log");
    reveal_strlit("asr.sock");
    reveal_strlit("textspill.lock");
    reveal_strlit("live-session");
    reveal_strlit("preview.json");
    reveal_strlit("live.log");
}

/// No two files of a runtime directory share a path.
pub proof fn marks_have_distinct_paths(paths: Paths, a: Mark, b: Mark)
    requires
        paths.path(a) == paths.path(b),
    ensures
        a == b,
{
    path_in_is_injective(paths@, a.name(), b.name());
    lemma_mark_names();
}

/// The snapshot of a session shares its path with no other file of the runtime
/// directory.
pub proof fn snapshot_is_no_mark(paths: Paths, session: Seq<char>, mark: Mark)
    ensures
        path_in(paths@, snapshot_name(session)) != paths.path(mark),
{
    lemma_mark_names();
    reveal_strlit("preview-");
    reveal_strlit(".wav");
    let name = snapshot_name(session);
    assert(name.len() >= 12 && name[0] == 'p' && name[1] == 'r' && name[7] == '-');
    if path_in(paths@, name) == paths.path(mark) {
        path_in_is_injective(paths@, name, mark.name());
    }
}

/// The snapshots of different sessions have different paths.
pub proof fn snapshots_are_per_session(paths: Paths, a: Seq<char>, b: Seq<char>)
    requires
        path_in(paths@, snapshot_name(a)) == path_in(paths@, snapshot_name(b)),
    ensures
        a == b,
{
    path_in_is_injective(paths@, snapshot_name(a), snapshot_name(b));
    let n = "preview-"@.len() as int;
    assert(snapshot_name(a).subrange(n, n + a.len()) =~= a);
    assert(snapshot_name(b).subrange(n, n + b.len()) =~= b);
}

/// While a file is replaced, the new contents go to a path that no other file of the
/// runtime directory has.
pub proof fn replacing_clobbers_nothing(paths: Paths, a: Mark, b: Mark)
    ensures
        path_in(paths@, temporary_name(a.name())) != paths.path(b),
{
    lemma_mark_names();
    lemma_mark_ends();
    reveal_strlit(".tmp");
    let name = temporary_name(a.name());
    assert(name.last() == 'p');
    if path_in(paths@, name) == paths.path(b) {
        path_in_is_injective(paths@, name, b.name());
        assert(b.name().last() != 'p');
    }
}

proof fn lemma_mark_ends()
    ensures
        forall|mark: Mark| (#[trigger] mark.name()).last() != 'p',
{
    reveal_strlit("session-config.json");
    reveal_strlit("stream.json");
    reveal_strlit("recording.pid");
    reveal_strlit("transcribing.pid");
    reveal_strlit("recording.wav");
    reveal_strlit("pw-record.log");
    reveal_strlit("asr.sock");
    reveal_strlit("textspill.lock");
    reveal_strlit("live-session");
    reveal_strlit("preview.json");
    reveal_strlit("live.log");
}

/// The three files that are replaced as a whole are replaced independently: their
/// new contents go to different paths.
pub proof fn replacements_are_independent(paths: Paths, a: Mark, b: Mark)
    requires
        a is SessionConfig || a is StreamState || a is Preview,
        b is SessionConfig || b is StreamState || b is Preview,
        path_in(paths@, temporary_name(a.name())) == path_in(paths@, temporary_name(b.name())),
    ensures
        a == b,
{
    path_in_is_injective(paths@, temporary_name(a.name()), temporary_name(b.name()));
    reveal_strlit("session-config.json");
    reveal_strlit("stream.json");
    reveal_strlit("preview.json");
    reveal_strlit(".tmp");
    reveal_with_fuel(stem_within, 6);
    assert(temporary_name(Mark::SessionConfig.name()).len() == 18);
    assert(temporary_name(Mark::StreamState.name()).len() == 10);
    assert(temporary_name(Mark::Preview.name()).len() == 11);
}

/// A path in a directory begins with the directory and ends with the name, with exactly
/// one slash between them, which is the directory's own where it ends with one; in no
/// directory at all a name is its own path.
pub proof fn a_path_joins_directory_and_name(dir: Seq<char>, name: Seq<char>)
    ensures
        dir.len() == 0 ==> path_in(dir, name) == name,
        dir.len() > 0 && dir.last() == '/' ==> path_in(dir, name) == dir + name,
        dir.len() > 0 && dir.last() != '/' ==> path_in(dir, name) == dir + seq!['/'] + name,
{
    if dir.len() == 0 {
        assert(path_in(dir, name) =~= name);
    } else if dir.last() != '/' {
        assert(path_in(dir, name) =~= dir + seq!['/'] + name);
    }
}

/// The settings lie under `$XDG_CONFIG_HOME` where that is set to something, else under
/// `.config` in `$HOME`, whatever that is set to; without either there is no place for
/// them.
pub proof fn settings_have_one_place(
    xdg_config_home: Option<Seq<char>>,
    home: Option<Seq<char>>,
    dir: Result<String, Failure>,
)
    requires
        finds_settings(xdg_config_home, home, dir),
    ensures
        xdg_config_home matches Some(xdg) && xdg.len() > 0 ==> (dir matches Ok(found) && found@
            == path_in(xdg_config_home->0, "textspill"@)),
        !(xdg_config_home matches Some(xdg) && xdg.len() > 0) && home is Some ==> (dir matches Ok(
            found,
        ) && found@ == path_in(path_in(home->0, ".config"@), "textspill"@)),
        !(xdg_config_home matches Some(xdg) && xdg.len() > 0) && home is None ==> (dir matches Err(
            failure,
        ) && failure.told() == "HOME or XDG_CONFIG_HOME is required for TextSpill settings"@),
{
}

/// A runtime directory is taken exactly by the user who owns it, and its permissions are
/// set exactly where anyone else has any, or the owner lacks one.
pub proof fn only_an_own_directory_is_taken(
    base: Seq<char>,
    owner: u32,
    uid: u32,
    mode: u32,
    claim: Result<Claim, Failure>,
)
    requires
        claims(base, owner, uid, mode, claim),
    ensures
        claim is Ok <==> owner == uid,
        claim matches Ok(taken) ==> taken.paths@ == path_in(base, "textspill"@) && (taken.tighten
            <==> mode % 512 != 448),
        claim matches Err(failure) ==> failure.told() == "runtime dir "@ + path_in(
            base,
            "textspill"@,
        ) + " is owned by uid "@ + decimal(owner as nat) + ", not "@ + decimal(uid as nat),
{
}

/// The runtime directory goes where `$XDG_RUNTIME_DIR` says, where that is of use; else
/// to a place of the user's own, under `/run/user` where there is one, else under `/tmp`:
/// no two users share it.
pub proof fn users_do_not_share_a_runtime_directory(
    xdg_runtime_dir: Option<Seq<char>>,
    uid: u32,
    other: u32,
    run_user_exists: bool,
)
    ensures
        xdg_runtime_dir matches Some(dir) ==> runtime_base_of(
            xdg_runtime_dir,
            uid,
            run_user_exists,
        ) == dir,
        runtime_base_of(None, uid, true) == "/run/user/"@ + decimal(uid as nat),
        runtime_base_of(None, uid, false) == "/tmp/textspill-"@ + decimal(uid as nat),
        runtime_base_of(None, uid, run_user_exists) == runtime_base_of(
            None,
            other,
            run_user_exists,
        ) ==> uid == other,
{
    let place = if run_user_exists {
        "/run/user/"@
    } else {
        "/tmp/textspill-"@
    };
    let n = place.len() as int;
    let (a, b) = (decimal(uid as nat), decimal(other as nat));
    if place + a == place + b {
        assert((place + a).skip(n) =~= a);
        assert((place + b).skip(n) =~= b);
        crate::number::decimal_is_injective(uid as nat, other as nat);
    }
}

/// `$XDG_RUNTIME_DIR` is where the runtime directory goes exactly where it names a
/// directory; set to anything else it counts as unset.
pub proof fn a_useless_runtime_setting_counts_as_unset(
    dir: Seq<char>,
    uid: u32,
    run_user_exists: bool,
)
    ensures
        chosen_base(Some(dir), true, uid, run_user_exists) == dir,
        chosen_base(Some(dir), false, uid, run_user_exists) == chosen_base(
            None,
            false,
            uid,
            run_user_exists,
        ),
        chosen_base(None, true, uid, run_user_exists) == runtime_base_of(
            None,
            uid,
            run_user_exists,
        ),
        chosen_base(None, false, uid, run_user_exists) == runtime_base_of(
            None,
            uid,
            run_user_exists,
        ),
{
}

}
