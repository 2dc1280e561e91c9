//! Why a command fails, and how the failure is told to the user.

use crate::audio::Sig;
use crate::deepgram::{status_error, status_text};
use crate::number::{decimal, decimal_text, signed_decimal, signed_decimal_text};
use crate::text::{joined, texts, to_text};
use crate::wav::WavFault;
use vstd::prelude::*;
use vstd::string::*;

verus! {

/// Why a command fails.
#[derive(Debug)]
pub enum Failure {
    /// As it was reported.
    Reported(String),
    // Files and directories.
    NoConfigHome,
    DirUncreated { dir: String, cause: String },
    ForeignRuntimeDir { dir: String, owner: u32, uid: u32 },
    LockUnopened { path: String, cause: String },
    LockBroken { path: String, cause: String },
    LockTimeout,
    Unread { path: String, cause: String },
    Unwritten { path: String, cause: String },
    Unremoved { path: String, cause: String },
    // The recorder.
    LogUncreated { path: String, cause: String },
    RecorderNotStarted { cause: String },
    RecorderExited { reason: String },
    SignalFailed { sig: Sig, pid: i32, cause: String },
    RecorderStuck { pid: i32 },
    // The clipboard and the keyboard.
    CopyNotRun { cause: String },
    CopyNoInput,
    CopyUnwritten { cause: String },
    CopyUnwaited { cause: String },
    CopyFailed { status: String },
    ClipboardNotReady,
    /// The setting is shown in quotes.
    UnknownPasteBackend { shown: String },
    NoPasteBackend { failures: Vec<String> },
    // Settings and credentials.
    MalformedConfig { cause: String },
    UnreadableConfig { cause: String },
    UnknownBackend,
    UnknownLanguage,
    KeyNotText,
    NoKey { cause: String },
    UnusableKey,
    MalformedSession { cause: String },
    // The local daemon.
    PathNotText,
    Unreachable { socket: String, cause: String },
    Unsent { cause: String },
    Late { seconds: u64 },
    Broken { cause: String },
    NoReply,
    /// The reply is shown in quotes.
    InvalidReply { shown: String, cause: String },
    DaemonError { error: String },
    EmptyReply,
    // Deepgram's batch interface.
    KeyNotHeader,
    DeepgramTimeout,
    DeepgramUnreachable,
    DeepgramStatus { code: u16 },
    DeepgramUnread { cause: String },
    DeepgramTooLarge,
    InvalidBatch { cause: String },
    NoAlternative,
    // Live typing.
    InvalidToken,
    LiveWorkerNotStarted { cause: String },
    NoLiveBackend,
    PasteUnconfirmed,
    BadCapture { fault: WavFault },
    // Streaming.
    MalformedStream { cause: String },
    StreamUnavailable { cause: String },
    StreamInactive,
    StreamWorkerNotStarted { cause: String },
    StreamFailed { error: String },
    InvalidIdentity,
    ConnectTimeout { cause: String },
    SendTimeout { cause: String },
    SendFailed,
    FinalTimeout,
    RecorderLost,
    InvalidStreamJson { cause: String },
    InvalidStreamResult { cause: String },
    StreamApiError,
    ClosedEarly,
    Disconnected,
    InvalidTiming,
    BeyondSubmitted,
    NoStreamAlternative,
    // Commands.
    NoRecording { path: String, cause: String },
    /// An answer that does not fit the question.
    OutOfTurn,
}

impl Sig {
    /// The name of the signal.
    pub open spec fn word(self) -> Seq<char> {
        match self {
            Sig::Interrupt => "SIGINT"@,
            Sig::Kill => "SIGKILL"@,
        }
    }

    pub fn as_str(self) -> (word: &'static str)
        ensures
            word@ == self.word(),
    {
        match self {
            Sig::Interrupt => "SIGINT",
            Sig::Kill => "SIGKILL",
        }
    }
}

impl WavFault {
    /// What is wrong with the capture.
    pub open spec fn word(self) -> Seq<char> {
        match self {
            WavFault::NotRiff => "capture is not a RIFF WAV"@,
            WavFault::HeaderTooLarge => "WAV header is too large"@,
            WavFault::WrongFormat => "capture requires 16 kHz mono PCM16 WAV"@,
            WavFault::ShortFormat => "invalid WAV fmt chunk"@,
        }
    }

    pub fn as_str(self) -> (word: &'static str)
        ensures
            word@ == self.word(),
    {
        match self {
            WavFault::NotRiff => "capture is not a RIFF WAV",
            WavFault::HeaderTooLarge => "WAV header is too large",
            WavFault::WrongFormat => "capture requires 16 kHz mono PCM16 WAV",
            WavFault::ShortFormat => "invalid WAV fmt chunk",
        }
    }
}

/// `parts` with `between` between each two of them.
fn join_texts(parts: &Vec<String>, between: &str) -> (out: String)
    ensures
        out@ == joined(texts(parts@), between@),
{
    let mut out = String::new();
    assert(texts(parts@).take(0) =~= Seq::empty());
    for i in 0..parts.len()
        invariant
            out@ == joined(texts(parts@).take(i as int), between@),
    {
        let ghost seen = texts(parts@).take(i + 1);
        assert(seen.drop_last() =~= texts(parts@).take(i as int));
        if i > 0 {
            out.append(between);
        }
        out.append(parts[i].as_str());
        assert(out@ =~= joined(seen, between@));
    }
    assert(texts(parts@).take(parts@.len() as int) =~= texts(parts@));
    out
}

impl Failure {
    /// How the failure is told: what failed, then why.
    pub open spec fn told(self) -> Seq<char> {
        match self {
            Failure::Reported(message) => message@,
            Failure::NoConfigHome => "HOME or XDG_CONFIG_HOME is required for TextSpill settings"@,
            Failure::DirUncreated { dir, cause } => {
                "failed to create runtime dir "@ + dir@ + ": "@ + cause@
            },
            Failure::ForeignRuntimeDir { dir, owner, uid } => {
                "runtime dir "@ + dir@ + " is owned by uid "@ + decimal(owner as nat)
                    + ", not "@ + decimal(uid as nat)
            },
            Failure::LockUnopened { path, cause } => {
                "failed to open lock file "@ + path@ + ": "@ + cause@
            },
            Failure::LockBroken { path, cause } => "failed to lock "@ + path@ + ": "@ + cause@,
            Failure::LockTimeout => "another textspill command has held the lock for over 3s"@,
            Failure::Unread { path, cause } => "failed to read "@ + path@ + ": "@ + cause@,
            Failure::Unwritten { path, cause } => "failed to write "@ + path@ + ": "@ + cause@,
            Failure::Unremoved { path, cause } => "failed to remove "@ + path@ + ": "@ + cause@,
            Failure::LogUncreated { path, cause } => {
                "failed to create capture log "@ + path@ + ": "@ + cause@
            },
            Failure::RecorderNotStarted { cause } => {
                "failed to start pw-record (is pipewire installed?): "@ + cause@
            },
            Failure::RecorderExited { reason } => if reason@.len() == 0 {
                "pw-record exited immediately"@
            } else {
                "pw-record exited immediately: "@ + reason@
            },
            Failure::SignalFailed { sig, pid, cause } => {
                "failed to send "@ + sig.word() + " to pid "@ + signed_decimal(pid as int)
                    + ": "@ + cause@
            },
            Failure::RecorderStuck { pid } => {
                "pw-record (pid "@ + signed_decimal(pid as int) + ") would not exit"@
            },
            Failure::CopyNotRun { cause } => {
                "failed to run wl-copy (is wl-clipboard installed?): "@ + cause@
            },
            Failure::CopyNoInput => "wl-copy stdin was not available"@,
            Failure::CopyUnwritten { cause } => {
                "failed to write transcription to wl-copy: "@ + cause@
            },
            Failure::CopyUnwaited { cause } => "failed to wait for wl-copy: "@ + cause@,
            Failure::CopyFailed { status } => "wl-copy exited with "@ + status@,
            Failure::ClipboardNotReady => {
                "clipboard did not contain the transcription after copying"@
            },
            Failure::UnknownPasteBackend { shown } => {
                "unknown TEXTSPILL_PASTE_BACKEND "@ + shown@
            },
            Failure::NoPasteBackend { failures } => {
                "no paste backend worked ("@ + joined(texts(failures@), "; "@) + ")"@
            },
            Failure::MalformedConfig { cause } => "invalid TextSpill config.json: "@ + cause@,
            Failure::UnreadableConfig { cause } => "cannot read TextSpill config.json: "@ + cause@,
            Failure::UnknownBackend => "TEXTSPILL_BACKEND must be local or deepgram"@,
            Failure::UnknownLanguage => "deepgram_language must be sv or en"@,
            Failure::KeyNotText => "DEEPGRAM_API_KEY is not valid text"@,
            Failure::NoKey { cause } => {
                "set DEEPGRAM_API_KEY or create ~/.config/textspill/deepgram-api-key (mode 0600): "@
                    + cause@
            },
            Failure::UnusableKey => {
                "Deepgram API key is empty or invalid; configure it before recording"@
            },
            Failure::MalformedSession { cause } => "invalid recording settings: "@ + cause@,
            Failure::PathNotText => "recording path is not valid UTF-8"@,
            Failure::Unreachable { socket, cause } => {
                "ASR daemon is not reachable on "@ + socket@ + " ("@ + cause@
                    + "); start it with: systemctl --user start textspill-asr.service"@
            },
            Failure::Unsent { cause } => "failed to send request to ASR daemon: "@ + cause@,
            Failure::Late { seconds } => {
                "ASR daemon did not answer within "@ + decimal(seconds as nat) + "s"@
            },
            Failure::Broken { cause } => "failed to read from ASR daemon: "@ + cause@,
            Failure::NoReply => "ASR daemon closed the connection without replying"@,
            Failure::InvalidReply { shown, cause } => {
                "ASR daemon sent invalid JSON: "@ + shown@ + ": "@ + cause@
            },
            Failure::DaemonError { error } => "ASR daemon reported: "@ + error@,
            Failure::EmptyReply => "ASR daemon reply had neither `text` nor `error`"@,
            Failure::KeyNotHeader => "invalid Deepgram API key"@,
            Failure::DeepgramTimeout => "Deepgram request timed out; audio kept"@,
            Failure::DeepgramUnreachable => "Deepgram connection failed; check network access"@,
            Failure::DeepgramStatus { code } => status_text(code),
            Failure::DeepgramUnread { cause } => "could not read Deepgram response: "@ + cause@,
            Failure::DeepgramTooLarge => "Deepgram response is too large"@,
            Failure::InvalidBatch { cause } => {
                "invalid Deepgram transcription response: "@ + cause@
            },
            Failure::NoAlternative => "Deepgram response has no transcription alternative"@,
            Failure::InvalidToken => "invalid live session token"@,
            Failure::LiveWorkerNotStarted { cause } => {
                "could not start live preview worker: "@ + cause@
            },
            Failure::NoLiveBackend => "live typing requires a paste backend"@,
            Failure::PasteUnconfirmed => {
                "a live paste could not be confirmed; recording.wav is kept for manual recovery"@
            },
            Failure::BadCapture { fault } => fault.word(),
            Failure::MalformedStream { cause } => "invalid streaming session state: "@ + cause@,
            Failure::StreamUnavailable { cause } => {
                "Deepgram worker is unavailable; audio kept: "@ + cause@
            },
            Failure::StreamInactive => "stream session is no longer active; audio kept"@,
            Failure::StreamWorkerNotStarted { cause } => {
                "could not start Deepgram worker: "@ + cause@
            },
            Failure::StreamFailed { error } => {
                error@ + "; recording.wav and preview.json kept for recovery"@
            },
            Failure::InvalidIdentity => "invalid streaming worker identity"@,
            Failure::ConnectTimeout { cause } => "Deepgram connection timed out: "@ + cause@,
            Failure::SendTimeout { cause } => "Deepgram send timed out: "@ + cause@,
            Failure::SendFailed => "Deepgram connection failed while sending audio"@,
            Failure::FinalTimeout => "Deepgram final results timed out"@,
            Failure::RecorderLost => "audio recorder exited unexpectedly"@,
            Failure::InvalidStreamJson { cause } => "invalid Deepgram streaming JSON: "@ + cause@,
            Failure::InvalidStreamResult { cause } => {
                "invalid Deepgram streaming result: "@ + cause@
            },
            Failure::StreamApiError => "Deepgram streaming API reported an error; audio kept"@,
            Failure::ClosedEarly => "Deepgram stream closed before final results were confirmed"@,
            Failure::Disconnected => "Deepgram stream disconnected; audio kept"@,
            Failure::InvalidTiming => "invalid Deepgram result timing"@,
            Failure::BeyondSubmitted => "Deepgram result exceeds submitted audio"@,
            Failure::NoStreamAlternative => "Deepgram result has no alternative"@,
            Failure::NoRecording { path, cause } => "no recording at "@ + path@ + ": "@ + cause@,
            Failure::OutOfTurn => "an answer came out of turn"@,
        }
    }

    /// How the failure is told.
    pub fn message(&self) -> (message: String)
        ensures
            message@ == self.told(),
    {
        match self {
            Failure::Reported(message) => message.clone(),
            Failure::NoConfigHome => {
                to_text("HOME or XDG_CONFIG_HOME is required for TextSpill settings")
            },
            Failure::DirUncreated { dir, cause } => {
                to_text("failed to create runtime dir ").concat(dir.as_str()).concat(": ")
                    .concat(cause.as_str())
            },
            Failure::ForeignRuntimeDir { dir, owner, uid } => {
                to_text("runtime dir ").concat(dir.as_str()).concat(" is owned by uid ")
                    .concat(decimal_text(*owner as u64).as_str()).concat(", not ")
                    .concat(decimal_text(*uid as u64).as_str())
            },
            Failure::LockUnopened { path, cause } => {
                to_text("failed to open lock file ").concat(path.as_str()).concat(": ")
                    .concat(cause.as_str())
            },
            Failure::LockBroken { path, cause } => {
                to_text("failed to lock ").concat(path.as_str()).concat(": ")
                    .concat(cause.as_str())
            },
            Failure::LockTimeout => {
                to_text("another textspill command has held the lock for over 3s")
            },
            Failure::Unread { path, cause } => {
                to_text("failed to read ").concat(path.as_str()).concat(": ")
                    .concat(cause.as_str())
            },
            Failure::Unwritten { path, cause } => {
                to_text("failed to write ").concat(path.as_str()).concat(": ")
                    .concat(cause.as_str())
            },
            Failure::Unremoved { path, cause } => {
                to_text("failed to remove ").concat(path.as_str()).concat(": ")
                    .concat(cause.as_str())
            },
            Failure::LogUncreated { path, cause } => {
                to_text("failed to create capture log ").concat(path.as_str())
                    .concat(": ").concat(cause.as_str())
            },
            Failure::RecorderNotStarted { cause } => {
                to_text("failed to start pw-record (is pipewire installed?): ")
                    .concat(cause.as_str())
            },
            Failure::RecorderExited { reason } => if reason.as_str().is_empty() {
                to_text("pw-record exited immediately")
            } else {
                to_text("pw-record exited immediately: ").concat(reason.as_str())
            },
            Failure::SignalFailed { sig, pid, cause } => {
                to_text("failed to send ").concat(sig.as_str()).concat(" to pid ")
                    .concat(signed_decimal_text(*pid).as_str()).concat(": ")
                    .concat(cause.as_str())
            },
            Failure::RecorderStuck { pid } => {
                to_text("pw-record (pid ").concat(signed_decimal_text(*pid).as_str())
                    .concat(") would not exit")
            },
            Failure::CopyNotRun { cause } => {
                to_text("failed to run wl-copy (is wl-clipboard installed?): ")
                    .concat(cause.as_str())
            },
            Failure::CopyNoInput => to_text("wl-copy stdin was not available"),
            Failure::CopyUnwritten { cause } => {
                to_text("failed to write transcription to wl-copy: ")
                    .concat(cause.as_str())
            },
            Failure::CopyUnwaited { cause } => {
                to_text("failed to wait for wl-copy: ").concat(cause.as_str())
            },
            Failure::CopyFailed { status } => {
                to_text("wl-copy exited with ").concat(status.as_str())
            },
            Failure::ClipboardNotReady => {
                to_text("clipboard did not contain the transcription after copying")
            },
            Failure::UnknownPasteBackend { shown } => {
                to_text("unknown TEXTSPILL_PASTE_BACKEND ").concat(shown.as_str())
            },
            Failure::NoPasteBackend { failures } => {
                to_text("no paste backend worked (")
                    .concat(join_texts(failures, "; ").as_str()).concat(")")
            },
            Failure::MalformedConfig { cause } => {
                to_text("invalid TextSpill config.json: ").concat(cause.as_str())
            },
            Failure::UnreadableConfig { cause } => {
                to_text("cannot read TextSpill config.json: ").concat(cause.as_str())
            },
            Failure::UnknownBackend => to_text("TEXTSPILL_BACKEND must be local or deepgram"),
            Failure::UnknownLanguage => to_text("deepgram_language must be sv or en"),
            Failure::KeyNotText => to_text("DEEPGRAM_API_KEY is not valid text"),
            Failure::NoKey { cause } => {
                to_text(
                    "set DEEPGRAM_API_KEY or create ~/.config/textspill/deepgram-api-key (mode 0600): ",
                )
                    .concat(cause.as_str())
            },
            Failure::UnusableKey => {
                to_text("Deepgram API key is empty or invalid; configure it before recording")
            },
            Failure::MalformedSession { cause } => {
                to_text("invalid recording settings: ").concat(cause.as_str())
            },
            Failure::PathNotText => to_text("recording path is not valid UTF-8"),
            Failure::Unreachable { socket, cause } => {
                to_text("ASR daemon is not reachable on ").concat(socket.as_str())
                    .concat(" (").concat(cause.as_str())
                    .concat("); start it with: systemctl --user start textspill-asr.service")
            },
            Failure::Unsent { cause } => {
                to_text("failed to send request to ASR daemon: ").concat(cause.as_str())
            },
            Failure::Late { seconds } => {
                to_text("ASR daemon did not answer within ")
                    .concat(decimal_text(*seconds as u64).as_str()).concat("s")
            },
            Failure::Broken { cause } => {
                to_text("failed to read from ASR daemon: ").concat(cause.as_str())
            },
            Failure::NoReply => to_text("ASR daemon closed the connection without replying"),
            Failure::InvalidReply { shown, cause } => {
                to_text("ASR daemon sent invalid JSON: ")
                    .concat(shown.as_str()).concat(": ")
                    .concat(cause.as_str())
            },
            Failure::DaemonError { error } => {
                to_text("ASR daemon reported: ").concat(error.as_str())
            },
            Failure::EmptyReply => to_text("ASR daemon reply had neither `text` nor `error`"),
            Failure::KeyNotHeader => to_text("invalid Deepgram API key"),
            Failure::DeepgramTimeout => to_text("Deepgram request timed out; audio kept"),
            Failure::DeepgramUnreachable => {
                to_text("Deepgram connection failed; check network access")
            },
            Failure::DeepgramStatus { code } => status_error(*code),
            Failure::DeepgramUnread { cause } => {
                to_text("could not read Deepgram response: ").concat(cause.as_str())
            },
            Failure::DeepgramTooLarge => to_text("Deepgram response is too large"),
            Failure::InvalidBatch { cause } => {
                to_text("invalid Deepgram transcription response: ")
                    .concat(cause.as_str())
            },
            Failure::NoAlternative => {
                to_text("Deepgram response has no transcription alternative")
            },
            Failure::InvalidToken => to_text("invalid live session token"),
            Failure::LiveWorkerNotStarted { cause } => {
                to_text("could not start live preview worker: ").concat(cause.as_str())
            },
            Failure::NoLiveBackend => to_text("live typing requires a paste backend"),
            Failure::PasteUnconfirmed => {
                to_text(
                    "a live paste could not be confirmed; recording.wav is kept for manual recovery",
                )
            },
            Failure::BadCapture { fault } => to_text(fault.as_str()),
            Failure::MalformedStream { cause } => {
                to_text("invalid streaming session state: ").concat(cause.as_str())
            },
            Failure::StreamUnavailable { cause } => {
                to_text("Deepgram worker is unavailable; audio kept: ")
                    .concat(cause.as_str())
            },
            Failure::StreamInactive => to_text("stream session is no longer active; audio kept"),
            Failure::StreamWorkerNotStarted { cause } => {
                to_text("could not start Deepgram worker: ").concat(cause.as_str())
            },
            Failure::StreamFailed { error } => {
                to_text(error.as_str())
                    .concat("; recording.wav and preview.json kept for recovery")
            },
            Failure::InvalidIdentity => to_text("invalid streaming worker identity"),
            Failure::ConnectTimeout { cause } => {
                to_text("Deepgram connection timed out: ").concat(cause.as_str())
            },
            Failure::SendTimeout { cause } => {
                to_text("Deepgram send timed out: ").concat(cause.as_str())
            },
            Failure::SendFailed => to_text("Deepgram connection failed while sending audio"),
            Failure::FinalTimeout => to_text("Deepgram final results timed out"),
            Failure::RecorderLost => to_text("audio recorder exited unexpectedly"),
            Failure::InvalidStreamJson { cause } => {
                to_text("invalid Deepgram streaming JSON: ").concat(cause.as_str())
            },
            Failure::InvalidStreamResult { cause } => {
                to_text("invalid Deepgram streaming result: ").concat(cause.as_str())
            },
            Failure::StreamApiError => {
                to_text("Deepgram streaming API reported an error; audio kept")
            },
            Failure::ClosedEarly => {
                to_text("Deepgram stream closed before final results were confirmed")
            },
            Failure::Disconnected => to_text("Deepgram stream disconnected; audio kept"),
            Failure::InvalidTiming => to_text("invalid Deepgram result timing"),
            Failure::BeyondSubmitted => to_text("Deepgram result exceeds submitted audio"),
            Failure::NoStreamAlternative => to_text("Deepgram result has no alternative"),
            Failure::NoRecording { path, cause } => {
                to_text("no recording at ").concat(path.as_str()).concat(": ")
                    .concat(cause.as_str())
            },
            Failure::OutOfTurn => to_text("an answer came out of turn"),
        }
    }
}

/// The cause of a failure, where it has one that comes last.
pub open spec fn final_cause(failure: Failure) -> Option<Seq<char>> {
    match failure {
        Failure::Reported(cause) => Some(cause@),
        Failure::DirUncreated { cause, .. } => Some(cause@),
        Failure::LockUnopened { cause, .. } => Some(cause@),
        Failure::LockBroken { cause, .. } => Some(cause@),
        Failure::Unread { cause, .. } => Some(cause@),
        Failure::Unwritten { cause, .. } => Some(cause@),
        Failure::Unremoved { cause, .. } => Some(cause@),
        Failure::LogUncreated { cause, .. } => Some(cause@),
        Failure::RecorderNotStarted { cause } => Some(cause@),
        Failure::RecorderExited { reason } => Some(reason@),
        Failure::SignalFailed { cause, .. } => Some(cause@),
        Failure::CopyNotRun { cause } => Some(cause@),
        Failure::CopyUnwritten { cause } => Some(cause@),
        Failure::CopyUnwaited { cause } => Some(cause@),
        Failure::CopyFailed { status } => Some(status@),
        Failure::UnknownPasteBackend { shown } => Some(shown@),
        Failure::MalformedConfig { cause } => Some(cause@),
        Failure::UnreadableConfig { cause } => Some(cause@),
        Failure::NoKey { cause } => Some(cause@),
        Failure::MalformedSession { cause } => Some(cause@),
        Failure::Unsent { cause } => Some(cause@),
        Failure::Broken { cause } => Some(cause@),
        Failure::InvalidReply { cause, .. } => Some(cause@),
        Failure::DaemonError { error } => Some(error@),
        Failure::DeepgramUnread { cause } => Some(cause@),
        Failure::InvalidBatch { cause } => Some(cause@),
        Failure::LiveWorkerNotStarted { cause } => Some(cause@),
        Failure::MalformedStream { cause } => Some(cause@),
        Failure::StreamUnavailable { cause } => Some(cause@),
        Failure::StreamWorkerNotStarted { cause } => Some(cause@),
        Failure::ConnectTimeout { cause } => Some(cause@),
        Failure::SendTimeout { cause } => Some(cause@),
        Failure::InvalidStreamJson { cause } => Some(cause@),
        Failure::InvalidStreamResult { cause } => Some(cause@),
        Failure::NoRecording { cause, .. } => Some(cause@),
        _ => None,
    }
}

/// A failure with a cause is told with all of it, at the end.
pub proof fn a_failure_tells_its_cause(failure: Failure)
    requires
        final_cause(failure) is Some,
    ensures
        ({
            let (told, cause) = (failure.told(), final_cause(failure)->0);
            cause.len() <= told.len() && told.skip(told.len() - cause.len()) == cause
        }),
{
    let (told, cause) = (failure.told(), final_cause(failure)->0);
    assert(told.skip(told.len() - cause.len()) =~= cause);
}

/// A failure of a file tells which, in full, before the cause; a failure of a stream, of
/// the daemon's socket or of the recorder tells of whom it is, too.
pub proof fn a_failure_tells_what_it_is_of(failure: Failure)
    ensures
        match failure {
            Failure::DirUncreated { dir, cause } => failure.told()
                == "failed to create runtime dir "@ + dir@ + ": "@ + cause@,
            Failure::Unread { path, cause } => failure.told() == "failed to read "@ + path@ + ": "@
                + cause@,
            Failure::Unwritten { path, cause } => failure.told() == "failed to write "@ + path@
                + ": "@ + cause@,
            Failure::LogUncreated { path, cause } => failure.told()
                == "failed to create capture log "@ + path@ + ": "@ + cause@,
            Failure::NoRecording { path, cause } => failure.told() == "no recording at "@ + path@
                + ": "@ + cause@,
            Failure::SignalFailed { sig, pid, cause } => failure.told() == "failed to send "@ + (
            match sig {
                Sig::Interrupt => "SIGINT"@,
                Sig::Kill => "SIGKILL"@,
            }) + " to pid "@ + signed_decimal(pid as int) + ": "@ + cause@,
            Failure::RecorderStuck { pid } => failure.told() == "pw-record (pid "@
                + signed_decimal(pid as int) + ") would not exit"@,
            Failure::StreamFailed { error } => failure.told() == error@
                + "; recording.wav and preview.json kept for recovery"@,
            _ => true,
        },
{
}

/// Where no paste backend worked, the user is told why each of them did not, in order.
pub proof fn every_failed_backend_is_told_of(failures: Vec<String>, last: Seq<char>)
    ensures
        (Failure::NoPasteBackend { failures }).told() == "no paste backend worked ("@ + joined(
            texts(failures@),
            "; "@,
        ) + ")"@,
        joined(seq![last], "; "@) == last,
        failures@.len() > 0 ==> joined(texts(failures@).push(last), "; "@) == joined(
            texts(failures@),
            "; "@,
        ) + "; "@ + last,
{
    assert(texts(failures@).push(last).drop_last() =~= texts(failures@));
}

}
