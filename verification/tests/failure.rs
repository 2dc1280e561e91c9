use textspill::audio::Sig;
use textspill::failure::Failure;
use textspill::input::selected_backends;
use textspill::ipc::{read_reply, Reply};
use textspill::wav::WavFault;

fn path() -> String {
    "/r/f".into()
}

fn cause() -> String {
    "why".into()
}

#[test]
fn failures_say_what_failed_and_why() {
    for (failure, message) in [
        (Failure::Reported("as is".into()), "as is"),
        (
            Failure::NoConfigHome,
            "HOME or XDG_CONFIG_HOME is required for TextSpill settings",
        ),
        (
            Failure::DirUncreated { dir: "/r".into(), cause: cause() },
            "failed to create runtime dir /r: why",
        ),
        (
            Failure::LockTimeout,
            "another textspill command has held the lock for over 3s",
        ),
        (Failure::LockBroken { path: path(), cause: cause() }, "failed to lock /r/f: why"),
        (Failure::Unread { path: path(), cause: cause() }, "failed to read /r/f: why"),
        (
            Failure::LogUncreated { path: path(), cause: cause() },
            "failed to create capture log /r/f: why",
        ),
        (
            Failure::RecorderNotStarted { cause: cause() },
            "failed to start pw-record (is pipewire installed?): why",
        ),
        (
            Failure::SignalFailed { sig: Sig::Interrupt, pid: 3, cause: cause() },
            "failed to send SIGINT to pid 3: why",
        ),
        (
            Failure::CopyNotRun { cause: cause() },
            "failed to run wl-copy (is wl-clipboard installed?): why",
        ),
        (Failure::CopyNoInput, "wl-copy stdin was not available"),
        (
            Failure::CopyUnwritten { cause: cause() },
            "failed to write transcription to wl-copy: why",
        ),
        (Failure::CopyUnwaited { cause: cause() }, "failed to wait for wl-copy: why"),
        (Failure::PathNotText, "recording path is not valid UTF-8"),
        (
            Failure::Unreachable { socket: "/s".into(), cause: cause() },
            "ASR daemon is not reachable on /s (why); start it with: \
             systemctl --user start textspill-asr.service",
        ),
        (
            Failure::DaemonError { error: "CUDA".into() },
            "ASR daemon reported: CUDA",
        ),
        (
            Failure::DeepgramStatus { code: 402 },
            "Deepgram HTTP 402: check your Deepgram account balance",
        ),
        (Failure::DeepgramTooLarge, "Deepgram response is too large"),
        (Failure::BadCapture { fault: WavFault::HeaderTooLarge }, "WAV header is too large"),
        (
            Failure::BadCapture { fault: WavFault::WrongFormat },
            "capture requires 16 kHz mono PCM16 WAV",
        ),
        (Failure::BadCapture { fault: WavFault::ShortFormat }, "invalid WAV fmt chunk"),
        (Failure::SendTimeout { cause: cause() }, "Deepgram send timed out: why"),
        (Failure::InvalidTiming, "invalid Deepgram result timing"),
        (Failure::BeyondSubmitted, "Deepgram result exceeds submitted audio"),
        (Failure::NoRecording { path: path(), cause: cause() }, "no recording at /r/f: why"),
        (Failure::OutOfTurn, "an answer came out of turn"),
    ] {
        assert_eq!(failure.message(), message);
    }
}

#[test]
fn what_cannot_be_seen_is_escaped() {
    let reply = Reply { line: "a\t\u{1}\"å".into(), json: "a\t\u{1}\"å".into() };
    let e = read_reply(&reply, Err(cause())).unwrap_err();
    assert_eq!(e.message(), "ASR daemon sent invalid JSON: \"a\\t\\u{1}\\\"å\": why");
    let e = selected_backends(Some("a\nb")).unwrap_err();
    assert_eq!(e.message(), "unknown TEXTSPILL_PASTE_BACKEND \"a\\nb\"");
}
