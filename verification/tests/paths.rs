use textspill::failure::Failure;
use textspill::paths::{join, run_user_dir, runtime_base, runtime_dir, Mark, Paths};

#[test]
fn every_file_has_its_name() {
    let paths = Paths::for_test("/run/user/1000/textspill".into());
    let named = [
        (Mark::SessionConfig, paths.session_config(), "session-config.json"),
        (Mark::StreamState, paths.stream_state(), "stream.json"),
        (Mark::RecordingPid, paths.recording_pid(), "recording.pid"),
        (Mark::TranscribingPid, paths.transcribing_pid(), "transcribing.pid"),
        (Mark::RecordingWav, paths.recording_wav(), "recording.wav"),
        (Mark::CaptureLog, paths.capture_log(), "pw-record.log"),
        (Mark::AsrSocket, paths.asr_socket(), "asr.sock"),
        (Mark::LockFile, paths.lock_file(), "textspill.lock"),
        (Mark::LiveSession, paths.live_session(), "live-session"),
        (Mark::Preview, paths.preview(), "preview.json"),
        (Mark::LiveLog, paths.live_log(), "live.log"),
    ];
    for (mark, path, name) in named {
        assert_eq!(path, format!("/run/user/1000/textspill/{name}"));
        assert_eq!(paths.at(mark), path);
        assert_eq!(mark.file_name(), name);
        assert_eq!(paths.replacement(mark).path, path);
    }
    assert_eq!(
        paths.live_audio("12-34"),
        "/run/user/1000/textspill/preview-12-34.wav"
    );
    assert_eq!(
        paths.replacement(Mark::Preview).temporary,
        "/run/user/1000/textspill/preview.tmp"
    );
    assert_eq!(
        paths.replacement(Mark::SessionConfig).temporary,
        "/run/user/1000/textspill/session-config.tmp"
    );
}

#[test]
fn no_two_files_share_a_path() {
    let paths = Paths::for_test("/r".into());
    let marks = [
        Mark::SessionConfig,
        Mark::StreamState,
        Mark::RecordingPid,
        Mark::TranscribingPid,
        Mark::RecordingWav,
        Mark::CaptureLog,
        Mark::AsrSocket,
        Mark::LockFile,
        Mark::LiveSession,
        Mark::Preview,
        Mark::LiveLog,
    ];
    let mut all: Vec<String> = marks.iter().map(|mark| paths.at(*mark)).collect();
    for session in ["1-2", "1-3", "final"] {
        all.push(paths.live_audio(session));
    }
    for mark in [Mark::SessionConfig, Mark::StreamState, Mark::Preview] {
        all.push(paths.replacement(mark).temporary);
    }
    let count = all.len();
    all.sort();
    all.dedup();
    assert_eq!(all.len(), count);
    assert!(all.iter().all(|path| path.matches('/').count() == 2));
}

#[test]
fn a_foreign_runtime_directory_is_refused() {
    let claim = Paths::new("/run/user/1000", 1000, 1000, 0o40700).unwrap();
    assert!(!claim.tighten);
    assert_eq!(claim.paths.lock_file(), "/run/user/1000/textspill/textspill.lock");
    assert!(Paths::new("/run/user/1000", 1000, 1000, 0o40755).unwrap().tighten);
    let e = Paths::new("/tmp/textspill-1000", 0, 1000, 0o40700).err().unwrap();
    assert_eq!(
        e.message(),
        "runtime dir /tmp/textspill-1000/textspill is owned by uid 0, not 1000"
    );
}

#[test]
fn the_runtime_directory_falls_back() {
    assert_eq!(runtime_base(Some("/x"), true, 7, true), "/x");
    assert_eq!(runtime_base(Some("/x"), false, 7, true), "/run/user/7");
    assert_eq!(runtime_base(None, false, 7, true), "/run/user/7");
    assert_eq!(runtime_base(None, false, 7, false), "/tmp/textspill-7");
    assert_eq!(run_user_dir(1000), "/run/user/1000");
    assert_eq!(runtime_dir("/x"), "/x/textspill");
}

#[test]
fn settings_live_in_the_config_home() {
    assert_eq!(Paths::config_dir(Some("/c"), None).unwrap(), "/c/textspill");
    assert_eq!(Paths::config_dir(Some(""), Some("/h")).unwrap(), "/h/.config/textspill");
    assert_eq!(Paths::config_dir(None, Some("/h")).unwrap(), "/h/.config/textspill");
    assert!(matches!(Paths::config_dir(None, None), Err(Failure::NoConfigHome)));
    assert!(matches!(Paths::config_dir(Some(""), None), Err(Failure::NoConfigHome)));
}

#[test]
fn paths_are_joined_with_one_slash() {
    assert_eq!(join("/a", "b"), "/a/b");
    assert_eq!(join("/a/", "b"), "/a/b");
    assert_eq!(join("", "b"), "b");
    assert_eq!(join("/", "b"), "/b");
}
