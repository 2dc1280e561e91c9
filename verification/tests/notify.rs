use textspill::host::Note;
use textspill::notify::{
    cancelled, clipboard_only, error, info, preview, recording, spilled, transcribing, Notice,
    Urgency,
};

fn shown(notice: &Notice) -> (Urgency, &str, &str) {
    (notice.urgency, &notice.summary, &notice.body)
}

#[test]
fn notices_say_what_happened() {
    assert_eq!(shown(&recording()), (Urgency::Low, "🎙 Recording", ""));
    assert_eq!(shown(&transcribing()), (Urgency::Low, "Transcribing…", ""));
    assert_eq!(shown(&cancelled()), (Urgency::Low, "Recording cancelled", ""));
    assert_eq!(shown(&error("x")), (Urgency::Critical, "TextSpill failed", "x"));
    assert_eq!(shown(&info("x")), (Urgency::Normal, "x", ""));
    assert_eq!(
        shown(&clipboard_only("x")),
        (
            Urgency::Critical,
            "Text is on the clipboard",
            "Paste it manually with Shift+Insert — x"
        )
    );
    assert_eq!(
        shown(&spilled(Some("Swedish"), "Kan du")),
        (Urgency::Normal, "Swedish: Kan du", "")
    );
    assert_eq!(shown(&spilled(None, "Kan du")), (Urgency::Normal, "Kan du", ""));
}

#[test]
fn a_notice_becomes_arguments() {
    let notice = Notice { urgency: Urgency::Critical, summary: "-s".into(), body: "b".into() };
    assert_eq!(
        notice.args(),
        [
            "--app-name",
            "TextSpill",
            "--urgency",
            "critical",
            "--expire-time",
            "4000",
            "--hint",
            "string:x-canonical-private-synchronous:textspill",
            "--",
            "-s",
            "b",
        ]
    );
    assert_eq!(Urgency::Low.as_str(), "low");
    assert_eq!(Urgency::Normal.as_str(), "normal");
}

#[test]
fn a_transcript_is_shown_by_its_first_line() {
    assert_eq!(preview("one\ntwo"), "one");
    assert_eq!(preview("one\rtwo"), "one");
    assert_eq!(preview(""), "");
    let sixty = "å".repeat(60);
    assert_eq!(preview(&sixty), sixty);
    assert_eq!(preview(&format!("{sixty}x")), format!("{sixty}…"));
}

#[test]
fn every_note_has_its_notice() {
    for (note, summary) in [
        (Note::Recording, "🎙 Recording"),
        (Note::Transcribing, "Transcribing…"),
        (Note::Cancelled, "Recording cancelled"),
        (Note::AlreadyRecording, "Already recording"),
        (Note::StillTranscribing, "Still transcribing"),
        (Note::NotRecording, "Not recording"),
        (Note::NothingRecorded, "Nothing recorded"),
        (Note::NoSpeech, "No speech detected"),
        (Note::LiveStopped, "Live typing stopped; audio kept for recovery"),
        (Note::PreviewUnavailable, "Live preview unavailable; recording continues"),
        (Note::StreamStopped, "Deepgram live typing stopped; audio kept for recovery"),
        (Note::Spilled { language: Some("en".into()), text: "hi".into() }, "en: hi"),
        (Note::ClipboardOnly { reason: "r".into() }, "Text is on the clipboard"),
    ] {
        assert_eq!(note.notice().summary, summary);
    }
}
