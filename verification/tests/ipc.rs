use textspill::failure::Failure;
use textspill::ipc::{
    preview, read_reply, reply_json, request_line, transcribe, truncate, Answer, Exchange,
    Response, Transcription,
};

fn exchange() -> Exchange {
    transcribe(
        "/run/user/1000/textspill/asr.sock",
        "/run/user/1000/textspill/recording.wav",
        300,
    )
}

/// What the daemon's line comes to, with its JSON read as the client reads it.
fn ask(answer: Answer) -> Result<Transcription, Failure> {
    let reply = reply_json(&exchange(), answer)?;
    let parsed = match serde_json::from_str::<serde_json::Value>(&reply.json) {
        Ok(value) => {
            let field = |name: &str| value.get(name).and_then(|v| v.as_str()).map(String::from);
            Ok(Response {
                text: field("text"),
                language: field("language"),
                error: field("error"),
            })
        }
        Err(error) => Err(error.to_string()),
    };
    read_reply(&reply, parsed)
}

fn line(bytes: &[u8]) -> Answer {
    Answer::Line(String::from_utf8(bytes.to_vec()).unwrap())
}

#[test]
fn parses_a_successful_reply() {
    let result = ask(line(b"{\"text\":\"hej v\xc3\xa4rlden\",\"language\":\"Swedish\"}\n"))
        .expect("should succeed");
    assert_eq!(result.text, "hej världen");
    assert_eq!(result.language.as_deref(), Some("Swedish"));
}

#[test]
fn accepts_a_reply_without_a_language() {
    let result = ask(line(b"{\"text\":\"hello\"}\n")).expect("language is optional");
    assert_eq!(result.text, "hello");
    assert_eq!(result.language, None);
}

#[test]
fn surfaces_a_daemon_error() {
    let e = ask(line(b"{\"error\":\"CUDA out of memory\"}\n"))
        .expect_err("an error reply must not succeed");
    assert!(e.message().contains("CUDA out of memory"), "{}", e.message());
}

#[test]
fn rejects_invalid_json() {
    let e = ask(line(b"<html>502</html>\n")).expect_err("garbage must not parse");
    assert!(e.message().contains("invalid JSON"), "{}", e.message());
    assert_eq!(
        e.message(),
        "ASR daemon sent invalid JSON: \"<html>502</html>\\n\": expected value at line 1 column 1"
    );
}

#[test]
fn rejects_a_reply_with_neither_text_nor_error() {
    let e = ask(line(b"{\"language\":\"Swedish\"}\n"))
        .expect_err("an empty reply must not succeed");
    assert!(e.message().contains("neither"), "{}", e.message());
}

#[test]
fn detects_a_daemon_that_closes_without_replying() {
    let e = ask(line(b"")).expect_err("a silent close must not succeed");
    assert!(e.message().contains("without replying"), "{}", e.message());
    let e = ask(line(b" \n")).expect_err("a blank line says nothing");
    assert!(e.message().contains("without replying"), "{}", e.message());
}

#[test]
fn times_out_instead_of_hanging_forever() {
    let e = ask(Answer::Late).expect_err("a hung daemon must not block");
    assert!(e.message().contains("did not answer"), "{}", e.message());
    assert_eq!(e.message(), "ASR daemon did not answer within 0s");
}

#[test]
fn reports_a_missing_daemon_with_a_hint() {
    let exchange = transcribe("/nonexistent/textspill/asr.sock", "/tmp/recording.wav", 300);
    let e = reply_json(&exchange, Answer::Unreachable("No such file or directory".into()))
        .expect_err("no socket means no daemon");
    let message = e.message();
    assert!(message.contains("not reachable"), "{message}");
    assert!(message.contains("systemctl --user start"), "{message}");
    assert!(message.contains("/nonexistent/textspill/asr.sock"), "{message}");
}

#[test]
fn other_failures_of_an_exchange_are_told() {
    let unsent = ask(Answer::Unsent("EPIPE".into())).unwrap_err();
    assert_eq!(unsent.message(), "failed to send request to ASR daemon: EPIPE");
    let broken = ask(Answer::Broken("EIO".into())).unwrap_err();
    assert_eq!(broken.message(), "failed to read from ASR daemon: EIO");
}

#[test]
fn an_exchange_asks_about_the_file_it_was_given() {
    let whole = exchange();
    assert_eq!(whole.audio_path, "/run/user/1000/textspill/recording.wav");
    assert_eq!((whole.preview, whole.read_timeout_ms), (false, 300));
    let part = preview("s", "p.wav");
    assert_eq!((part.socket.as_str(), part.audio_path.as_str()), ("s", "p.wav"));
    assert_eq!((part.preview, part.read_timeout_ms), (true, 30000));
    assert_eq!(request_line(b"{}".to_vec()), b"{}\n");
}

#[test]
fn a_long_reply_is_shown_in_part() {
    assert_eq!(truncate("åäö", 2), "åä");
    assert_eq!(truncate("åäö", 3), "åäö");
    assert_eq!(truncate("", 0), "");
    let e = ask(Answer::Line("x".repeat(300))).unwrap_err();
    match e {
        Failure::InvalidReply { shown, .. } => assert_eq!(shown, format!("\"{}\"", "x".repeat(200))),
        _ => panic!("expected an invalid reply"),
    }
}
