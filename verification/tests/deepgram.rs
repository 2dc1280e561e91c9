use textspill::config::{Backend, Config, KeySource};
use textspill::deepgram::{
    accept_reply, endpoint, endpoint_for, parse_batch, replace_first, status_error,
    stream_request, transcribe, transcribe_at, Alternative, Batch, BatchOutcome, Channel, Results,
    HTTP_URL, MAX_REPLY_BYTES, WS_URL,
};
use textspill::failure::Failure;

fn channel(transcripts: &[&str]) -> Channel {
    Channel {
        alternatives: transcripts
            .iter()
            .map(|text| Alternative { transcript: text.to_string() })
            .collect(),
    }
}

/// A reply, with its JSON read as the client reads it.
fn batch(json: &[u8]) -> Result<Batch, String> {
    let value: serde_json::Value = serde_json::from_slice(json).map_err(|e| e.to_string())?;
    let channels = value["results"]["channels"].as_array().ok_or("no channels")?;
    let mut read = Vec::new();
    for channel in channels {
        let mut alternatives = Vec::new();
        for alternative in channel["alternatives"].as_array().ok_or("no alternatives")? {
            let transcript = alternative["transcript"].as_str().ok_or("no transcript")?;
            alternatives.push(Alternative { transcript: transcript.to_string() });
        }
        read.push(Channel { alternatives });
    }
    Ok(Batch { results: Results { channels: read } })
}

#[test]
fn batch_response_requires_transcript_but_accepts_silence() {
    assert!(parse_batch(batch(br#"{"results":{"channels":[]}}"#), "sv").is_err());
    assert!(parse_batch(batch(b"not json"), "sv").is_err());
    let result = parse_batch(
        batch(br#"{"results":{"channels":[{"alternatives":[{"transcript":""}]}]}}"#),
        "sv",
    )
    .unwrap();
    assert_eq!(result.text, "");
}

#[test]
fn http_sends_wav_and_handles_success_auth_rate_limit_and_timeout() {
    let request =
        transcribe_at(&Config::default(), "http://127.0.0.1:1/v1/listen", "test-secret", 200)
            .unwrap();
    let query: Vec<(&str, &str)> =
        request.query.iter().map(|(a, b)| (a.as_str(), b.as_str())).collect();
    assert!(query.contains(&("model", "nova-3")) && query.contains(&("language", "sv")));
    assert_eq!(request.authorization, "Token test-secret");
    assert_eq!(request.content_type, "audio/wav");
    assert_eq!(request.url, "http://127.0.0.1:1/v1/listen");
    assert_eq!(request.timeout_ms, 200);
    let body = br#"{"results":{"channels":[{"alternatives":[{"transcript":"hej"}]}]}}"#;
    for status in [200, 401, 429, 500, 0] {
        let outcome = if status == 0 {
            BatchOutcome::TimedOut
        } else {
            BatchOutcome::Replied { status, body: Ok(body.to_vec()) }
        };
        let result = accept_reply(outcome).and_then(|body| parse_batch(batch(&body), "sv"));
        if status == 200 {
            assert_eq!(result.unwrap().text, "hej");
        } else {
            let error = result.unwrap_err().message();
            assert!(!error.contains("test-secret"));
        }
    }
}

#[test]
fn the_first_alternative_of_the_first_channel_counts() {
    let batch = Batch {
        results: Results { channels: vec![channel(&["a", "b"]), channel(&["c"])] },
    };
    let result = parse_batch(Ok(batch), "en").unwrap();
    assert_eq!(result.text, "a");
    assert_eq!(result.language.as_deref(), Some("en"));
    let none = Batch { results: Results { channels: vec![channel(&[]), channel(&["c"])] } };
    let e = parse_batch(Ok(none), "en").unwrap_err();
    assert_eq!(e.message(), "Deepgram response has no transcription alternative");
    let e = parse_batch(Err("EOF".into()), "en").unwrap_err();
    assert_eq!(e.message(), "invalid Deepgram transcription response: EOF");
}

#[test]
fn statuses_come_with_a_hint() {
    assert_eq!(
        status_error(401),
        "Deepgram HTTP 401: check your API key and its transcription permissions"
    );
    assert_eq!(status_error(403)[18..], status_error(401)[18..]);
    assert_eq!(status_error(402), "Deepgram HTTP 402: check your Deepgram account balance");
    assert_eq!(status_error(429), "Deepgram HTTP 429: rate limit reached; try again later");
    assert_eq!(status_error(500), "Deepgram HTTP 500: request failed; audio kept for recovery");
}

#[test]
fn replies_are_accepted_up_to_a_limit() {
    let reply = |status, n| accept_reply(BatchOutcome::Replied { status, body: Ok(vec![0; n]) });
    assert_eq!(reply(200, MAX_REPLY_BYTES).unwrap().len(), MAX_REPLY_BYTES);
    assert_eq!(reply(299, 1).unwrap(), [0]);
    assert!(matches!(reply(200, MAX_REPLY_BYTES + 1), Err(Failure::DeepgramTooLarge)));
    assert!(matches!(reply(199, 1), Err(Failure::DeepgramStatus { code: 199 })));
    assert!(matches!(reply(300, 1), Err(Failure::DeepgramStatus { code: 300 })));
    let unread = BatchOutcome::Replied { status: 200, body: Err("reset".into()) };
    let e = accept_reply(unread).unwrap_err();
    assert_eq!(e.message(), "could not read Deepgram response: reset");
    let e = accept_reply(BatchOutcome::Unreachable).unwrap_err();
    assert_eq!(e.message(), "Deepgram connection failed; check network access");
    let e = accept_reply(BatchOutcome::TimedOut).unwrap_err();
    assert_eq!(e.message(), "Deepgram request timed out; audio kept");
}

#[test]
fn only_a_loopback_server_takes_deepgrams_place() {
    assert_eq!(endpoint(false, None), HTTP_URL);
    assert_eq!(endpoint(true, None), WS_URL);
    let local = "http://127.0.0.1:8080/v1/listen";
    assert_eq!(endpoint(false, Some(local)), local);
    assert_eq!(endpoint(true, Some(local)), "ws://127.0.0.1:8080/v1/listen");
    for other in [
        "https://127.0.0.1/v1/listen",
        "http://example.com/v1/listen",
        "http://localhost/v1/listen",
        "http://127.0.0.1.example.com/",
        "not a url",
        "",
    ] {
        assert_eq!(endpoint(false, Some(other)), HTTP_URL, "{other}");
        assert_eq!(endpoint(true, Some(other)), WS_URL, "{other}");
    }
    // The host is read as a URL, not as text.
    assert_eq!(endpoint(false, Some("HTTP://0x7f.1/")), "HTTP://0x7f.1/");
    assert_eq!(endpoint_for(true, Some("http://a http://b"), true), "ws://a http://b");
    assert_eq!(endpoint_for(true, Some("http://a"), false), WS_URL);
}

#[test]
fn only_the_first_match_is_replaced() {
    assert_eq!(replace_first("aab aab", "ab", "X"), "aX aab");
    assert_eq!(replace_first("abc", "x", "y"), "abc");
    assert_eq!(replace_first("abc", "", "y"), "yabc");
    assert_eq!(replace_first("", "", "y"), "y");
    assert_eq!(replace_first("åäö", "äö", ""), "å");
}

#[test]
fn a_batch_request_needs_a_key_and_a_known_language() {
    let request = transcribe(
        &Config::default(),
        None,
        KeySource::File(" key-1\n".into()),
    )
    .unwrap();
    assert_eq!(request.url, HTTP_URL);
    assert_eq!(request.authorization, "Token key-1");
    assert_eq!(request.timeout_ms, 120000);
    let e = transcribe(&Config::default(), None, KeySource::Variable("a b".into()));
    assert!(matches!(e, Err(Failure::UnusableKey)));
    let mut config = Config::default();
    config.deepgram_language = "de".into();
    let e = transcribe(&config, None, KeySource::Variable("key".into()));
    assert!(matches!(e, Err(Failure::UnknownLanguage)));
    // The key is looked at first.
    let e = transcribe(&config, None, KeySource::VariableNotText);
    assert!(matches!(e, Err(Failure::KeyNotText)));
}

#[test]
fn a_key_that_fits_no_header_is_refused_without_showing_it() {
    let e = transcribe_at(&Config::default(), HTTP_URL, "se\ncret", 1).err().unwrap();
    assert!(matches!(e, Failure::KeyNotHeader));
    assert_eq!(e.message(), "invalid Deepgram API key");
    // Beyond ASCII a header is opaque, but allowed.
    assert!(transcribe_at(&Config::default(), HTTP_URL, "nyckel-å\t", 1).is_ok());
    assert!(transcribe_at(&Config::default(), HTTP_URL, "\u{7f}", 1).is_err());
}

#[test]
fn a_stream_is_opened_with_the_settings_of_the_capture() {
    let mut config = Config::default();
    config.backend = Backend::Deepgram;
    config.deepgram_language = "en".into();
    let request = stream_request(&config, WS_URL, KeySource::Variable("k".into())).unwrap();
    assert_eq!(
        request.url,
        "wss://api.deepgram.com/v1/listen?model=nova-3&language=en&encoding=linear16\
         &sample_rate=16000&channels=1&punctuate=true&interim_results=true&endpointing=300"
    );
    assert_eq!(request.authorization, "Token k");
    let e = stream_request(&config, WS_URL, KeySource::Nowhere("ENOENT".into()));
    assert!(matches!(e, Err(Failure::NoKey { .. })));
    config.deepgram_language = "SV".into();
    // The language is looked at first.
    let e = stream_request(&config, WS_URL, KeySource::VariableNotText);
    assert!(matches!(e, Err(Failure::UnknownLanguage)));
}
