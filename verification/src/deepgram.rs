//! Deepgram requests and replies. Credentials and server response bodies are
//! never part of a failure.

use crate::config::{api_key, key_result, known_language, Config, KeySource};
use crate::failure::Failure;
use crate::number::{decimal, decimal_text};
use crate::text::{chars_of, same_text, text_of, to_text};
use crate::transcription::Transcription;
use crate::web::{header_char, header_text, is_header_text, scheme_and_host, url_parts};
use vstd::prelude::*;
use vstd::string::*;

verus! {

broadcast use vstd::string::group_string_axioms;

pub const HTTP_URL: &'static str = "https://api.deepgram.com/v1/listen";

pub const WS_URL: &'static str = "wss://api.deepgram.com/v1/listen";

/// How long a connection may take to set up.
pub const CONNECT_TIMEOUT_MS: u64 = 10000;

/// How long a whole request may take.
pub const REQUEST_TIMEOUT_MS: u64 = 120000;

/// The largest reply that is taken. One byte more than that is read, to tell a
/// larger one.
pub const MAX_REPLY_BYTES: usize = 1048576;

/// `s` with `to` in place of the first `from` in it.
pub open spec fn replaced_first(s: Seq<char>, from: Seq<char>, to: Seq<char>) -> Seq<char>
    decreases s.len(),
{
    if from.len() <= s.len() && s.take(from.len() as int) == from {
        to + s.skip(from.len() as int)
    } else if s.len() == 0 {
        s
    } else {
        seq![s[0]] + replaced_first(s.drop_first(), from, to)
    }
}

fn stands_at(chars: &[char], at: usize, word: &[char]) -> (r: bool)
    requires
        at <= chars@.len(),
    ensures
        r == (word@.len() <= chars@.skip(at as int).len() && chars@.skip(at as int).take(
            word@.len() as int,
        ) == word@),
{
    if chars.len() - at < word.len() {
        return false;
    }
    let ghost rest = chars@.skip(at as int);
    for i in 0..word.len()
        invariant
            at <= chars@.len(),
            rest == chars@.skip(at as int),
            word@.len() <= rest.len(),
            at + word@.len() <= usize::MAX,
            forall|j: int| 0 <= j < i ==> rest[j] == word@[j],
    {
        if chars[at + i] != word[i] {
            assert(rest.take(word@.len() as int)[i as int] != word@[i as int]);
            return false;
        }
    }
    assert(rest.take(word@.len() as int) =~= word@);
    true
}

/// `text` with `to` in place of the first `from` in it.
pub fn replace_first(text: &str, from: &str, to: &str) -> (out: String)
    ensures
        out@ == replaced_first(text@, from@, to@),
{
    let chars = chars_of(text);
    let word = chars_of(from);
    let mut at: usize = 0;
    assert(chars@.skip(0) =~= chars@);
    assert(chars@.take(0) + replaced_first(chars@, from@, to@) =~= replaced_first(
        chars@,
        from@,
        to@,
    ));
    loop
        invariant
            chars@ == text@,
            word@ == from@,
            at <= chars@.len(),
            replaced_first(text@, from@, to@) == chars@.take(at as int) + replaced_first(
                chars@.skip(at as int),
                from@,
                to@,
            ),
        decreases chars.len() - at,
    {
        let ghost rest = chars@.skip(at as int);
        if stands_at(chars.as_slice(), at, word.as_slice()) {
            let head = vstd::slice::slice_subrange(chars.as_slice(), 0, at);
            let tail = vstd::slice::slice_subrange(chars.as_slice(), at + word.len(), chars.len());
            let out = text_of(head).concat(to).concat(text_of(tail).as_str());
            assert(rest.skip(word@.len() as int) =~= tail@);
            assert(out@ =~= chars@.take(at as int) + (to@ + rest.skip(word@.len() as int)));
            return out;
        }
        if at == chars.len() {
            assert(chars@.take(at as int) + rest =~= chars@);
            return to_text(text);
        }
        proof {
            assert(rest.drop_first() =~= chars@.skip(at + 1));
            assert(chars@.take(at as int) + (seq![rest[0]] + replaced_first(
                rest.drop_first(),
                from@,
                to@,
            )) =~= chars@.take(at + 1) + replaced_first(chars@.skip(at + 1), from@, to@));
        }
        at = at + 1;
    }
}

/// An address names a server on this machine, over plain HTTP.
pub open spec fn is_loopback(parts: Option<(Seq<char>, Option<Seq<char>>)>) -> bool {
    parts matches Some((scheme, host)) && scheme == "http"@ && host == Some("127.0.0.1"@)
}

/// The address to talk to: `base`, where a test server is allowed and `base` names one on
/// this machine; else Deepgram's TLS endpoint.
pub open spec fn endpoint_of(
    streaming: bool,
    base: Option<Seq<char>>,
    loopback: bool,
) -> Seq<char> {
    match base {
        Some(base) if loopback => if streaming {
            replaced_first(base, "http://"@, "ws://"@)
        } else {
            base
        },
        _ => if streaming {
            WS_URL@
        } else {
            HTTP_URL@
        },
    }
}

/// The address to talk to, given what kind of address `base` is.
pub fn endpoint_for(streaming: bool, base: Option<&str>, loopback: bool) -> (url: String)
    ensures
        url@ == endpoint_of(
            streaming,
            match base {
                Some(base) => Some(base@),
                None => None,
            },
            loopback,
        ),
{
    if let Some(base) = base {
        if loopback {
            return if streaming {
                replace_first(base, "http://", "ws://")
            } else {
                to_text(base)
            };
        }
    }
    if streaming {
        to_text(WS_URL)
    } else {
        to_text(HTTP_URL)
    }
}

/// The address to talk to where the test server, if there may be one, is at `server`.
pub open spec fn endpoint_with(streaming: bool, server: Option<Seq<char>>) -> Seq<char> {
    endpoint_of(
        streaming,
        server,
        match server {
            Some(base) => is_loopback(url_parts(base)),
            None => false,
        },
    )
}

/// Debug builds can exercise the complete CLI against a loopback test server, at
/// `test_server`; other builds have none and always use Deepgram's TLS
/// endpoints.
pub fn endpoint(streaming: bool, test_server: Option<&str>) -> (url: String)
    ensures
        url@ == endpoint_with(
            streaming,
            match test_server {
                Some(base) => Some(base@),
                None => None,
            },
        ),
{
    let loopback = match test_server {
        Some(base) => match scheme_and_host(base) {
            Some((scheme, Some(host))) => same_text(scheme.as_str(), "http") && same_text(
                host.as_str(),
                "127.0.0.1",
            ),
            _ => false,
        },
        None => false,
    };
    endpoint_for(streaming, test_server, loopback)
}

/// No test server, or one that is not on this machine, means TLS to Deepgram.
pub proof fn only_a_loopback_server_replaces_deepgram(
    streaming: bool,
    base: Option<Seq<char>>,
    loopback: bool,
)
    requires
        !(base is Some && loopback),
    ensures
        endpoint_of(streaming, base, loopback) == if streaming {
            "wss://api.deepgram.com/v1/listen"@
        } else {
            "https://api.deepgram.com/v1/listen"@
        },
{
}

/// The value of the authorization header for `key`.
pub open spec fn authorization_text(key: Seq<char>) -> Seq<char> {
    "Token "@ + key
}

/// The value of the authorization header for `key`, if it may stand in one.
pub fn authorization(key: &str) -> (value: Result<String, Failure>)
    ensures
        match value {
            Ok(value) => header_text(authorization_text(key@)) && value@ == authorization_text(
                key@,
            ),
            Err(failure) => !header_text(authorization_text(key@)) && failure
                == Failure::KeyNotHeader,
        },
{
    let value = to_text("Token ").concat(key);
    if is_header_text(value.as_str()) {
        Ok(value)
    } else {
        Err(Failure::KeyNotHeader)
    }
}

/// A usable key always makes an authorization header.
pub proof fn usable_key_is_authorization(key: Seq<char>)
    requires
        crate::config::usable_key(key),
    ensures
        header_text(authorization_text(key)),
{
    reveal_strlit("Token ");
    let text = authorization_text(key);
    assert forall|i: int| 0 <= i < text.len() implies header_char(#[trigger] text[i]) by {
        if i >= 6 {
            assert(crate::config::graphic(key[i - 6]));
        }
    }
}

/// A key that is found makes an authorization header, so settings that were settled
/// with it can be asked with.
pub proof fn a_found_key_is_authorization(source: KeySource)
    requires
        key_result(source) is Ok,
    ensures
        crate::config::usable_key(key_result(source)->Ok_0),
        header_text(authorization_text(key_result(source)->Ok_0)),
{
    usable_key_is_authorization(key_result(source)->Ok_0);
}

/// A batch request, but for the audio that it carries. Redirects are not
/// followed.
pub struct BatchRequest {
    pub url: String,
    pub query: Vec<(String, String)>,
    pub authorization: String,
    pub content_type: String,
    pub timeout_ms: u64,
}

/// The pairs of a query.
pub open spec fn pairs(query: Seq<(String, String)>) -> Seq<(Seq<char>, Seq<char>)> {
    query.map_values(|pair: (String, String)| (pair.0@, pair.1@))
}

/// What is asked for in a batch request.
pub open spec fn batch_query(language: Seq<char>) -> Seq<(Seq<char>, Seq<char>)> {
    seq![("model"@, "nova-3"@), ("language"@, language), ("punctuate"@, "true"@)]
}

impl BatchRequest {
    /// The request goes to `url`, speaks of `language`, shows `key` and takes at most
    /// `timeout_ms`.
    pub open spec fn asks(
        self,
        url: Seq<char>,
        language: Seq<char>,
        key: Seq<char>,
        timeout_ms: u64,
    ) -> bool {
        &&& self.url@ == url
        &&& pairs(self.query@) == batch_query(language)
        &&& self.authorization@ == authorization_text(key)
        &&& self.content_type@ == "audio/wav"@
        &&& self.timeout_ms == timeout_ms
    }
}

/// What asking for a transcription at `url` comes to.
pub open spec fn requests_batch(
    config: Config,
    url: Seq<char>,
    source: KeySource,
    request: Result<BatchRequest, Failure>,
) -> bool {
    match (key_result(source), request) {
        (Err(failure), _) => request == Err::<BatchRequest, Failure>(failure),
        (Ok(key), Ok(request)) => {
            &&& known_language(config.deepgram_language@)
            &&& request.asks(url, config.deepgram_language@, key, REQUEST_TIMEOUT_MS)
        },
        (Ok(key), Err(failure)) => !known_language(config.deepgram_language@) && failure
            == Failure::UnknownLanguage,
    }
}

/// The request for the transcription of a WAV file; `source` is where the API
/// key is looked for, `test_server` the test server's address where there may be
/// one.
pub fn transcribe(
    config: &Config,
    test_server: Option<&str>,
    source: KeySource,
) -> (request: Result<BatchRequest, Failure>)
    ensures
        requests_batch(
            *config,
            endpoint_with(
                false,
                match test_server {
                    Some(base) => Some(base@),
                    None => None,
                },
            ),
            source,
            request,
        ),
{
    let url = endpoint(false, test_server);
    match api_key(source) {
        Err(failure) => Err(failure),
        Ok(key) => {
            proof {
                usable_key_is_authorization(key@);
            }
            transcribe_at(config, url.as_str(), key.as_str(), REQUEST_TIMEOUT_MS)
        },
    }
}

/// What asking for a transcription at `url` with `key` comes to.
pub open spec fn requests_batch_at(
    config: Config,
    url: Seq<char>,
    key: Seq<char>,
    timeout_ms: u64,
    request: Result<BatchRequest, Failure>,
) -> bool {
    match request {
        Ok(request) => {
            &&& known_language(config.deepgram_language@)
            &&& header_text(authorization_text(key))
            &&& request.asks(url, config.deepgram_language@, key, timeout_ms)
        },
        Err(failure) => if !known_language(config.deepgram_language@) {
            failure == Failure::UnknownLanguage
        } else {
            !header_text(authorization_text(key)) && failure == Failure::KeyNotHeader
        },
    }
}

/// The request for the transcription of a WAV file at `url`.
pub fn transcribe_at(config: &Config, url: &str, key: &str, timeout_ms: u64) -> (request: Result<
    BatchRequest,
    Failure,
>)
    ensures
        requests_batch_at(*config, url@, key@, timeout_ms, request),
{
    if let Err(failure) = config.validate_language() {
        return Err(failure);
    }
    match authorization(key) {
        Err(failure) => Err(failure),
        Ok(authorization) => {
            let query = vec![
                (to_text("model"), to_text("nova-3")),
                (to_text("language"), config.deepgram_language.clone()),
                (to_text("punctuate"), to_text("true")),
            ];
            assert(pairs(query@) =~= batch_query(config.deepgram_language@));
            Ok(
                BatchRequest {
                    url: to_text(url),
                    query,
                    authorization,
                    content_type: to_text("audio/wav"),
                    timeout_ms,
                },
            )
        },
    }
}

/// What came of a batch request.
pub enum BatchOutcome {
    TimedOut,
    Unreachable,
    /// A reply with this status; its body, read up to a byte beyond the limit,
    /// or why it could not be read.
    Replied { status: u16, body: Result<Vec<u8>, String> },
}

/// What a batch request came to, as a body that is taken.
pub open spec fn accepts(outcome: BatchOutcome, body: Result<Vec<u8>, Failure>) -> bool {
    match outcome {
        BatchOutcome::TimedOut => body == Err::<Vec<u8>, Failure>(Failure::DeepgramTimeout),
        BatchOutcome::Unreachable => body == Err::<Vec<u8>, Failure>(
            Failure::DeepgramUnreachable,
        ),
        BatchOutcome::Replied { status, body: read } => if !(200 <= status < 300) {
            body == Err::<Vec<u8>, Failure>(Failure::DeepgramStatus { code: status })
        } else {
            match read {
                Err(cause) => body == Err::<Vec<u8>, Failure>(
                    Failure::DeepgramUnread { cause },
                ),
                Ok(bytes) => if bytes@.len() > MAX_REPLY_BYTES {
                    body == Err::<Vec<u8>, Failure>(Failure::DeepgramTooLarge)
                } else {
                    body == Ok::<Vec<u8>, Failure>(bytes)
                },
            }
        },
    }
}

/// The body of a batch reply that is taken: one of success, and not too large.
pub fn accept_reply(outcome: BatchOutcome) -> (body: Result<Vec<u8>, Failure>)
    ensures
        accepts(outcome, body),
{
    match outcome {
        BatchOutcome::TimedOut => Err(Failure::DeepgramTimeout),
        BatchOutcome::Unreachable => Err(Failure::DeepgramUnreachable),
        BatchOutcome::Replied { status, body: read } => {
            if status < 200 || 300 <= status {
                return Err(Failure::DeepgramStatus { code: status });
            }
            match read {
                Err(cause) => Err(Failure::DeepgramUnread { cause }),
                Ok(bytes) => if bytes.len() > MAX_REPLY_BYTES {
                    Err(Failure::DeepgramTooLarge)
                } else {
                    Ok(bytes)
                },
            }
        },
    }
}

/// What to do about an HTTP status.
pub open spec fn status_hint(status: u16) -> Seq<char> {
    if status == 401 || status == 403 {
        "check your API key and its transcription permissions"@
    } else if status == 402 {
        "check your Deepgram account balance"@
    } else if status == 429 {
        "rate limit reached; try again later"@
    } else {
        "request failed; audio kept for recovery"@
    }
}

/// How an HTTP status is told to the user.
pub open spec fn status_text(status: u16) -> Seq<char> {
    "Deepgram HTTP "@ + decimal(status as nat) + ": "@ + status_hint(status)
}

/// How an HTTP status is told to the user.
pub fn status_error(status: u16) -> (message: String)
    ensures
        message@ == status_text(status),
{
    let hint = if status == 401 || status == 403 {
        "check your API key and its transcription permissions"
    } else if status == 402 {
        "check your Deepgram account balance"
    } else if status == 429 {
        "rate limit reached; try again later"
    } else {
        "request failed; audio kept for recovery"
    };
    to_text("Deepgram HTTP ").concat(decimal_text(status as u64).as_str()).concat(": ").concat(hint)
}

/// A batch reply.
pub struct Batch {
    pub results: Results,
}

pub struct Results {
    pub channels: Vec<Channel>,
}

pub struct Channel {
    pub alternatives: Vec<Alternative>,
}

pub struct Alternative {
    pub transcript: String,
}

impl Channel {
    /// The transcript that Deepgram thinks most likely, if it gives any.
    pub open spec fn best(self) -> Option<String> {
        if self.alternatives@.len() > 0 {
            Some(self.alternatives@[0].transcript)
        } else {
            None
        }
    }

    pub fn best_transcript(&self) -> (transcript: Option<String>)
        ensures
            transcript == self.best(),
    {
        if self.alternatives.len() > 0 {
            Some(self.alternatives[0].transcript.clone())
        } else {
            None
        }
    }
}

impl Batch {
    /// The transcript of the first channel, if there is one.
    pub open spec fn best(self) -> Option<String> {
        if self.results.channels@.len() > 0 {
            self.results.channels@[0].best()
        } else {
            None
        }
    }
}

/// What a batch reply in `language` comes to.
pub open spec fn takes_batch(
    parsed: Result<Batch, String>,
    language: Seq<char>,
    r: Result<Transcription, Failure>,
) -> bool {
    match parsed {
        Err(cause) => r == Err::<Transcription, Failure>(Failure::InvalidBatch { cause }),
        Ok(batch) => match batch.best() {
            None => r == Err::<Transcription, Failure>(Failure::NoAlternative),
            Some(text) => r matches Ok(transcription) && transcription.says(
                text@,
                Some(language),
            ),
        },
    }
}

/// The transcription that a batch reply holds; `parsed` is what its JSON came
/// to. Silence is a transcription; no alternative is none.
pub fn parse_batch(parsed: Result<Batch, String>, language: &str) -> (r: Result<
    Transcription,
    Failure,
>)
    ensures
        takes_batch(parsed, language@, r),
{
    match parsed {
        Err(cause) => Err(Failure::InvalidBatch { cause }),
        Ok(batch) => {
            let best = if batch.results.channels.len() > 0 {
                batch.results.channels[0].best_transcript()
            } else {
                None
            };
            match best {
                None => Err(Failure::NoAlternative),
                Some(text) => Ok(Transcription { text, language: Some(to_text(language)) }),
            }
        },
    }
}

/// One result of a stream.
pub struct StreamResult {
    pub is_final: bool,
    /// Where in the PCM the result ends, in bytes; `None` where its timing makes
    /// no sense.
    pub end: Option<u64>,
    pub channel: Channel,
}

/// What a stream is opened with.
pub open spec fn stream_query(language: Seq<char>) -> Seq<char> {
    "?model=nova-3&language="@ + language
        + "&encoding=linear16&sample_rate=16000&channels=1&punctuate=true&interim_results=true&endpointing=300"@
}

/// The address and the authorization that a stream is opened with.
pub struct StreamRequest {
    pub url: String,
    pub authorization: String,
}

/// What asking for a stream at `endpoint` comes to.
pub open spec fn requests_stream(
    config: Config,
    endpoint: Seq<char>,
    source: KeySource,
    request: Result<StreamRequest, Failure>,
) -> bool {
    if !known_language(config.deepgram_language@) {
        request == Err::<StreamRequest, Failure>(Failure::UnknownLanguage)
    } else {
        match key_result(source) {
            Err(failure) => request == Err::<StreamRequest, Failure>(failure),
            Ok(key) => {
                &&& request matches Ok(request)
                &&& request.url@ == endpoint + stream_query(config.deepgram_language@)
                &&& request.authorization@ == authorization_text(key)
            },
        }
    }
}

/// The request for a stream at `endpoint`; `source` is where the API key is
/// looked for.
pub fn stream_request(config: &Config, endpoint: &str, source: KeySource) -> (request: Result<
    StreamRequest,
    Failure,
>)
    ensures
        requests_stream(*config, endpoint@, source, request),
{
    if let Err(failure) = config.validate_language() {
        return Err(failure);
    }
    match api_key(source) {
        Err(failure) => Err(failure),
        Ok(key) => match authorization(key.as_str()) {
            Err(failure) => {
                proof {
                    usable_key_is_authorization(key@);
                }
                Err(failure)
            },
            Ok(authorization) => {
                let url = to_text(endpoint).concat("?model=nova-3&language=").concat(
                    config.deepgram_language.as_str(),
                ).concat(
                    "&encoding=linear16&sample_rate=16000&channels=1&punctuate=true&interim_results=true&endpointing=300",
                );
                assert(url@ =~= endpoint@ + stream_query(config.deepgram_language@));
                Ok(StreamRequest { url, authorization })
            },
        },
    }
}

/// `word` stands at `k` in `s`.
pub open spec fn found_at(s: Seq<char>, word: Seq<char>, k: int) -> bool {
    0 <= k && k + word.len() <= s.len() && s.subrange(k, k + word.len()) == word
}

/// Replacing replaces the first place where the word stands, and nothing around it; and
/// it leaves a text alone that the word does not stand in.
pub proof fn only_the_first_is_replaced(s: Seq<char>, from: Seq<char>, to: Seq<char>, k: int)
    requires
        forall|j: int| 0 <= j < k ==> !#[trigger] found_at(s, from, j),
        0 <= k <= s.len() + 1,
    ensures
        found_at(s, from, k) ==> replaced_first(s, from, to) == s.take(k) + to + s.skip(
            k + from.len(),
        ),
        k == s.len() + 1 ==> replaced_first(s, from, to) == s,
    decreases s.len(),
{
    if k == 0 {
        if found_at(s, from, 0) {
            assert(s.take(from.len() as int) =~= s.subrange(0, from.len() as int));
            assert(s.take(0) + to + s.skip(from.len() as int) =~= to + s.skip(from.len() as int));
        }
    } else {
        assert(!found_at(s, from, 0));
        if from.len() <= s.len() {
            assert(s.take(from.len() as int) =~= s.subrange(0, from.len() as int));
        }
        if s.len() > 0 {
            let t = s.drop_first();
            assert forall|j: int| 0 <= j < k - 1 implies !#[trigger] found_at(t, from, j) by {
                if found_at(t, from, j) {
                    assert(s.subrange(j + 1, j + 1 + from.len()) =~= t.subrange(
                        j,
                        j + from.len(),
                    ));
                    assert(found_at(s, from, j + 1));
                }
            }
            only_the_first_is_replaced(t, from, to, k - 1);
            if found_at(s, from, k) {
                assert(t.subrange(k - 1, k - 1 + from.len()) =~= s.subrange(k, k + from.len()));
                assert(found_at(t, from, k - 1));
                assert(seq![s[0]] + (t.take(k - 1) + to + t.skip(k - 1 + from.len())) =~= s.take(k)
                    + to + s.skip(k + from.len()));
            }
            if k == s.len() + 1 {
                assert(seq![s[0]] + t =~= s);
            }
        }
    }
}

/// A test server on this machine is talked to at its own address, over a plain web socket
/// where it streams.
pub proof fn a_loopback_server_is_talked_to(rest: Seq<char>)
    ensures
        endpoint_of(false, Some("http://"@ + rest), true) == "http://"@ + rest,
        endpoint_of(true, Some("http://"@ + rest), true) == "ws://"@ + rest,
{
    let base = "http://"@ + rest;
    let n = "http://"@.len() as int;
    assert(base.subrange(0, n) =~= "http://"@);
    assert(found_at(base, "http://"@, 0));
    only_the_first_is_replaced(base, "http://"@, "ws://"@, 0);
    assert(base.take(0) + "ws://"@ + base.skip(n) =~= "ws://"@ + rest);
}

/// Only plain HTTP to 127.0.0.1 is this machine.
pub proof fn loopback_is_plain_http_to_this_machine(
    parts: Option<(Seq<char>, Option<Seq<char>>)>,
)
    ensures
        is_loopback(parts) == match parts {
            Some((scheme, Some(host))) => scheme == "http"@ && host == "127.0.0.1"@,
            _ => false,
        },
{
}

/// A batch request in a known language with a key that is found is made: it goes to the
/// endpoint, asks for that language of the one model, with punctuation, shows the key
/// and nothing else to authorize it, carries a WAV file and takes two minutes at most.
/// Without a key it is refused for that, and only then for its language.
pub proof fn a_batch_request_is_made(
    config: Config,
    url: Seq<char>,
    source: KeySource,
    request: Result<BatchRequest, Failure>,
)
    requires
        requests_batch(config, url, source, request),
    ensures
        match key_result(source) {
            Err(failure) => request == Err::<BatchRequest, Failure>(failure),
            Ok(key) => if config.deepgram_language@ == "sv"@ || config.deepgram_language@
                == "en"@ {
                &&& request matches Ok(made)
                &&& made.url@ == url
                &&& pairs(made.query@).contains(("language"@, config.deepgram_language@))
                &&& pairs(made.query@).contains(("model"@, "nova-3"@))
                &&& pairs(made.query@).contains(("punctuate"@, "true"@))
                &&& made.query@.len() == 3
                &&& made.authorization@ == "Token "@ + key
                &&& made.content_type@ == "audio/wav"@
                &&& made.timeout_ms == 120000
            } else {
                request == Err::<BatchRequest, Failure>(Failure::UnknownLanguage)
            },
        },
{
    if let Ok(made) = request {
        let query = pairs(made.query@);
        assert(query.len() == made.query@.len());
        assert(query == batch_query(config.deepgram_language@));
        assert(batch_query(config.deepgram_language@).len() == 3);
        assert(query[0] == ("model"@, "nova-3"@));
        assert(query[1] == ("language"@, config.deepgram_language@));
        assert(query[2] == ("punctuate"@, "true"@));
    }
}

/// A stream is opened, in a known language and with a key that is found, at the endpoint
/// it is given, for that language, showing the key. The language is looked at first.
pub proof fn a_stream_request_is_made(
    config: Config,
    endpoint: Seq<char>,
    source: KeySource,
    request: Result<StreamRequest, Failure>,
)
    requires
        requests_stream(config, endpoint, source, request),
    ensures
        if config.deepgram_language@ != "sv"@ && config.deepgram_language@ != "en"@ {
            request == Err::<StreamRequest, Failure>(Failure::UnknownLanguage)
        } else {
            match key_result(source) {
                Err(failure) => request == Err::<StreamRequest, Failure>(failure),
                Ok(key) => {
                    &&& request matches Ok(made)
                    &&& made.url@ == endpoint + "?model=nova-3&language="@
                        + config.deepgram_language@
                        + "&encoding=linear16&sample_rate=16000&channels=1&punctuate=true&interim_results=true&endpointing=300"@
                    &&& made.authorization@ == "Token "@ + key
                },
            }
        },
{
    if let Ok(made) = request {
        assert(made.url@ =~= endpoint + "?model=nova-3&language="@ + config.deepgram_language@
            + "&encoding=linear16&sample_rate=16000&channels=1&punctuate=true&interim_results=true&endpointing=300"@);
    }
}

/// Every reply of success that could be read and is no larger than a mebibyte is taken,
/// byte for byte; every other outcome is refused as what it is.
pub proof fn a_reply_of_success_is_taken(outcome: BatchOutcome, body: Result<Vec<u8>, Failure>)
    requires
        accepts(outcome, body),
    ensures
        match outcome {
            BatchOutcome::TimedOut => body matches Err(failure) && failure.told()
                == "Deepgram request timed out; audio kept"@,
            BatchOutcome::Unreachable => body matches Err(failure) && failure.told()
                == "Deepgram connection failed; check network access"@,
            BatchOutcome::Replied { status, body: read } => if 200 <= status && status <= 299 {
                match read {
                    Ok(bytes) => if bytes@.len() <= 1048576 {
                        body matches Ok(taken) && taken@ == bytes@
                    } else {
                        body matches Err(failure) && failure.told()
                            == "Deepgram response is too large"@
                    },
                    Err(cause) => body matches Err(failure) && failure.told()
                        == "could not read Deepgram response: "@ + cause@,
                }
            } else {
                body matches Err(failure) && failure.told() == status_text(status)
            },
        },
{
}

/// A refused request is told with its status, and with what to do about it: about the
/// key, the balance, the rate, or else that the audio is kept.
pub proof fn a_status_is_told_with_its_number(status: u16)
    ensures
        status_text(status) == "Deepgram HTTP "@ + decimal(status as nat) + ": "@ + (if status
            == 401 || status == 403 {
            "check your API key and its transcription permissions"@
        } else if status == 402 {
            "check your Deepgram account balance"@
        } else if status == 429 {
            "rate limit reached; try again later"@
        } else {
            "request failed; audio kept for recovery"@
        }),
{
}

/// The transcription of a batch reply is the first alternative of its first channel, word
/// for word, in the language that was asked for, silence included; a reply without one
/// is refused, and so is one that is no such reply.
pub proof fn the_first_alternative_is_the_transcription(
    parsed: Result<Batch, String>,
    language: Seq<char>,
    r: Result<Transcription, Failure>,
)
    requires
        takes_batch(parsed, language, r),
    ensures
        match parsed {
            Err(cause) => r matches Err(failure) && failure.told()
                == "invalid Deepgram transcription response: "@ + cause@,
            Ok(batch) => {
                let channels = batch.results.channels@;
                if channels.len() > 0 && channels[0].alternatives@.len() > 0 {
                    &&& r matches Ok(found)
                    &&& found.text@ == channels[0].alternatives@[0].transcript@
                    &&& found.language matches Some(spoken) && spoken@ == language
                } else {
                    r == Err::<Transcription, Failure>(Failure::NoAlternative)
                }
            },
        },
{
}

/// A batch request at an address is made exactly with a known language and a key that may
/// stand in a header: it goes there, with the language, the key and the time as given.
pub proof fn a_batch_request_is_made_as_given(
    config: Config,
    url: Seq<char>,
    key: Seq<char>,
    timeout_ms: u64,
    request: Result<BatchRequest, Failure>,
)
    requires
        requests_batch_at(config, url, key, timeout_ms, request),
    ensures
        ({
            let spoken = config.deepgram_language@;
            if spoken != "sv"@ && spoken != "en"@ {
                request == Err::<BatchRequest, Failure>(Failure::UnknownLanguage)
            } else if !header_text("Token "@ + key) {
                request == Err::<BatchRequest, Failure>(Failure::KeyNotHeader)
            } else {
                &&& request matches Ok(made)
                &&& made.url@ == url
                &&& pairs(made.query@).contains(("language"@, spoken))
                &&& made.authorization@ == "Token "@ + key
                &&& made.timeout_ms == timeout_ms
            }
        }),
{
    if let Ok(made) = request {
        assert(pairs(made.query@)[1] == ("language"@, config.deepgram_language@));
    }
}

/// Without a test server, and with one that is anywhere but on this machine or talks
/// anything but plain HTTP, Deepgram itself is talked to, over TLS.
pub proof fn any_other_server_is_deepgram(streaming: bool, server: Option<Seq<char>>)
    requires
        server matches Some(base) ==> !(url_parts(base) matches Some((scheme, Some(host)))
            && scheme == "http"@ && host == "127.0.0.1"@),
    ensures
        endpoint_with(streaming, server) == if streaming {
            "wss://api.deepgram.com/v1/listen"@
        } else {
            "https://api.deepgram.com/v1/listen"@
        },
{
}

}
