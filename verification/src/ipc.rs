//! Unix-socket client for the ASR daemon.
//!
//! The protocol is one line of JSON in each direction. Every socket operation
//! has a deadline: a hung or half-dead daemon must never leave the hotkey path
//! blocked forever.

use crate::failure::Failure;
use crate::number::decimal;
use crate::text::{chars_of, debug_form, quoted, text_of, to_text, trim, trimmed};
use vstd::prelude::*;
use vstd::string::*;

pub use crate::transcription::Transcription;

verus! {

/// The daemon is local; a write that blocks this long is a dead peer.
pub const WRITE_TIMEOUT_MS: u64 = 5000;

/// A response line is small; this only bounds a misbehaving peer.
pub const MAX_RESPONSE_BYTES: u64 = 1048576;

/// How long the daemon gets for a preview.
pub const PREVIEW_TIMEOUT_MS: u64 = 30000;

/// How much of a reply that is no JSON is shown.
pub const SHOWN_CHARS: usize = 200;

/// What is asked of the daemon, and how long it gets.
#[derive(Debug)]
pub struct Exchange {
    pub socket: String,
    pub audio_path: String,
    pub preview: bool,
    pub read_timeout_ms: u64,
}

impl Exchange {
    /// The daemon at `socket` is asked about `wav`, with this much time.
    pub open spec fn asks(
        self,
        socket: Seq<char>,
        wav: Seq<char>,
        read_timeout_ms: u64,
        preview: bool,
    ) -> bool {
        &&& self.socket@ == socket
        &&& self.audio_path@ == wav
        &&& self.read_timeout_ms == read_timeout_ms
        &&& self.preview == preview
    }
}

/// Sends `wav` to the daemon at `socket` and waits for the transcription.
pub fn transcribe(socket: &str, wav: &str, read_timeout_ms: u64) -> (exchange: Exchange)
    ensures
        exchange.asks(socket@, wav@, read_timeout_ms, false),
{
    request(socket, wav, read_timeout_ms, false)
}

/// Asks the daemon at `socket` for a preview of `wav`.
pub fn preview(socket: &str, wav: &str) -> (exchange: Exchange)
    ensures
        exchange.asks(socket@, wav@, PREVIEW_TIMEOUT_MS, true),
{
    request(socket, wav, PREVIEW_TIMEOUT_MS, true)
}

fn request(socket: &str, wav: &str, read_timeout_ms: u64, preview: bool) -> (exchange: Exchange)
    ensures
        exchange.asks(socket@, wav@, read_timeout_ms, preview),
{
    Exchange { socket: to_text(socket), audio_path: to_text(wav), preview, read_timeout_ms }
}

/// A request as it goes over the socket.
pub open spec fn line_of(body: Seq<u8>) -> Seq<u8> {
    body.push(0x0a)
}

/// A request, `body` in JSON, as it goes over the socket: one line.
pub fn request_line(body: Vec<u8>) -> (line: Vec<u8>)
    ensures
        line@ == line_of(body@),
{
    let mut line = body;
    line.push(0x0a);
    line
}

/// How far the exchange got.
pub enum Answer {
    /// Nobody listens.
    Unreachable(String),
    /// The request could not be sent.
    Unsent(String),
    /// No reply came in time.
    Late,
    /// Reading the reply failed.
    Broken(String),
    /// A line came, or what was left when the daemon closed the connection.
    Line(String),
}

/// What the daemon replies with: `{"text": ..., "language": ...}` or
/// `{"error": ...}`.
#[derive(Debug)]
pub struct Response {
    pub text: Option<String>,
    pub language: Option<String>,
    pub error: Option<String>,
}

/// The failure of an exchange that brought no line, or an empty one.
pub open spec fn lost(exchange: Exchange, answer: Answer) -> Option<Failure> {
    match answer {
        Answer::Unreachable(cause) => Some(
            Failure::Unreachable { socket: exchange.socket, cause },
        ),
        Answer::Unsent(cause) => Some(Failure::Unsent { cause }),
        Answer::Late => Some(Failure::Late { seconds: exchange.read_timeout_ms / 1000 }),
        Answer::Broken(cause) => Some(Failure::Broken { cause }),
        Answer::Line(line) => if trimmed(line@).len() == 0 {
            Some(Failure::NoReply)
        } else {
            None
        },
    }
}

/// What an exchange comes to.
pub open spec fn replies(exchange: Exchange, answer: Answer, json: Result<Reply, Failure>) -> bool {
    match json {
        Ok(reply) => {
            &&& lost(exchange, answer) is None
            &&& answer == Answer::Line(reply.line)
            &&& reply.json@ == trimmed(reply.line@)
        },
        Err(failure) => lost(exchange, answer) == Some(failure),
    }
}

/// The JSON of the reply: the line without white space around it.
pub fn reply_json(exchange: &Exchange, answer: Answer) -> (json: Result<Reply, Failure>)
    ensures
        replies(*exchange, answer, json),
{
    match answer {
        Answer::Unreachable(cause) => Err(
            Failure::Unreachable { socket: exchange.socket.clone(), cause },
        ),
        Answer::Unsent(cause) => Err(Failure::Unsent { cause }),
        Answer::Late => Err(Failure::Late { seconds: exchange.read_timeout_ms / 1000 }),
        Answer::Broken(cause) => Err(Failure::Broken { cause }),
        Answer::Line(line) => {
            let json = trim(line.as_str());
            if json.as_str().is_empty() {
                Err(Failure::NoReply)
            } else {
                Ok(Reply { line, json })
            }
        },
    }
}

/// A line that the daemon replied with.
#[derive(Debug)]
pub struct Reply {
    pub line: String,
    /// The line without white space around it.
    pub json: String,
}

/// The beginning of `s`, at most `max` characters.
pub open spec fn truncated(s: Seq<char>, max: int) -> Seq<char> {
    if s.len() <= max {
        s
    } else {
        s.take(max)
    }
}

/// The beginning of `s`, at most `max` characters.
pub fn truncate(s: &str, max: usize) -> (out: String)
    ensures
        out@ == truncated(s@, max as int),
{
    let chars = chars_of(s);
    if chars.len() <= max {
        return to_text(s);
    }
    let head = vstd::slice::slice_subrange(chars.as_slice(), 0, max);
    assert(head@ =~= chars@.take(max as int));
    text_of(head)
}

/// What a reply means, whose JSON came to `parsed`.
pub open spec fn means(
    reply: Reply,
    parsed: Result<Response, String>,
    r: Result<Transcription, Failure>,
) -> bool {
    match parsed {
        Err(cause) => r matches Err(failure) && failure matches Failure::InvalidReply {
            shown,
            cause: c,
        } && shown@ == debug_form(truncated(reply.line@, SHOWN_CHARS as int)) && c == cause,
        Ok(response) => match (response.error, response.text) {
            (Some(error), _) => r == Err::<Transcription, Failure>(
                Failure::DaemonError { error },
            ),
            (None, Some(text)) => r == Ok::<Transcription, Failure>(
                Transcription { text, language: response.language },
            ),
            (None, None) => r == Err::<Transcription, Failure>(Failure::EmptyReply),
        },
    }
}

/// The transcription that the daemon's reply holds; `parsed` is what its JSON
/// came to.
pub fn read_reply(reply: &Reply, parsed: Result<Response, String>) -> (r: Result<
    Transcription,
    Failure,
>)
    ensures
        means(*reply, parsed, r),
{
    match parsed {
        Err(cause) => {
            let start = truncate(reply.line.as_str(), SHOWN_CHARS);
            Err(Failure::InvalidReply { shown: quoted(start.as_str()), cause })
        },
        Ok(response) => {
            if let Some(error) = response.error {
                return Err(Failure::DaemonError { error });
            }
            match response.text {
                Some(text) => Ok(Transcription { text, language: response.language }),
                None => Err(Failure::EmptyReply),
            }
        },
    }
}

/// A line that holds something is the daemon's reply, as it came and without the white
/// space around it; every other outcome of an exchange is told of as what it is, and a
/// late one with the time that the daemon had.
pub proof fn a_line_is_the_reply(
    exchange: Exchange,
    answer: Answer,
    json: Result<Reply, Failure>,
)
    requires
        replies(exchange, answer, json),
    ensures
        match answer {
            Answer::Line(line) => if trimmed(line@).len() > 0 {
                json matches Ok(reply) && reply.line@ == line@ && reply.json@ == trimmed(line@)
            } else {
                json matches Err(failure) && failure.told()
                    == "ASR daemon closed the connection without replying"@
            },
            Answer::Late => json matches Err(failure) && failure.told()
                == "ASR daemon did not answer within "@ + decimal(
                (exchange.read_timeout_ms / 1000) as nat,
            ) + "s"@,
            Answer::Unreachable(cause) => json matches Err(failure) && failure.told()
                == "ASR daemon is not reachable on "@ + exchange.socket@ + " ("@ + cause@
                + "); start it with: systemctl --user start textspill-asr.service"@,
            Answer::Unsent(cause) => json matches Err(failure) && failure.told()
                == "failed to send request to ASR daemon: "@ + cause@,
            Answer::Broken(cause) => json matches Err(failure) && failure.told()
                == "failed to read from ASR daemon: "@ + cause@,
        },
{
}

/// What the daemon says is the transcription, word for word, with its language where it
/// gives one, unless it reports an error, which is then the failure. A reply with
/// neither is refused, and so is one that is no JSON, with its beginning shown.
pub proof fn the_reply_is_the_transcription(
    reply: Reply,
    parsed: Result<Response, String>,
    r: Result<Transcription, Failure>,
)
    requires
        means(reply, parsed, r),
    ensures
        match parsed {
            Ok(response) => match response.error {
                Some(error) => r matches Err(failure) && failure.told()
                    == "ASR daemon reported: "@ + error@,
                None => match response.text {
                    Some(text) => r matches Ok(found) && found.text == text && found.language
                        == response.language,
                    None => r matches Err(failure) && failure.told()
                        == "ASR daemon reply had neither `text` nor `error`"@,
                },
            },
            Err(cause) => r matches Err(failure) && failure.told()
                == "ASR daemon sent invalid JSON: "@ + debug_form(
                if reply.line@.len() <= 200 {
                    reply.line@
                } else {
                    reply.line@.take(200)
                },
            ) + ": "@ + cause@,
        },
{
}

/// What is cut short is a beginning of the text: all of it where it is short enough, and
/// else as much as fits.
pub proof fn a_cut_text_is_its_beginning(s: Seq<char>, max: int)
    requires
        0 <= max,
    ensures
        truncated(s, max).is_prefix_of(s),
        truncated(s, max).len() == if s.len() <= max {
            s.len() as int
        } else {
            max
        },
{
}

/// A request goes over the socket as one line: what it says, and the line break behind
/// it, which stands nowhere else where the request holds none.
pub proof fn a_request_is_one_line(body: Seq<u8>)
    ensures
        line_of(body).drop_last() == body,
        line_of(body).last() == 0x0a,
{
    assert(line_of(body).drop_last() =~= body);
}

}
