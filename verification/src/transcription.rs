//! Backend-neutral final transcription.

use crate::config::{Backend, Config};
use crate::ipc;
use crate::paths::Paths;
use crate::text::maybe;
use vstd::prelude::*;

verus! {

/// A successful transcription.
#[derive(Debug)]
pub struct Transcription {
    pub text: String,
    pub language: Option<String>,
}

impl Transcription {
    /// It says `text`, in `language` where that is known.
    pub open spec fn says(self, text: Seq<char>, language: Option<Seq<char>>) -> bool {
        self.text@ == text && maybe(self.language) == language
    }
}

/// Who is asked for a transcription.
pub enum Service {
    /// The local daemon, in this exchange.
    Local(ipc::Exchange),
    /// Deepgram, with the settings at hand.
    Deepgram,
}

/// How long the local daemon gets for a whole recording.
pub const READ_TIMEOUT_MS: u64 = 120000;

/// Whom to ask for the transcription of `wav`.
pub fn transcribe(paths: &Paths, config: &Config, wav: &str) -> (service: Service)
    ensures
        match service {
            Service::Local(exchange) => {
                &&& config.backend == Backend::Local
                &&& exchange.asks(
                    crate::paths::path_in(paths@, "asr.sock"@),
                    wav@,
                    READ_TIMEOUT_MS,
                    false,
                )
            },
            Service::Deepgram => config.backend == Backend::Deepgram,
        },
{
    match config.backend {
        Backend::Local => Service::Local(
            ipc::transcribe(paths.asr_socket().as_str(), wav, READ_TIMEOUT_MS),
        ),
        Backend::Deepgram => Service::Deepgram,
    }
}

}
