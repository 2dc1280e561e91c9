//! Wayland clipboard, via `wl-copy` and `wl-paste`.
//!
//! Text is handed over on stdin, never as an argument: transcriptions are
//! user-controlled data and must not become part of a command line.

use crate::failure::Failure;
use crate::text::{texts, to_text};
use vstd::prelude::*;
use vstd::string::*;
use vstd::utf8::encode_utf8;

verus! {

/// How long the compositor gets to publish the new selection.
pub const SETTLE_TIMEOUT_MS: u64 = 500;

/// How long to wait between two looks at the clipboard.
pub const SETTLE_POLL_MS: u64 = 15;

/// The arguments for `wl-copy`. A trailing newline in the clipboard would press
/// Enter when pasted into a shell.
pub fn copy_args() -> (args: Vec<String>)
    ensures
        texts(args@) == seq!["--trim-newline"@],
{
    let args = vec![to_text("--trim-newline")];
    assert(texts(args@) =~= seq!["--trim-newline"@]);
    args
}

/// The arguments for `wl-paste`.
pub fn read_back_args() -> (args: Vec<String>)
    ensures
        texts(args@) == seq!["--no-newline"@],
{
    let args = vec![to_text("--no-newline")];
    assert(texts(args@) =~= seq!["--no-newline"@]);
    args
}

/// What the exit of `wl-copy` comes to.
pub open spec fn copied(success: bool, status: String, r: Result<(), Failure>) -> bool {
    r == if success {
        Ok(())
    } else {
        Err(Failure::CopyFailed { status })
    }
}

/// Judges how `wl-copy` exited; `status` is how it is told to the user.
pub fn copy(success: bool, status: String) -> (r: Result<(), Failure>)
    ensures
        copied(success, status, r),
{
    if success {
        Ok(())
    } else {
        Err(Failure::CopyFailed { status })
    }
}

/// What to do after a look at the clipboard.
pub enum Settle {
    /// The clipboard holds the text.
    Ready,
    /// Look again after `SETTLE_POLL_MS`.
    Again,
    Refuse(Failure),
}

/// What `wl-paste` printed, when it succeeded, is `expected`.
pub open spec fn holds(printed: Option<Seq<u8>>, expected: Seq<char>) -> bool {
    printed == Some(encode_utf8(expected))
}

fn is_text(bytes: &[u8], text: &str) -> (r: bool)
    ensures
        r == (bytes@ == encode_utf8(text@)),
{
    let expected = text.as_bytes();
    if bytes.len() != expected.len() {
        return false;
    }
    for i in 0..bytes.len()
        invariant
            bytes@.len() == expected@.len(),
            expected@ == encode_utf8(text@),
            forall|j: int| 0 <= j < i ==> bytes@[j] == expected@[j],
    {
        if bytes[i] != expected[i] {
            return false;
        }
    }
    assert(bytes@ =~= expected@);
    true
}

/// What a look at the clipboard comes to, `waited_ms` after copying.
pub open spec fn settles(
    printed: Option<Seq<u8>>,
    expected: Seq<char>,
    waited_ms: u64,
    step: Settle,
) -> bool {
    if holds(printed, expected) {
        step is Ready
    } else if waited_ms >= SETTLE_TIMEOUT_MS {
        step == Settle::Refuse(Failure::ClipboardNotReady)
    } else {
        step is Again
    }
}

/// Waits until the text can be read back: decides after a look, `waited_ms`
/// after copying.
///
/// `wl-copy` forks into the background before the selection is actually offered
/// to the compositor, so its exit status alone does not mean the clipboard is
/// ready. Polling `wl-paste` turns a guessed sleep into a measured fact, which
/// is what keeps the subsequent paste keystroke from landing too early.
pub fn wait_until_readable(printed: Option<&[u8]>, expected: &str, waited_ms: u64) -> (step: Settle)
    ensures
        settles(
            match printed {
                Some(bytes) => Some(bytes@),
                None => None,
            },
            expected@,
            waited_ms,
            step,
        ),
{
    if let Some(bytes) = printed {
        if is_text(bytes, expected) {
            return Settle::Ready;
        }
    }
    if waited_ms >= SETTLE_TIMEOUT_MS {
        return Settle::Refuse(Failure::ClipboardNotReady);
    }
    Settle::Again
}

/// A copy is well exactly where `wl-copy` succeeded; else its exit is told.
pub proof fn a_copy_is_judged_by_its_exit(success: bool, status: String, r: Result<(), Failure>)
    requires
        copied(success, status, r),
    ensures
        r is Ok <==> success,
        r matches Err(failure) ==> failure.told() == "wl-copy exited with "@ + status@,
{
}

/// The clipboard is ready exactly where a look shows the very text that was copied, also
/// after the time is over. Until half a second has passed, any other look is followed by
/// another one; then the copy is refused.
pub proof fn the_clipboard_is_ready_when_it_shows_the_text(
    printed: Option<Seq<u8>>,
    expected: Seq<char>,
    waited_ms: u64,
    step: Settle,
)
    requires
        settles(printed, expected, waited_ms, step),
    ensures
        step is Ready <==> printed is Some && printed->0 == encode_utf8(expected),
        step is Again <==> !(step is Ready) && waited_ms < 500,
        step matches Settle::Refuse(failure) ==> failure.told()
            == "clipboard did not contain the transcription after copying"@,
{
}

/// Text that was copied is never taken for another: a look that shows one text as ready
/// shows it as ready for no other.
pub proof fn a_ready_clipboard_holds_one_text(printed: Seq<u8>, a: Seq<char>, b: Seq<char>)
    requires
        holds(Some(printed), a),
        holds(Some(printed), b),
    ensures
        a == b,
{
    vstd::utf8::encode_utf8_decode_utf8(a);
    vstd::utf8::encode_utf8_decode_utf8(b);
}

}
