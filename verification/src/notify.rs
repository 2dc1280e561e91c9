//! Desktop feedback: what a notification says.
//!
//! Notifications are advisory: if the notification daemon is missing or broken,
//! TextSpill still records, transcribes and pastes.

use crate::text::{chars_of, line_break, one_line, text_of, texts, to_text};
use vstd::prelude::*;
use vstd::string::*;

verus! {

/// How much a notification wants attention.
#[derive(Clone, Copy, Debug, PartialEq, Eq, Structural)]
pub enum Urgency {
    Low,
    Normal,
    Critical,
}

impl Urgency {
    /// The word that `notify-send` knows the urgency by.
    pub open spec fn word(self) -> Seq<char> {
        match self {
            Urgency::Low => "low"@,
            Urgency::Normal => "normal"@,
            Urgency::Critical => "critical"@,
        }
    }

    pub fn as_str(self) -> (word: &'static str)
        ensures
            word@ == self.word(),
    {
        match self {
            Urgency::Low => "low",
            Urgency::Normal => "normal",
            Urgency::Critical => "critical",
        }
    }
}

/// One notification.
#[derive(Debug)]
pub struct Notice {
    pub urgency: Urgency,
    pub summary: String,
    pub body: String,
}

impl Notice {
    /// The notice shows `summary` and `body` with this urgency.
    pub open spec fn shows(self, urgency: Urgency, summary: Seq<char>, body: Seq<char>) -> bool {
        self.urgency == urgency && self.summary@ == summary && self.body@ == body
    }

    /// The arguments for `notify-send`.
    pub open spec fn arguments(self) -> Seq<Seq<char>> {
        seq![
            "--app-name"@,
            "TextSpill"@,
            "--urgency"@,
            self.urgency.word(),
            "--expire-time"@,
            "4000"@,
            "--hint"@,
            "string:x-canonical-private-synchronous:textspill"@,
            "--"@,
            self.summary@,
            self.body@,
        ]
    }

    /// The arguments for `notify-send`. `--` keeps a summary that begins with
    /// `-` from being read as a flag; the synchronous hint replaces the previous
    /// notification rather than stacking a new one.
    pub fn args(&self) -> (args: Vec<String>)
        ensures
            texts(args@) == self.arguments(),
    {
        let args = vec![
            to_text("--app-name"),
            to_text("TextSpill"),
            to_text("--urgency"),
            to_text(self.urgency.as_str()),
            to_text("--expire-time"),
            to_text("4000"),
            to_text("--hint"),
            to_text("string:x-canonical-private-synchronous:textspill"),
            to_text("--"),
            self.summary.clone(),
            self.body.clone(),
        ];
        assert(texts(args@) =~= seq![
            "--app-name"@,
            "TextSpill"@,
            "--urgency"@,
            self.urgency.word(),
            "--expire-time"@,
            "4000"@,
            "--hint"@,
            "string:x-canonical-private-synchronous:textspill"@,
            "--"@,
            self.summary@,
            self.body@,
        ]);
        args
    }
}

fn notice(urgency: Urgency, summary: &str, body: &str) -> (notice: Notice)
    ensures
        notice.shows(urgency, summary@, body@),
{
    Notice { urgency, summary: to_text(summary), body: to_text(body) }
}

pub fn recording() -> (notice: Notice)
    ensures
        notice.shows(Urgency::Low, "🎙 Recording"@, ""@),
{
    notice(Urgency::Low, "🎙 Recording", "")
}

pub fn transcribing() -> (notice: Notice)
    ensures
        notice.shows(Urgency::Low, "Transcribing…"@, ""@),
{
    notice(Urgency::Low, "Transcribing…", "")
}

pub fn cancelled() -> (notice: Notice)
    ensures
        notice.shows(Urgency::Low, "Recording cancelled"@, ""@),
{
    notice(Urgency::Low, "Recording cancelled", "")
}

/// What `spilled` shows of a transcript in `language`.
pub open spec fn spilled_summary(language: Option<Seq<char>>, text: Seq<char>) -> Seq<char> {
    match language {
        Some(language) => language + ": "@ + previewed(text),
        None => previewed(text),
    }
}

/// Shown after the text has been pasted.
pub fn spilled(language: Option<&str>, text: &str) -> (notice: Notice)
    ensures
        notice.shows(
            Urgency::Normal,
            spilled_summary(
                match language {
                    Some(language) => Some(language@),
                    None => None,
                },
                text@,
            ),
            ""@,
        ),
{
    let shown = preview(text);
    let summary = match language {
        Some(language) => to_text(language).concat(": ").concat(shown.as_str()),
        None => shown,
    };
    Notice { urgency: Urgency::Normal, summary, body: to_text("") }
}

/// Shown when the clipboard holds the text but the keystroke did not land.
pub fn clipboard_only(reason: &str) -> (notice: Notice)
    ensures
        notice.shows(
            Urgency::Critical,
            "Text is on the clipboard"@,
            "Paste it manually with Shift+Insert — "@ + reason@,
        ),
{
    Notice {
        urgency: Urgency::Critical,
        summary: to_text("Text is on the clipboard"),
        body: to_text("Paste it manually with Shift+Insert — ").concat(reason),
    }
}

/// The notice of a failure shows what is told of it.
pub open spec fn tells_failure(notice: Notice, message: Seq<char>) -> bool {
    notice.shows(Urgency::Critical, "TextSpill failed"@, message)
}

pub fn error(message: &str) -> (notice: Notice)
    ensures
        tells_failure(notice, message@),
{
    notice(Urgency::Critical, "TextSpill failed", message)
}

pub fn info(summary: &str) -> (notice: Notice)
    ensures
        notice.shows(Urgency::Normal, summary@, ""@),
{
    notice(Urgency::Normal, summary, "")
}

/// The most characters of a transcript that a notification shows.
pub const PREVIEW_CHARS: usize = 60;

/// `s` up to its first line break.
pub open spec fn first_line(s: Seq<char>) -> Seq<char>
    decreases s.len(),
{
    if s.len() == 0 || line_break(s[0]) {
        Seq::empty()
    } else {
        seq![s[0]] + first_line(s.drop_first())
    }
}

/// `s` itself where it is short enough for a notification bubble, else its
/// beginning with an ellipsis.
pub open spec fn shortened(s: Seq<char>) -> Seq<char> {
    if s.len() <= PREVIEW_CHARS {
        s
    } else {
        s.take(PREVIEW_CHARS as int).push('…')
    }
}

/// What a notification shows of a transcript.
pub open spec fn previewed(text: Seq<char>) -> Seq<char> {
    shortened(first_line(text))
}

/// Text without line breaks, which every delivered transcript is, is its own
/// first line, so a notification shows all of it up to the limit.
pub proof fn one_line_is_its_first(s: Seq<char>)
    requires
        one_line(s),
    ensures
        first_line(s) == s,
        previewed(s) == shortened(s),
    decreases s.len(),
{
    if s.len() > 0 {
        let rest = s.drop_first();
        assert forall|i: int| 0 <= i < rest.len() implies !line_break(#[trigger] rest[i]) by {
            assert(rest[i] == s[i + 1]);
        }
        one_line_is_its_first(rest);
        assert(!line_break(s[0]));
        assert(seq![s[0]] + rest =~= s);
    } else {
        assert(s =~= Seq::empty());
    }
}

/// First line of a transcript, short enough for a notification bubble.
pub fn preview(text: &str) -> (out: String)
    ensures
        out@ == previewed(text@),
{
    let chars = chars_of(text);
    let mut end: usize = 0;
    assert(chars@.take(0) + first_line(chars@.skip(0)) =~= first_line(chars@)) by {
        assert(chars@.skip(0) =~= chars@);
    }
    while end < chars.len() && chars[end] != '\n' && chars[end] != '\r'
        invariant
            end <= chars@.len(),
            chars@.take(end as int) + first_line(chars@.skip(end as int)) == first_line(chars@),
        decreases chars.len() - end,
    {
        proof {
            let rest = chars@.skip(end as int);
            assert(rest.drop_first() =~= chars@.skip(end + 1));
            assert(chars@.take(end as int) + (seq![rest[0]] + first_line(rest.drop_first()))
                =~= chars@.take(end + 1) + first_line(chars@.skip(end + 1)));
        }
        end = end + 1;
    }
    assert(first_line(chars@) =~= chars@.take(end as int));
    if end <= PREVIEW_CHARS {
        let line = vstd::slice::slice_subrange(chars.as_slice(), 0, end);
        assert(line@ =~= chars@.take(end as int));
        text_of(line)
    } else {
        let line = vstd::slice::slice_subrange(chars.as_slice(), 0, PREVIEW_CHARS);
        assert(line@ =~= chars@.take(end as int).take(PREVIEW_CHARS as int));
        let mut out = text_of(line);
        out.push('…');
        out
    }
}

proof fn lemma_first_line(s: Seq<char>)
    ensures
        first_line(s).len() <= s.len(),
        first_line(s) == s.take(first_line(s).len() as int),
        one_line(first_line(s)),
        first_line(s).len() < s.len() ==> line_break(s[first_line(s).len() as int]),
    decreases s.len(),
{
    if s.len() > 0 && !line_break(s[0]) {
        let rest = s.drop_first();
        lemma_first_line(rest);
        let line = first_line(s);
        assert(line =~= s.take(line.len() as int));
        assert forall|i: int| 0 <= i < line.len() implies !line_break(#[trigger] line[i]) by {
            if i > 0 {
                assert(line[i] == first_line(rest)[i - 1]);
            }
        }
        if line.len() < s.len() {
            assert(s[line.len() as int] == rest[first_line(rest).len() as int]);
        }
    } else {
        assert(first_line(s) =~= s.take(0));
    }
}

/// A notification shows the first line of a transcript: all of it, where it has at most
/// sixty characters, and else its first sixty and an ellipsis. `end` is where the first
/// line ends.
pub proof fn a_notification_shows_the_first_line(text: Seq<char>, end: int)
    requires
        0 <= end <= text.len(),
        forall|i: int| 0 <= i < end ==> #[trigger] text[i] != '\n' && text[i] != '\r',
        end < text.len() ==> text[end] == '\n' || text[end] == '\r',
    ensures
        end <= 60 ==> previewed(text) == text.take(end),
        end > 60 ==> previewed(text) == text.take(60).push('…'),
{
    lemma_first_line(text);
    let n = first_line(text).len() as int;
    if n < end {
        assert(line_break(text[n]));
    }
    if end < n {
        assert(!line_break(first_line(text)[end]));
        assert(first_line(text)[end] == text[end]);
    }
    assert(n == end);
    if end > 60 {
        assert(text.take(end).take(60) =~= text.take(60));
    }
}

/// What was spilled is shown with its language before it, where that is known, and else
/// as it is.
pub proof fn a_spilled_text_is_shown_with_its_language(language: Seq<char>, text: Seq<char>)
    ensures
        spilled_summary(None, text) == previewed(text),
        spilled_summary(Some(language), text).take(language.len() as int) == language,
        spilled_summary(Some(language), text).skip(language.len() as int) == ": "@ + previewed(
            text,
        ),
{
    let shown = spilled_summary(Some(language), text);
    assert(shown.take(language.len() as int) =~= language);
    assert(shown.skip(language.len() as int) =~= ": "@ + previewed(text));
}

/// What `notify-send` is told ends with the summary and the body as they are, behind
/// `--`, so neither is read as a flag, and names the urgency.
pub proof fn a_notice_is_shown_as_it_is(notice: Notice)
    ensures
        ({
            let args = notice.arguments();
            let n = args.len() as int;
            &&& n == 11
            &&& args[n - 1] == notice.body@
            &&& args[n - 2] == notice.summary@
            &&& args[n - 3] == "--"@
            &&& args[2] == "--urgency"@
            &&& args[3] == match notice.urgency {
                Urgency::Low => "low"@,
                Urgency::Normal => "normal"@,
                Urgency::Critical => "critical"@,
            }
        }),
{
}

/// A failure is shown as one, with all that is told of it, and wants the most attention.
pub proof fn a_failure_is_shown_in_full(notice: Notice, message: Seq<char>)
    requires
        tells_failure(notice, message),
    ensures
        notice.urgency == Urgency::Critical,
        notice.summary@ == "TextSpill failed"@,
        notice.body@ == message,
{
}

}
