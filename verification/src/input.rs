//! Synthesising the paste keystroke into whatever window has focus.
//!
//! Shift+Insert is the default. The Chatgpt desktop window uses Ctrl+V;
//! its Shift+Insert shortcut opens an unrelated dialog.
//!
//! It never sends Enter. That is the whole point of the tool: the text lands in
//! the shell, and the human decides whether to run it.

use crate::failure::Failure;
use crate::json::{json_field, text_field};
use crate::number::decimal;
use crate::text::{debug_form, quoted, same_text, texts, to_text, trim, trimmed};
use vstd::prelude::*;
use vstd::string::*;

verus! {

broadcast use vstd::string::group_string_axioms;

/// The paste shortcut of a window.
#[derive(Clone, Copy, Debug, PartialEq, Eq, Structural)]
pub enum Shortcut {
    ShiftInsert,
    CtrlV,
}

/// The shortcut for a window of `class`.
pub open spec fn shortcut_of(class: Option<Seq<char>>) -> Shortcut {
    if class == Some("Chatgpt"@) {
        Shortcut::CtrlV
    } else {
        Shortcut::ShiftInsert
    }
}

/// The shortcut for a window, by the class that it is reported with.
pub fn shortcut_for_window(class: Option<&str>) -> (shortcut: Shortcut)
    ensures
        shortcut == shortcut_of(
            match class {
                Some(class) => Some(class@),
                None => None,
            },
        ),
{
    match class {
        Some(class) => if same_text(class, "Chatgpt") {
            Shortcut::CtrlV
        } else {
            Shortcut::ShiftInsert
        },
        None => Shortcut::ShiftInsert,
    }
}

/// How long the compositor gets to say which window has focus.
pub const QUERY_TIMEOUT_MS: u64 = 500;

/// How long to wait between two looks whether it has.
pub const QUERY_POLL_MS: u64 = 5;

/// What became of the query so far.
pub enum Query {
    Exited,
    Running,
    Lost,
}

/// What to do about it.
#[derive(Clone, Copy, Debug, PartialEq, Eq, Structural)]
pub enum QueryStep {
    /// Read what it printed.
    Read,
    /// Look again after `QUERY_POLL_MS`.
    Wait,
    /// Kill it, and do without.
    Abandon,
}

/// What to do about a query, `waited_ms` after it was made.
pub open spec fn query_step(query: Query, waited_ms: u64) -> QueryStep {
    match query {
        Query::Exited => QueryStep::Read,
        Query::Running => if waited_ms < QUERY_TIMEOUT_MS {
            QueryStep::Wait
        } else {
            QueryStep::Abandon
        },
        Query::Lost => QueryStep::Abandon,
    }
}

/// Bounds the query so a stuck compositor cannot stall dictation indefinitely.
pub fn await_query(query: Query, waited_ms: u64) -> (step: QueryStep)
    ensures
        step == query_step(query, waited_ms),
{
    match query {
        Query::Exited => QueryStep::Read,
        Query::Running => if waited_ms < QUERY_TIMEOUT_MS {
            QueryStep::Wait
        } else {
            QueryStep::Abandon
        },
        Query::Lost => QueryStep::Abandon,
    }
}

/// The shortcut that a description of the focused window asks for; the default
/// where there is no description, or one that is no JSON.
pub open spec fn shortcut_from(window: Option<Result<Option<Seq<char>>, Seq<char>>>) -> Shortcut {
    match window {
        Some(Ok(class)) => shortcut_of(class),
        _ => Shortcut::ShiftInsert,
    }
}

/// The shortcut of the focused window, which the compositor describes as the
/// JSON `window`. Other compositors retain the default.
pub fn focused_shortcut(window: Option<&[u8]>) -> (shortcut: Shortcut)
    ensures
        shortcut == shortcut_from(
            match window {
                Some(window) => Some(json_field(window@, "class"@)),
                None => None,
            },
        ),
{
    match window {
        Some(window) => match text_field(window, "class") {
            Ok(Some(class)) => shortcut_for_window(Some(class.as_str())),
            Ok(None) => shortcut_for_window(None),
            Err(_) => Shortcut::ShiftInsert,
        },
        None => Shortcut::ShiftInsert,
    }
}

/// Which tool produced the keystroke, for logging and for the notification.
#[derive(Clone, Copy, Debug, PartialEq, Eq, Structural)]
pub enum Backend {
    /// `ydotool`, via `/dev/uinput`. Works in XWayland windows too.
    Ydotool,
    /// `wtype`, via the wlroots virtual-keyboard protocol. No root/uinput
    /// setup, but invisible to XWayland clients.
    Wtype,
}

impl Backend {
    /// The program that it runs.
    pub open spec fn program(self) -> Seq<char> {
        match self {
            Backend::Ydotool => "ydotool"@,
            Backend::Wtype => "wtype"@,
        }
    }

    /// The arguments that make it press `shortcut`. `ydotool` takes Linux input
    /// event codes: KEY_LEFTSHIFT=42, KEY_INSERT=110, KEY_LEFTCTRL=29,
    /// KEY_V=47; `<code>:1` presses, `<code>:0` releases.
    pub open spec fn arguments(self, shortcut: Shortcut) -> Seq<Seq<char>> {
        match (self, shortcut) {
            (Backend::Ydotool, Shortcut::ShiftInsert) => seq![
                "key"@,
                "42:1"@,
                "110:1"@,
                "110:0"@,
                "42:0"@,
            ],
            (Backend::Ydotool, Shortcut::CtrlV) => seq!["key"@, "29:1"@, "47:1"@, "47:0"@, "29:0"@],
            (Backend::Wtype, Shortcut::ShiftInsert) => seq![
                "-M"@,
                "shift"@,
                "-k"@,
                "Insert"@,
                "-m"@,
                "shift"@,
            ],
            (Backend::Wtype, Shortcut::CtrlV) => seq!["-M"@, "ctrl"@, "-k"@, "v"@, "-m"@, "ctrl"@],
        }
    }

    pub fn command(self, shortcut: Shortcut) -> (args: Vec<String>)
        ensures
            texts(args@) == self.arguments(shortcut),
    {
        let args = match (self, shortcut) {
            (Backend::Ydotool, Shortcut::ShiftInsert) => vec![
                to_text("key"),
                to_text("42:1"),
                to_text("110:1"),
                to_text("110:0"),
                to_text("42:0"),
            ],
            (Backend::Ydotool, Shortcut::CtrlV) => vec![
                to_text("key"),
                to_text("29:1"),
                to_text("47:1"),
                to_text("47:0"),
                to_text("29:0"),
            ],
            (Backend::Wtype, Shortcut::ShiftInsert) => vec![
                to_text("-M"),
                to_text("shift"),
                to_text("-k"),
                to_text("Insert"),
                to_text("-m"),
                to_text("shift"),
            ],
            (Backend::Wtype, Shortcut::CtrlV) => vec![
                to_text("-M"),
                to_text("ctrl"),
                to_text("-k"),
                to_text("v"),
                to_text("-m"),
                to_text("ctrl"),
            ],
        };
        assert(texts(args@) =~= self.arguments(shortcut));
        args
    }

    pub fn name(self) -> (name: &'static str)
        ensures
            name@ == self.program(),
    {
        match self {
            Backend::Ydotool => "ydotool",
            Backend::Wtype => "wtype",
        }
    }
}

/// A key going down or up, by its Linux input event code.
pub struct Stroke {
    pub code: nat,
    pub down: bool,
}

/// The strokes that a shortcut is made of: the modifier around the key.
pub open spec fn strokes(shortcut: Shortcut) -> Seq<Stroke> {
    let (modifier, key): (nat, nat) = match shortcut {
        Shortcut::ShiftInsert => (42, 110),
        Shortcut::CtrlV => (29, 47),
    };
    seq![
        Stroke { code: modifier, down: true },
        Stroke { code: key, down: true },
        Stroke { code: key, down: false },
        Stroke { code: modifier, down: false },
    ]
}

/// How `ydotool` is told of a stroke.
pub open spec fn stroke_argument(stroke: Stroke) -> Seq<char> {
    decimal(stroke.code).push(':').push(
        if stroke.down {
            '1'
        } else {
            '0'
        },
    )
}

/// `ydotool` is told exactly the strokes of the shortcut.
pub proof fn ydotool_presses_the_strokes(shortcut: Shortcut)
    ensures
        Backend::Ydotool.arguments(shortcut) == seq!["key"@] + strokes(shortcut).map_values(
            |stroke: Stroke| stroke_argument(stroke),
        ),
{
    reveal_with_fuel(decimal, 4);
    reveal_strlit("42:1");
    reveal_strlit("42:0");
    reveal_strlit("110:1");
    reveal_strlit("110:0");
    reveal_strlit("29:1");
    reveal_strlit("29:0");
    reveal_strlit("47:1");
    reveal_strlit("47:0");
    let told = seq!["key"@] + strokes(shortcut).map_values(
        |stroke: Stroke| stroke_argument(stroke),
    );
    assert(decimal(42) =~= seq!['4', '2']);
    assert(decimal(110) =~= seq!['1', '1', '0']);
    assert(decimal(29) =~= seq!['2', '9']);
    assert(decimal(47) =~= seq!['4', '7']);
    assert(told[1] =~= Backend::Ydotool.arguments(shortcut)[1]);
    assert(told[2] =~= Backend::Ydotool.arguments(shortcut)[2]);
    assert(told[3] =~= Backend::Ydotool.arguments(shortcut)[3]);
    assert(told[4] =~= Backend::Ydotool.arguments(shortcut)[4]);
    assert(told =~= Backend::Ydotool.arguments(shortcut));
}

/// TextSpill never presses Enter: among the strokes of a shortcut is neither
/// KEY_ENTER (28) nor KEY_KPENTER (96), and the key that `wtype` is told to
/// press is neither `Return` nor `KP_Enter`.
pub proof fn paste_never_presses_enter(shortcut: Shortcut)
    ensures
        forall|i: int|
            0 <= i < strokes(shortcut).len() ==> (#[trigger] strokes(shortcut)[i]).code != 28
                && strokes(shortcut)[i].code != 96,
        forall|i: int|
            0 <= i < Backend::Wtype.arguments(shortcut).len() ==> (
            #[trigger] Backend::Wtype.arguments(shortcut)[i]) != "Return"@
                && Backend::Wtype.arguments(shortcut)[i] != "KP_Enter"@,
{
    reveal_strlit("Return");
    reveal_strlit("KP_Enter");
    reveal_strlit("-M");
    reveal_strlit("-m");
    reveal_strlit("-k");
    reveal_strlit("shift");
    reveal_strlit("ctrl");
    reveal_strlit("Insert");
    reveal_strlit("v");
    assert("Insert"@[0] == 'I' && "Return"@[0] == 'R');
    assert("Return"@.len() == 6 && "KP_Enter"@.len() == 8 && "Insert"@.len() == 6);
    assert("-M"@.len() == 2 && "-m"@.len() == 2 && "-k"@.len() == 2 && "v"@.len() == 1);
    assert("shift"@.len() == 5 && "ctrl"@.len() == 4);
}

/// Every key that a shortcut presses it also releases, the last pressed first.
pub proof fn paste_releases_what_it_presses(shortcut: Shortcut, i: int)
    requires
        0 <= i < 2,
    ensures
        strokes(shortcut).len() == 4,
        strokes(shortcut)[i].down,
        !strokes(shortcut)[3 - i].down,
        strokes(shortcut)[i].code == strokes(shortcut)[3 - i].code,
{
}

/// What `TEXTSPILL_PASTE_BACKEND` selects, in order; `None` where it names
/// nothing known. `ydotool` comes first because it reaches XWayland.
pub open spec fn backends_for(setting: Option<Seq<char>>) -> Option<Seq<Backend>> {
    match setting {
        None => Some(seq![Backend::Ydotool, Backend::Wtype]),
        Some(word) => if word == ""@ || word == "auto"@ {
            Some(seq![Backend::Ydotool, Backend::Wtype])
        } else if word == "ydotool"@ {
            Some(seq![Backend::Ydotool])
        } else if word == "wtype"@ {
            Some(seq![Backend::Wtype])
        } else if word == "none"@ {
            Some(Seq::empty())
        } else {
            None
        },
    }
}

/// The backends to try, in order.
pub fn selected_backends(setting: Option<&str>) -> (backends: Result<Vec<Backend>, Failure>)
    ensures
        ({
            let word = match setting {
                Some(word) => Some(word@),
                None => None,
            };
            match backends {
                Ok(backends) => backends_for(word) == Some(backends@),
                Err(failure) => backends_for(word) is None && (failure matches
                    Failure::UnknownPasteBackend { shown } && shown@ == debug_form(word->0)),
            }
        }),
{
    match setting {
        None => Ok(vec![Backend::Ydotool, Backend::Wtype]),
        Some(word) => if same_text(word, "") || same_text(word, "auto") {
            Ok(vec![Backend::Ydotool, Backend::Wtype])
        } else if same_text(word, "ydotool") {
            Ok(vec![Backend::Ydotool])
        } else if same_text(word, "wtype") {
            Ok(vec![Backend::Wtype])
        } else if same_text(word, "none") {
            let none: Vec<Backend> = Vec::new();
            Ok(none)
        } else {
            Err(Failure::UnknownPasteBackend { shown: quoted(word) })
        },
    }
}

/// How one backend fared.
pub open spec fn fared(
    success: bool,
    status: Seq<char>,
    errors: Seq<char>,
    r: Result<(), String>,
) -> bool {
    match r {
        Ok(()) => success,
        Err(reason) => {
            &&& !success
            &&& reason@ == if trimmed(errors).len() == 0 {
                "exited with "@ + status
            } else {
                trimmed(errors)
            }
        },
    }
}

/// How one backend fared: `status` is how its exit is told, `errors` what it
/// wrote to stderr.
pub fn run(success: bool, status: &str, errors: &str) -> (r: Result<(), String>)
    ensures
        fared(success, status@, errors@, r),
{
    if success {
        return Ok(());
    }
    let message = trim(errors);
    if message.as_str().is_empty() {
        Err(to_text("exited with ").concat(status))
    } else {
        Err(message)
    }
}

/// Pasting under way: the backends to try, and why those tried so far failed.
pub struct Paste {
    pub backends: Vec<Backend>,
    pub failures: Vec<String>,
}

/// What pasting does next.
pub enum PasteStep {
    /// Nothing: the text stays on the clipboard only.
    Disabled,
    /// Try this backend.
    Try(Backend),
    /// The keystroke was sent.
    Sent(Backend),
    Refused(Failure),
}

/// How a failure of `backend` is told.
pub open spec fn blame(backend: Backend, reason: Seq<char>) -> Seq<char> {
    backend.program() + ": "@ + reason
}

/// How pasting goes on after the backend that was tried fared so.
pub open spec fn attempts(
    paste: Paste,
    outcome: Result<(), String>,
    out: (Paste, PasteStep),
) -> bool {
    let (next, step) = out;
    &&& next.backends == paste.backends
    &&& match outcome {
        Ok(()) => next == paste && step == PasteStep::Sent(paste.trying()),
        Err(reason) => {
            let failures = texts(paste.failures@).push(blame(paste.trying(), reason@));
            if failures.len() < paste.backends@.len() {
                &&& next.well_formed()
                &&& texts(next.failures@) == failures
                &&& step == PasteStep::Try(next.trying())
            } else {
                &&& next.failures@.len() == 0
                &&& step matches PasteStep::Refused(failure) && failure matches
                    Failure::NoPasteBackend { failures: f } && texts(f@) == failures
            }
        },
    }
}

impl Paste {
    /// A backend is being tried.
    pub open spec fn well_formed(self) -> bool {
        self.failures@.len() < self.backends@.len()
    }

    /// The backend that is being tried.
    pub open spec fn trying(self) -> Backend {
        self.backends@[self.failures@.len() as int]
    }

    /// Goes on after the backend that was tried fared so.
    pub fn attempted(self, outcome: Result<(), String>) -> (out: (Paste, PasteStep))
        requires
            self.well_formed(),
        ensures
            attempts(self, outcome, out),
    {
        let backend = self.backends[self.failures.len()];
        match outcome {
            Ok(()) => (self, PasteStep::Sent(backend)),
            Err(reason) => {
                let mut next = self;
                let told = to_text(backend.name()).concat(": ").concat(reason.as_str());
                let ghost before = next.failures@;
                next.failures.push(told);
                assert(texts(next.failures@) =~= texts(before).push(blame(backend, reason@)));
                if next.failures.len() < next.backends.len() {
                    let step = PasteStep::Try(next.backends[next.failures.len()]);
                    (next, step)
                } else {
                    let none: Vec<String> = Vec::new();
                    let step = PasteStep::Refused(
                        Failure::NoPasteBackend { failures: next.failures },
                    );
                    (Paste { backends: next.backends, failures: none }, step)
                }
            },
        }
    }
}

/// How pasting with `setting` begins.
pub open spec fn begins_paste(
    setting: Option<Seq<char>>,
    out: Result<(Paste, PasteStep), Failure>,
) -> bool {
    match out {
        Ok((paste, step)) => {
            &&& backends_for(setting) == Some(paste.backends@)
            &&& paste.failures@.len() == 0
            &&& if paste.backends@.len() == 0 {
                step is Disabled
            } else {
                paste.well_formed() && step == PasteStep::Try(paste.trying())
            }
        },
        Err(failure) => backends_for(setting) is None && (failure matches
            Failure::UnknownPasteBackend { shown } && shown@ == debug_form(setting->0)),
    }
}

/// Sends the app's paste shortcut to the focused window: the first step.
///
/// `setting` is `TEXTSPILL_PASTE_BACKEND`: `ydotool`, `wtype` or `none` override
/// the automatic choice; `none` leaves the text on the clipboard only.
pub fn paste(setting: Option<&str>) -> (out: Result<(Paste, PasteStep), Failure>)
    ensures
        begins_paste(
            match setting {
                Some(word) => Some(word@),
                None => None,
            },
            out,
        ),
{
    match selected_backends(setting) {
        Err(failure) => Err(failure),
        Ok(backends) => {
            let failures: Vec<String> = Vec::new();
            let step = if backends.len() == 0 {
                PasteStep::Disabled
            } else {
                PasteStep::Try(backends[0])
            };
            Ok((Paste { backends, failures }, step))
        },
    }
}

/// Only a window that is reported as Chatgpt's gets Ctrl+V; every other window, and
/// every description without a class or without sense, gets Shift+Insert.
pub proof fn only_chatgpt_gets_ctrl_v(window: Option<Result<Option<Seq<char>>, Seq<char>>>)
    ensures
        shortcut_from(window) == Shortcut::CtrlV <==> window == Some(
            Ok::<Option<Seq<char>>, Seq<char>>(Some("Chatgpt"@)),
        ),
{
}

/// A query that has exited is read, whenever that was; one that runs is waited for until
/// half a second has passed, and then done without, as one that is lost.
pub proof fn a_query_is_waited_for_briefly(query: Query, waited_ms: u64)
    ensures
        query_step(query, waited_ms) == QueryStep::Read <==> query is Exited,
        query_step(query, waited_ms) == QueryStep::Wait <==> query is Running && waited_ms < 500,
{
}

/// The setting selects exactly the backends that it names; both, `ydotool` first, where
/// it names none in particular; none of them for `none`; and any other word is refused.
pub proof fn the_setting_selects_the_backends(setting: Option<Seq<char>>)
    ensures
        setting is None || setting == Some(""@) || setting == Some("auto"@) ==> backends_for(
            setting,
        ) == Some(seq![Backend::Ydotool, Backend::Wtype]),
        setting == Some("ydotool"@) ==> backends_for(setting) == Some(seq![Backend::Ydotool]),
        setting == Some("wtype"@) ==> backends_for(setting) == Some(seq![Backend::Wtype]),
        setting == Some("none"@) ==> (backends_for(setting) matches Some(found) && found.len()
            == 0),
        backends_for(setting) is None <==> setting is Some && setting != Some(""@) && setting
            != Some("auto"@) && setting != Some("ydotool"@) && setting != Some("wtype"@) && setting
            != Some("none"@),
{
    reveal_strlit("");
    reveal_strlit("auto");
    reveal_strlit("ydotool");
    reveal_strlit("wtype");
    reveal_strlit("none");
    assert(""@.len() == 0 && "auto"@.len() == 4 && "ydotool"@.len() == 7);
    assert("wtype"@.len() == 5 && "none"@.len() == 4);
    assert("auto"@[0] == 'a' && "none"@[0] == 'n');
}

/// A backend fared well exactly where it succeeded; else the reason is all that it wrote,
/// but for white space around it, or how it exited where it wrote nothing.
pub proof fn a_backend_is_judged_by_its_exit(
    success: bool,
    status: Seq<char>,
    errors: Seq<char>,
    r: Result<(), String>,
)
    requires
        fared(success, status, errors, r),
    ensures
        r is Ok <==> success,
        r matches Err(reason) && trimmed(errors).len() > 0 ==> r->Err_0@ == trimmed(errors),
        r is Err && trimmed(errors).len() == 0 ==> r->Err_0@ == "exited with "@ + status,
{
}

/// A run of pasting: `pastes[0]` begins, and `outcomes[i]`, of the backend that was tried
/// then, leads to `pastes[i + 1]` and `steps[i + 1]`.
pub open spec fn paste_run(
    setting: Option<Seq<char>>,
    pastes: Seq<Paste>,
    steps: Seq<PasteStep>,
    outcomes: Seq<Result<(), String>>,
) -> bool {
    &&& pastes.len() == outcomes.len() + 1
    &&& steps.len() == pastes.len()
    &&& begins_paste(setting, Ok((pastes[0], steps[0])))
    &&& forall|i: int|
        0 <= i < outcomes.len() ==> pastes[i].well_formed() && attempts(
            pastes[i],
            #[trigger] outcomes[i],
            (pastes[i + 1], steps[i + 1]),
        )
}

/// Pasting tries the selected backends in their order until one has sent the keystroke,
/// and never another one after that; where all of them failed, the user is told why each
/// of them did, in that order. With no backend selected it is disabled.
pub proof fn backends_are_tried_in_order(
    setting: Option<Seq<char>>,
    pastes: Seq<Paste>,
    steps: Seq<PasteStep>,
    outcomes: Seq<Result<(), String>>,
    i: int,
)
    requires
        paste_run(setting, pastes, steps, outcomes),
        0 <= i <= outcomes.len(),
        forall|k: int| 0 <= k < i ==> #[trigger] outcomes[k] is Err,
        backends_for(setting) matches Some(selected) && i <= selected.len(),
    ensures
        ({
            let selected = backends_for(setting)->0;
            let n = selected.len() as int;
            if i < n {
                &&& steps[i] == PasteStep::Try(selected[i])
                &&& i < outcomes.len() && outcomes[i] is Ok ==> steps[i + 1] == PasteStep::Sent(
                    selected[i],
                )
            } else if n == 0 {
                steps[i] is Disabled
            } else {
                &&& steps[i] matches PasteStep::Refused(failure)
                &&& failure matches Failure::NoPasteBackend { failures }
                &&& failures@.len() == n
                &&& forall|k: int|
                    0 <= k < n ==> #[trigger] texts(failures@)[k] == selected[k].program() + ": "@
                        + outcomes[k]->Err_0@
            }
        }),
{
    let selected = backends_for(setting)->0;
    if i > 0 {
        lemma_tried(setting, pastes, steps, outcomes, i - 1);
        assert(attempts(pastes[i - 1], outcomes[i - 1], (pastes[i], steps[i])));
        if i < selected.len() {
            lemma_tried(setting, pastes, steps, outcomes, i);
        } else {
            let failures = steps[i]->Refused_0->NoPasteBackend_failures;
            let before = texts(pastes[i - 1].failures@);
            assert(texts(failures@) == before.push(
                blame(selected[i - 1], outcomes[i - 1]->Err_0@),
            ));
            assert(texts(failures@).len() == failures@.len());
            assert forall|k: int| 0 <= k < selected.len() implies #[trigger] texts(failures@)[k]
                == selected[k].program() + ": "@ + outcomes[k]->Err_0@ by {
                if k < i - 1 {
                    assert(texts(failures@)[k] == before[k]);
                }
            }
        }
    }
    if i < selected.len() {
        lemma_tried(setting, pastes, steps, outcomes, i);
        if i < outcomes.len() {
            assert(attempts(pastes[i], outcomes[i], (pastes[i + 1], steps[i + 1])));
        }
    }
}

proof fn lemma_tried(
    setting: Option<Seq<char>>,
    pastes: Seq<Paste>,
    steps: Seq<PasteStep>,
    outcomes: Seq<Result<(), String>>,
    i: int,
)
    requires
        paste_run(setting, pastes, steps, outcomes),
        0 <= i <= outcomes.len(),
        forall|k: int| 0 <= k < i ==> #[trigger] outcomes[k] is Err,
        backends_for(setting) matches Some(selected) && i < selected.len(),
    ensures
        pastes[i].backends@ == backends_for(setting)->0,
        pastes[i].failures@.len() == i,
        texts(pastes[i].failures@).len() == i,
        steps[i] == PasteStep::Try(backends_for(setting)->0[i]),
        forall|k: int|
            0 <= k < i ==> #[trigger] texts(pastes[i].failures@)[k]
                == backends_for(setting)->0[k].program() + ": "@ + outcomes[k]->Err_0@,
    decreases i,
{
    let selected = backends_for(setting)->0;
    if i > 0 {
        lemma_tried(setting, pastes, steps, outcomes, i - 1);
        assert(attempts(pastes[i - 1], outcomes[i - 1], (pastes[i], steps[i])));
        let before = texts(pastes[i - 1].failures@);
        let after = texts(pastes[i].failures@);
        assert(after == before.push(blame(selected[i - 1], outcomes[i - 1]->Err_0@)));
        assert(after.len() == pastes[i].failures@.len());
        assert forall|k: int| 0 <= k < i implies #[trigger] after[k] == selected[k].program()
            + ": "@ + outcomes[k]->Err_0@ by {
            if k < i - 1 {
                assert(after[k] == before[k]);
            }
        }
    }
}

/// A setting that selects nothing known is refused, with the setting shown; every other
/// begins to paste.
pub proof fn an_unknown_setting_is_refused(
    setting: Option<Seq<char>>,
    out: Result<(Paste, PasteStep), Failure>,
)
    requires
        begins_paste(setting, out),
    ensures
        out is Err <==> backends_for(setting) is None,
        out matches Err(failure) ==> failure.told() == "unknown TEXTSPILL_PASTE_BACKEND "@
            + debug_form(setting->0),
{
}

}
