//! Delivering one more piece of a dictation: it is copied, announced, pasted and
//! only then counted as typed. Already typed text is never selected, erased or
//! rewritten.

use crate::failure::Failure;
use crate::host::{Action, Event};
use crate::live::Preview;
use crate::text::{joined, line_break, one_line, sanitize, sanitized, sanitized_is_one_trim_line};
use crate::transcription::Transcription;
use vstd::prelude::*;
use vstd::string::*;

verus! {

broadcast use vstd::string::group_string_axioms;

/// What a delivery waits for.
#[derive(Clone, Copy, Debug, PartialEq, Eq, Structural)]
pub enum DeliveryStage {
    /// The text to be on the clipboard.
    Copying,
    /// The intent to paste to be published.
    Intending,
    /// The keystroke to be sent.
    Pasting,
    /// The new progress to be published.
    Committing,
}

/// The delivery of what was said between `start` and `end` of the PCM.
pub struct Delivery {
    pub stage: DeliveryStage,
    pub start: u64,
    pub end: u64,
    pub language: Option<String>,
    /// What is typed.
    pub addition: String,
}

/// What a delivery does next.
pub enum DeliveryStep {
    Go(Delivery, Action),
    Settled(Result<(), Failure>),
}

/// What is typed for `said` after `text`: a space parts it from what is there.
pub open spec fn addition_to(text: Seq<char>, said: Seq<char>) -> Seq<char> {
    if text.len() == 0 {
        said
    } else {
        seq![' '] + said
    }
}

/// `after` is `before` with the audio up to `end` accounted for, the last piece
/// of which began at `start`; the text is not looked at.
pub open spec fn accounted(
    before: Preview,
    after: Preview,
    start: u64,
    end: u64,
    language: Option<String>,
) -> bool {
    &&& after.consumed_bytes == end
    &&& after.window_start == start
    &&& after.audio_end == end
    &&& after.language == language
    &&& after.error is None
    &&& after.provisional == before.provisional
}

/// `action` publishes `progress`.
pub open spec fn publishes(action: Action, progress: Preview) -> bool {
    action == Action::Publish(progress)
}

impl Delivery {
    /// A paste that was announced is announced as such until it is settled.
    pub open spec fn well_formed(self, progress: Preview) -> bool {
        match self.stage {
            DeliveryStage::Copying => !progress.delivery_pending,
            DeliveryStage::Intending => progress.delivery_pending,
            DeliveryStage::Pasting => progress.delivery_pending,
            DeliveryStage::Committing => !progress.delivery_pending,
        }
    }

    /// The same delivery at another stage.
    pub open spec fn at(self, stage: DeliveryStage) -> Delivery {
        Delivery { stage, ..self }
    }
}

/// How the delivery of `result` begins: where nothing was said the audio is
/// accounted for at once, else the text is copied.
pub open spec fn delivery_begins(
    before: Preview,
    start: u64,
    end: u64,
    result: Transcription,
    after: Preview,
    delivery: Delivery,
    action: Action,
) -> bool {
    let said = sanitized(result.text@);
    if said.len() == 0 {
        &&& delivery.stage == DeliveryStage::Committing
        &&& delivery.start == start
        &&& delivery.end == end
        &&& delivery.language is None
        &&& delivery.addition@ == said
        &&& accounted(before, after, start, end, result.language)
        &&& after.text == before.text
        &&& after.delivery_pending == before.delivery_pending
        &&& publishes(action, after)
    } else {
        &&& delivery.stage == DeliveryStage::Copying
        &&& delivery.start == start
        &&& delivery.end == end
        &&& delivery.language == result.language
        &&& delivery.addition@ == addition_to(before.text@, said)
        &&& after == before
        &&& action == Action::Copy(delivery.addition)
    }
}

/// What a delivery does when told `event`: `before` and `after` are the progress
/// around the step.
pub open spec fn delivery_step(
    delivery: Delivery,
    before: Preview,
    event: Event,
    after: Preview,
    step: DeliveryStep,
) -> bool {
    match (delivery.stage, event) {
        (DeliveryStage::Copying, Event::Done) => {
            &&& after == Preview { delivery_pending: true, ..before }
            &&& step matches DeliveryStep::Go(next, action) && next == delivery.at(
                DeliveryStage::Intending,
            ) && publishes(action, after)
        },
        (DeliveryStage::Intending, Event::Done) => {
            &&& after == before
            &&& step == DeliveryStep::Go(delivery.at(DeliveryStage::Pasting), Action::Paste)
        },
        (DeliveryStage::Pasting, Event::Pasted(true)) => {
            &&& accounted(before, after, delivery.start, delivery.end, delivery.language)
            &&& after.text@ == before.text@ + delivery.addition@
            &&& !after.delivery_pending
            &&& step matches DeliveryStep::Go(next, action) && next == (Delivery {
                stage: DeliveryStage::Committing,
                language: None,
                ..delivery
            }) && publishes(action, after)
        },
        (DeliveryStage::Pasting, Event::Pasted(false)) => {
            after == before && step == DeliveryStep::Settled(Err(Failure::NoLiveBackend))
        },
        (DeliveryStage::Committing, Event::Done) => {
            after == before && step == DeliveryStep::Settled(Ok(()))
        },
        (_, Event::Failed(failure)) => {
            after == before && step == DeliveryStep::Settled(Err(failure))
        },
        _ => after == before && step == DeliveryStep::Settled(Err(Failure::OutOfTurn)),
    }
}

/// Delivers `result`, which was heard between `start` and `end`: the progress,
/// and the first action.
pub fn deliver(progress: Preview, start: u64, end: u64, result: Transcription) -> (out: (
    Preview,
    Delivery,
    Action,
))
    ensures
        delivery_begins(progress, start, end, result, out.0, out.1, out.2),
        !progress.delivery_pending ==> out.1.well_formed(out.0),
{
    let said = sanitize(result.text.as_str());
    let mut progress = progress;
    if said.as_str().is_empty() {
        progress.consumed_bytes = end;
        progress.window_start = start;
        progress.audio_end = end;
        progress.language = result.language;
        progress.error = None;
        let action = Action::Publish(progress.clone());
        let delivery = Delivery {
            stage: DeliveryStage::Committing,
            start,
            end,
            language: None,
            addition: said,
        };
        return (progress, delivery, action);
    }
    let addition = if progress.text.as_str().is_empty() {
        said
    } else {
        let mut addition = String::new();
        addition.push(' ');
        addition.append(said.as_str());
        assert(addition@ =~= seq![' '] + said@);
        addition
    };
    let action = Action::Copy(addition.clone());
    let delivery = Delivery {
        stage: DeliveryStage::Copying,
        start,
        end,
        language: result.language,
        addition,
    };
    (progress, delivery, action)
}

impl Delivery {
    /// Goes on with the delivery.
    pub fn advance(self, progress: Preview, event: Event) -> (out: (Preview, DeliveryStep))
        ensures
            delivery_step(self, progress, event, out.0, out.1),
            out.1 matches DeliveryStep::Go(next, _) ==> self.well_formed(progress)
                ==> next.well_formed(out.0),
    {
        let mut progress = progress;
        match (self.stage, event) {
            (DeliveryStage::Copying, Event::Done) => {
                // Whoever finds this announced must not type the piece again:
                // it may have been typed already.
                progress.delivery_pending = true;
                let action = Action::Publish(progress.clone());
                let next = Delivery { stage: DeliveryStage::Intending, ..self };
                (progress, DeliveryStep::Go(next, action))
            },
            (DeliveryStage::Intending, Event::Done) => {
                let next = Delivery { stage: DeliveryStage::Pasting, ..self };
                (progress, DeliveryStep::Go(next, Action::Paste))
            },
            (DeliveryStage::Pasting, Event::Pasted(sent)) => {
                if !sent {
                    return (progress, DeliveryStep::Settled(Err(Failure::NoLiveBackend)));
                }
                progress.text = progress.text.concat(self.addition.as_str());
                progress.delivery_pending = false;
                progress.consumed_bytes = self.end;
                progress.window_start = self.start;
                progress.audio_end = self.end;
                progress.language = self.language;
                progress.error = None;
                let action = Action::Publish(progress.clone());
                let next = Delivery {
                    stage: DeliveryStage::Committing,
                    start: self.start,
                    end: self.end,
                    language: None,
                    addition: self.addition,
                };
                (progress, DeliveryStep::Go(next, action))
            },
            (DeliveryStage::Committing, Event::Done) => {
                (progress, DeliveryStep::Settled(Ok(())))
            },
            (_, Event::Failed(failure)) => (progress, DeliveryStep::Settled(Err(failure))),
            _ => (progress, DeliveryStep::Settled(Err(Failure::OutOfTurn))),
        }
    }
}

/// The text after `said` was typed behind `text`.
pub open spec fn typed(text: Seq<char>, said: Seq<char>) -> Seq<char> {
    if said.len() == 0 {
        text
    } else {
        text + addition_to(text, said)
    }
}

/// A delivery of `result` under way: it began with `actions[0]`, and `events[i]`,
/// the answer to `actions[i]`, took it to the next stage. `progress[i]` is the
/// progress at stage `i`.
pub open spec fn delivery_run(
    before: Preview,
    start: u64,
    end: u64,
    result: Transcription,
    stages: Seq<Delivery>,
    progress: Seq<Preview>,
    events: Seq<Event>,
    actions: Seq<Action>,
) -> bool {
    &&& stages.len() == events.len() + 1
    &&& progress.len() == stages.len()
    &&& actions.len() == stages.len()
    &&& delivery_begins(before, start, end, result, progress[0], stages[0], actions[0])
    &&& forall|i: int|
        0 <= i < events.len() ==> delivery_step(
            stages[i],
            progress[i],
            #[trigger] events[i],
            progress[i + 1],
            DeliveryStep::Go(stages[i + 1], actions[i + 1]),
        )
}

/// What holds of a delivery at stage `i` of a run.
spec fn on_course(
    before: Preview,
    start: u64,
    end: u64,
    result: Transcription,
    stage: Delivery,
    progress: Preview,
    i: int,
) -> bool {
    let said = sanitized(result.text@);
    let kept = {
        &&& said.len() > 0
        &&& stage.start == start
        &&& stage.end == end
        &&& stage.language == result.language
        &&& stage.addition@ == addition_to(before.text@, said)
    };
    match stage.stage {
        DeliveryStage::Copying => i == 0 && kept && progress == before,
        DeliveryStage::Intending => i == 1 && kept && progress == (Preview {
            delivery_pending: true,
            ..before
        }),
        DeliveryStage::Pasting => i == 2 && kept && progress == (Preview {
            delivery_pending: true,
            ..before
        }),
        DeliveryStage::Committing => {
            &&& accounted(before, progress, start, end, result.language)
            &&& progress.text@ == typed(before.text@, said)
            &&& said.len() > 0 ==> !progress.delivery_pending
            &&& said.len() == 0 ==> progress.delivery_pending == before.delivery_pending
        },
    }
}

proof fn lemma_on_course(
    before: Preview,
    start: u64,
    end: u64,
    result: Transcription,
    stages: Seq<Delivery>,
    progress: Seq<Preview>,
    events: Seq<Event>,
    actions: Seq<Action>,
    i: int,
)
    requires
        delivery_run(before, start, end, result, stages, progress, events, actions),
        0 <= i < stages.len(),
    ensures
        on_course(before, start, end, result, stages[i], progress[i], i),
    decreases i,
{
    if i > 0 {
        lemma_on_course(before, start, end, result, stages, progress, events, actions, i - 1);
        let event = events[i - 1];
        assert(delivery_step(
            stages[i - 1],
            progress[i - 1],
            event,
            progress[i],
            DeliveryStep::Go(stages[i], actions[i]),
        ));
    }
}

/// A keystroke is only asked for after the text is on the clipboard, and after the
/// intent to paste it was published: whoever finds the progress then knows
/// that the paste may or may not have happened.
pub proof fn paste_is_announced(
    before: Preview,
    start: u64,
    end: u64,
    result: Transcription,
    stages: Seq<Delivery>,
    progress: Seq<Preview>,
    events: Seq<Event>,
    actions: Seq<Action>,
    i: int,
)
    requires
        delivery_run(before, start, end, result, stages, progress, events, actions),
        0 <= i < stages.len(),
        actions[i] is Paste,
    ensures
        i == 2,
        actions[0] matches Action::Copy(text) && text@ == addition_to(
            before.text@,
            sanitized(result.text@),
        ),
        events[0] is Done,
        actions[1] matches Action::Publish(p) && p.delivery_pending,
        events[1] is Done,
{
    if i > 0 {
        assert(delivery_step(
            stages[i - 1],
            progress[i - 1],
            events[i - 1],
            progress[i],
            DeliveryStep::Go(stages[i], actions[i]),
        ));
    }
    lemma_on_course(before, start, end, result, stages, progress, events, actions, i);
    assert(delivery_step(
        stages[0],
        progress[0],
        events[0],
        progress[1],
        DeliveryStep::Go(stages[1], actions[1]),
    ));
}

/// What is copied to be pasted holds no line break, so pasting it presses no
/// Enter.
pub proof fn delivered_text_is_one_line(
    before: Preview,
    start: u64,
    end: u64,
    result: Transcription,
    stages: Seq<Delivery>,
    progress: Seq<Preview>,
    events: Seq<Event>,
    actions: Seq<Action>,
    i: int,
)
    requires
        delivery_run(before, start, end, result, stages, progress, events, actions),
        0 <= i < stages.len(),
        actions[i] is Copy,
    ensures
        one_line(actions[i]->Copy_0@),
{
    if i > 0 {
        assert(delivery_step(
            stages[i - 1],
            progress[i - 1],
            events[i - 1],
            progress[i],
            DeliveryStep::Go(stages[i], actions[i]),
        ));
    }
    let said = sanitized(result.text@);
    sanitized_is_one_trim_line(result.text@);
    let addition = addition_to(before.text@, said);
    assert forall|k: int| 0 <= k < addition.len() implies !line_break(
        #[trigger] addition[k],
    ) by {
        if before.text@.len() > 0 && k > 0 {
            assert(addition[k] == said[k - 1]);
        }
    }
}

/// Typed text only ever grows, and audio only counts as consumed once its text
/// was typed: until the keystroke is confirmed both stay as they were.
pub proof fn delivery_is_append_only(
    before: Preview,
    start: u64,
    end: u64,
    result: Transcription,
    stages: Seq<Delivery>,
    progress: Seq<Preview>,
    events: Seq<Event>,
    actions: Seq<Action>,
    i: int,
)
    requires
        delivery_run(before, start, end, result, stages, progress, events, actions),
        0 <= i < stages.len(),
    ensures
        if stages[i].stage == DeliveryStage::Committing {
            &&& progress[i].text@ == typed(before.text@, sanitized(result.text@))
            &&& progress[i].consumed_bytes == end
        } else {
            &&& progress[i].text == before.text
            &&& progress[i].consumed_bytes == before.consumed_bytes
        },
{
    lemma_on_course(before, start, end, result, stages, progress, events, actions, i);
}

/// A delivery that ends well has typed exactly what was said and accounted for
/// exactly the audio it was said in; one that fails after the keystroke was
/// asked for leaves the paste announced, with text and audio as they were.
pub proof fn delivery_settles(
    before: Preview,
    start: u64,
    end: u64,
    result: Transcription,
    stages: Seq<Delivery>,
    progress: Seq<Preview>,
    events: Seq<Event>,
    actions: Seq<Action>,
    last: Event,
    after: Preview,
    outcome: Result<(), Failure>,
)
    requires
        delivery_run(before, start, end, result, stages, progress, events, actions),
        delivery_step(
            stages.last(),
            progress.last(),
            last,
            after,
            DeliveryStep::Settled(outcome),
        ),
    ensures
        outcome is Ok ==> accounted(before, after, start, end, result.language) && after.text@
            == typed(before.text@, sanitized(result.text@)),
        actions.last() is Paste ==> outcome is Err && after == (Preview {
            delivery_pending: true,
            ..before
        }),
{
    let i = stages.len() - 1;
    lemma_on_course(before, start, end, result, stages, progress, events, actions, i);
    if i > 0 {
        assert(delivery_step(
            stages[i - 1],
            progress[i - 1],
            events[i - 1],
            progress[i],
            DeliveryStep::Go(stages[i], actions[i]),
        ));
    }
}

/// What a delivery types, and all that was typed before it, holds no line break.
pub open spec fn keeps_one_line(delivery: Delivery, progress: Preview) -> bool {
    one_line(progress.text@) && one_line(delivery.addition@)
}

proof fn lemma_concat_one_line(a: Seq<char>, b: Seq<char>)
    requires
        one_line(a),
        one_line(b),
    ensures
        one_line(a + b),
{
    let s = a + b;
    assert forall|i: int| 0 <= i < s.len() implies !line_break(#[trigger] s[i]) by {
        if i < a.len() {
            assert(s[i] == a[i]);
        } else {
            assert(s[i] == b[i - a.len()]);
        }
    }
}

/// A delivery begins to type one line, and copies nothing else.
pub proof fn delivery_begins_with_one_line(
    before: Preview,
    start: u64,
    end: u64,
    result: Transcription,
    after: Preview,
    delivery: Delivery,
    action: Action,
)
    requires
        delivery_begins(before, start, end, result, after, delivery, action),
        one_line(before.text@),
    ensures
        keeps_one_line(delivery, after),
        action matches Action::Copy(text) ==> one_line(text@),
{
    let said = sanitized(result.text@);
    sanitized_is_one_trim_line(result.text@);
    assert forall|i: int| 0 <= i < seq![' '].len() implies !line_break(
        #[trigger] seq![' '][i],
    ) by {}
    lemma_concat_one_line(seq![' '], said);
}

/// A delivery that types one line behind one line leaves one line, and copies
/// nothing more.
pub proof fn delivery_keeps_one_line(
    delivery: Delivery,
    before: Preview,
    event: Event,
    after: Preview,
    step: DeliveryStep,
)
    requires
        delivery_step(delivery, before, event, after, step),
        keeps_one_line(delivery, before),
    ensures
        one_line(after.text@),
        step matches DeliveryStep::Go(next, action) ==> keeps_one_line(next, after) && !(action
            is Copy),
{
    lemma_concat_one_line(before.text@, delivery.addition@);
}

proof fn lemma_joined_is_something(parts: Seq<Seq<char>>)
    requires
        parts.len() > 0,
        forall|i: int| 0 <= i < parts.len() ==> (#[trigger] parts[i]).len() > 0,
    ensures
        joined(parts, seq![' ']).len() > 0,
{
    assert(parts.last() == parts[parts.len() - 1]);
}

/// Piece by piece, a dictation comes out as all that was said in it, parted by single
/// spaces.
pub proof fn pieces_are_parted_by_spaces(parts: Seq<Seq<char>>, said: Seq<char>)
    requires
        forall|i: int| 0 <= i < parts.len() ==> (#[trigger] parts[i]).len() > 0,
        said.len() > 0,
    ensures
        typed(joined(parts, seq![' ']), said) == joined(parts.push(said), seq![' ']),
{
    assert(parts.push(said).drop_last() =~= parts);
    if parts.len() > 0 {
        lemma_joined_is_something(parts);
    }
    assert(typed(joined(parts, seq![' ']), said) =~= joined(parts.push(said), seq![' ']));
}

/// Where something was said and all goes well, it is copied as one line, parted by a
/// single space from what was typed before, the paste is announced, the keystroke is
/// asked for, and then exactly that was typed behind what was there, in the language it
/// was said in, and exactly the audio up to `end` is accounted for. `p` and `s` are the
/// progress and the step after each answer.
pub proof fn a_delivery_types_what_was_said(
    before: Preview,
    start: u64,
    end: u64,
    result: Transcription,
    delivery: Delivery,
    action: Action,
    p: Seq<Preview>,
    s: Seq<DeliveryStep>,
)
    requires
        sanitized(result.text@).len() > 0,
        p.len() == 5,
        s.len() == 5,
        delivery_begins(before, start, end, result, p[0], delivery, action),
        delivery_step(delivery, p[0], Event::Done, p[1], s[1]),
        delivery_step(s[1]->Go_0, p[1], Event::Done, p[2], s[2]),
        delivery_step(s[2]->Go_0, p[2], Event::Pasted(true), p[3], s[3]),
        delivery_step(s[3]->Go_0, p[3], Event::Done, p[4], s[4]),
    ensures
        action matches Action::Copy(text) && text@ == if before.text@.len() == 0 {
            sanitized(result.text@)
        } else {
            seq![' '] + sanitized(result.text@)
        },
        p[0] == before,
        s[1] matches DeliveryStep::Go(_, Action::Publish(told)) && told == p[1] && p[1]
            == (Preview { delivery_pending: true, ..before }),
        s[2] matches DeliveryStep::Go(_, Action::Paste),
        p[2] == p[1],
        s[3] matches DeliveryStep::Go(_, Action::Publish(told)) && told == p[3],
        p[3].text@ == if before.text@.len() == 0 {
            sanitized(result.text@)
        } else {
            before.text@.push(' ') + sanitized(result.text@)
        },
        p[3].consumed_bytes == end,
        p[3].audio_end == end,
        p[3].window_start == start,
        p[3].language == result.language,
        p[3].error is None,
        p[3].provisional == before.provisional,
        !p[3].delivery_pending,
        s[4] == DeliveryStep::Settled(Ok(())),
        p[4] == p[3],
{
    if before.text@.len() == 0 {
        assert(before.text@ + sanitized(result.text@) =~= sanitized(result.text@));
    } else {
        assert(before.text@ + (seq![' '] + sanitized(result.text@)) =~= before.text@.push(' ')
            + sanitized(result.text@));
    }
}

/// Where nothing was said, nothing is copied, pasted or typed: the audio is accounted
/// for, that is published, and the delivery is over.
pub proof fn silence_is_only_accounted_for(
    before: Preview,
    start: u64,
    end: u64,
    result: Transcription,
    after: Preview,
    delivery: Delivery,
    action: Action,
    last: Preview,
    step: DeliveryStep,
)
    requires
        sanitized(result.text@).len() == 0,
        delivery_begins(before, start, end, result, after, delivery, action),
        delivery_step(delivery, after, Event::Done, last, step),
    ensures
        action == Action::Publish(after),
        after.text == before.text,
        after.delivery_pending == before.delivery_pending,
        after.consumed_bytes == end,
        after.audio_end == end,
        after.window_start == start,
        after.language == result.language,
        after.error is None,
        after.provisional == before.provisional,
        step == DeliveryStep::Settled(Ok(())),
        last == after,
{
}

/// Whatever a delivery waits for, a failure settles it with that failure and changes
/// nothing; so does a keystroke that no backend sent.
pub proof fn a_failed_delivery_changes_nothing(
    delivery: Delivery,
    before: Preview,
    failure: Failure,
    after: Preview,
    step: DeliveryStep,
)
    ensures
        delivery_step(delivery, before, Event::Failed(failure), after, step) ==> step
            == DeliveryStep::Settled(Err(failure)) && after == before,
        delivery.stage == DeliveryStage::Pasting && delivery_step(
            delivery,
            before,
            Event::Pasted(false),
            after,
            step,
        ) ==> step == DeliveryStep::Settled(Err(Failure::NoLiveBackend)) && after == before,
{
}

}
