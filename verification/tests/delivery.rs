use textspill::delivery::{deliver, Delivery, DeliveryStep};
use textspill::failure::Failure;
use textspill::host::{Action, Event};
use textspill::live::Preview;
use textspill::transcription::Transcription;

fn said(text: &str) -> Transcription {
    Transcription { text: text.into(), language: Some("Swedish".into()) }
}

fn go(step: DeliveryStep) -> (Delivery, Action) {
    match step {
        DeliveryStep::Go(delivery, action) => (delivery, action),
        DeliveryStep::Settled(_) => panic!("the delivery is settled"),
    }
}

/// Takes a delivery up to the keystroke.
fn up_to_paste(progress: Preview, end: u64, text: &str) -> (Preview, Delivery, String) {
    let start = progress.consumed_bytes;
    let (progress, delivery, action) = deliver(progress, start, end, said(text));
    let copied = match action {
        Action::Copy(text) => text,
        _ => panic!("expected a copy"),
    };
    let (progress, step) = delivery.advance(progress, Event::Done);
    let (delivery, action) = go(step);
    match action {
        Action::Publish(published) => {
            assert!(published.delivery_pending, "the intent is published before the keystroke");
        }
        _ => panic!("expected a publication"),
    }
    let (progress, step) = delivery.advance(progress, Event::Done);
    let (delivery, action) = go(step);
    assert!(matches!(action, Action::Paste));
    (progress, delivery, copied)
}

#[test]
fn a_piece_is_copied_announced_pasted_and_counted() {
    let blank = Preview::blank(None, false);
    let (progress, delivery, copied) = up_to_paste(blank, 64000, " hej\n på ");
    assert_eq!(copied, "hej på");
    assert_eq!((progress.text.as_str(), progress.consumed_bytes), ("", 0));
    let (progress, step) = delivery.advance(progress, Event::Pasted(true));
    let (delivery, action) = go(step);
    match action {
        Action::Publish(published) => {
            assert_eq!(published.text, "hej på");
            assert_eq!(published.consumed_bytes, 64000);
            assert_eq!((published.window_start, published.audio_end), (0, 64000));
            assert_eq!(published.language.as_deref(), Some("Swedish"));
            assert!(!published.delivery_pending);
        }
        _ => panic!("expected a publication"),
    }
    let (progress, step) = delivery.advance(progress, Event::Done);
    assert!(matches!(step, DeliveryStep::Settled(Ok(()))));
    // The next piece is parted from it by a space.
    let (progress, delivery, copied) = up_to_paste(progress, 96000, "dig");
    assert_eq!(copied, " dig");
    let (progress, _) = delivery.advance(progress, Event::Pasted(true));
    assert_eq!(progress.text, "hej på dig");
}

#[test]
fn silence_is_accounted_for_without_typing() {
    let mut before = Preview::blank(None, false);
    before.error = Some("old".into());
    let (after, delivery, action) = deliver(before, 0, 48000, said(" \n "));
    match action {
        Action::Publish(published) => assert_eq!(published.consumed_bytes, 48000),
        _ => panic!("expected a publication"),
    }
    assert_eq!((after.text.as_str(), after.error.as_deref()), ("", None));
    let (_, step) = delivery.advance(after, Event::Done);
    assert!(matches!(step, DeliveryStep::Settled(Ok(()))));
}

#[test]
fn a_paste_that_fails_stays_announced() {
    let refused = Failure::NoPasteBackend { failures: vec![] };
    for failed in [Event::Pasted(false), Event::Failed(refused)] {
        let (progress, delivery, _) = up_to_paste(Preview::blank(None, false), 64000, "hej");
        let disabled = matches!(failed, Event::Pasted(_));
        let (progress, step) = delivery.advance(progress, failed);
        assert!(progress.delivery_pending);
        assert_eq!((progress.text.as_str(), progress.consumed_bytes), ("", 0));
        match step {
            DeliveryStep::Settled(Err(e)) => assert_eq!(
                e.message() == "live typing requires a paste backend",
                disabled
            ),
            _ => panic!("expected a failure"),
        }
    }
}

#[test]
fn a_copy_that_fails_changes_nothing() {
    let (progress, delivery, _) = deliver(Preview::blank(None, false), 0, 64000, said("hej"));
    let (progress, step) = delivery.advance(progress, Event::Failed(Failure::ClipboardNotReady));
    assert!(matches!(step, DeliveryStep::Settled(Err(Failure::ClipboardNotReady))));
    assert!(!progress.delivery_pending && progress.text.is_empty());
    let (progress, delivery, _) = deliver(progress, 0, 64000, said("hej"));
    let (_, step) = delivery.advance(progress, Event::Begin);
    assert!(matches!(step, DeliveryStep::Settled(Err(Failure::OutOfTurn))));
}
