use textspill::failure::Failure;
use textspill::input::{
    await_query, focused_shortcut, paste, run, selected_backends, shortcut_for_window, Backend,
    PasteStep, Query, QueryStep, Shortcut, QUERY_TIMEOUT_MS,
};

#[test]
fn only_the_confirmed_desktop_class_uses_ctrl_v() {
    assert_eq!(focused_shortcut(Some(br#"{"class":"Chatgpt"}"#)), Shortcut::CtrlV);
    assert_eq!(shortcut_for_window(Some("Chatgpt")), Shortcut::CtrlV);
    for class in ["Alacritty", "neovim", "Joplin", "firefox", ""] {
        let window = format!(r#"{{"class":"{class}","title":"Chatgpt"}}"#);
        assert_eq!(focused_shortcut(Some(window.as_bytes())), Shortcut::ShiftInsert);
        assert_eq!(shortcut_for_window(Some(class)), Shortcut::ShiftInsert);
    }
    assert_eq!(focused_shortcut(Some(b"{}")), Shortcut::ShiftInsert);
    assert_eq!(shortcut_for_window(None), Shortcut::ShiftInsert);
}

#[test]
fn a_window_that_cannot_be_read_keeps_the_default() {
    assert_eq!(focused_shortcut(None), Shortcut::ShiftInsert);
    assert_eq!(focused_shortcut(Some(b"not json")), Shortcut::ShiftInsert);
    assert_eq!(focused_shortcut(Some(br#"{"class":7}"#)), Shortcut::ShiftInsert);
    assert_eq!(focused_shortcut(Some(br#"["Chatgpt"]"#)), Shortcut::ShiftInsert);
}

#[test]
fn ctrl_v_uses_balanced_keys_without_enter() {
    assert_eq!(
        Backend::Ydotool.command(Shortcut::CtrlV),
        ["key", "29:1", "47:1", "47:0", "29:0"]
    );
    assert_eq!(
        Backend::Wtype.command(Shortcut::CtrlV),
        ["-M", "ctrl", "-k", "v", "-m", "ctrl"]
    );
}

#[test]
fn shift_insert_is_the_default_keystroke() {
    assert_eq!(
        Backend::Ydotool.command(Shortcut::ShiftInsert),
        ["key", "42:1", "110:1", "110:0", "42:0"]
    );
    assert_eq!(
        Backend::Wtype.command(Shortcut::ShiftInsert),
        ["-M", "shift", "-k", "Insert", "-m", "shift"]
    );
    assert_eq!((Backend::Ydotool.name(), Backend::Wtype.name()), ("ydotool", "wtype"));
}

#[test]
fn the_query_for_the_window_is_bounded() {
    assert_eq!(await_query(Query::Exited, 10000), QueryStep::Read);
    assert_eq!(await_query(Query::Running, QUERY_TIMEOUT_MS - 1), QueryStep::Wait);
    assert_eq!(await_query(Query::Running, QUERY_TIMEOUT_MS), QueryStep::Abandon);
    assert_eq!(await_query(Query::Lost, 0), QueryStep::Abandon);
}

#[test]
fn the_setting_selects_backends() {
    let both = [Backend::Ydotool, Backend::Wtype];
    assert_eq!(selected_backends(None).unwrap(), both);
    assert_eq!(selected_backends(Some("")).unwrap(), both);
    assert_eq!(selected_backends(Some("auto")).unwrap(), both);
    assert_eq!(selected_backends(Some("ydotool")).unwrap(), [Backend::Ydotool]);
    assert_eq!(selected_backends(Some("wtype")).unwrap(), [Backend::Wtype]);
    assert_eq!(selected_backends(Some("none")).unwrap(), []);
    let e = selected_backends(Some("x\"dotool")).unwrap_err();
    assert_eq!(e.message(), "unknown TEXTSPILL_PASTE_BACKEND \"x\\\"dotool\"");
    assert!(matches!(paste(Some("AUTO")), Err(Failure::UnknownPasteBackend { .. })));
}

#[test]
fn the_second_backend_is_tried_after_the_first() {
    let (pasting, step) = paste(None).unwrap();
    assert!(matches!(step, PasteStep::Try(Backend::Ydotool)));
    let (pasting, step) = pasting.attempted(run(false, "exit status: 1", " no socket\n"));
    assert!(matches!(step, PasteStep::Try(Backend::Wtype)));
    let (_, step) = pasting.attempted(Ok(()));
    assert!(matches!(step, PasteStep::Sent(Backend::Wtype)));
}

#[test]
fn all_failures_are_told_when_no_backend_works() {
    let (pasting, _) = paste(Some("auto")).unwrap();
    let (pasting, _) = pasting.attempted(run(false, "exit status: 1", "\n"));
    let (_, step) = pasting.attempted(Err("No such file or directory".into()));
    match step {
        PasteStep::Refused(e) => assert_eq!(
            e.message(),
            "no paste backend worked (ydotool: exited with exit status: 1; \
             wtype: No such file or directory)"
        ),
        _ => panic!("expected a refusal"),
    }
}

#[test]
fn none_leaves_the_text_on_the_clipboard() {
    let (_, step) = paste(Some("none")).unwrap();
    assert!(matches!(step, PasteStep::Disabled));
}
