use textspill::clipboard::{
    copy, copy_args, read_back_args, wait_until_readable, Settle, SETTLE_TIMEOUT_MS,
};

#[test]
fn the_tools_add_and_keep_no_newline() {
    assert_eq!(copy_args(), ["--trim-newline"]);
    assert_eq!(read_back_args(), ["--no-newline"]);
}

#[test]
fn copying_fails_with_the_tools_status() {
    assert!(copy(true, "exit status: 0".into()).is_ok());
    let e = copy(false, "exit status: 1".into()).unwrap_err();
    assert_eq!(e.message(), "wl-copy exited with exit status: 1");
}

#[test]
fn the_clipboard_is_read_back_before_pasting() {
    let text = "hej världen";
    let ready = wait_until_readable(Some("hej världen".as_bytes()), text, 10_000);
    assert!(matches!(ready, Settle::Ready));
    let old = wait_until_readable(Some(b"hej"), text, SETTLE_TIMEOUT_MS - 1);
    assert!(matches!(old, Settle::Again));
    assert!(matches!(wait_until_readable(None, text, 0), Settle::Again));
    match wait_until_readable(Some(b"\xff"), text, SETTLE_TIMEOUT_MS) {
        Settle::Refuse(e) => assert_eq!(
            e.message(),
            "clipboard did not contain the transcription after copying"
        ),
        _ => panic!("expected a refusal"),
    }
}
