use bitwarden_rofi::rofi::{classify_exit, RofiResponse, RofiWindow};

#[test]
fn default_window_args() {
    let w = RofiWindow::new("Pick one");
    assert_eq!(
        w.to_args(),
        vec!["-p".to_string(), "Pick one".to_string(), "-lines".to_string(), "10".to_string()]
    );
}

#[test]
fn full_window_args_in_order() {
    let w = RofiWindow::new("Enter master password")
        .message("hello")
        .width(42)
        .lines(0)
        .password(true)
        .add_args(vec!["-dmenu"])
        .kb_custom(2, "Alt+l")
        .matching("fuzzy");
    assert_eq!(
        w.to_args(),
        vec![
            "-p".to_string(),
            "Enter master password".to_string(),
            "-mesg".to_string(),
            "hello".to_string(),
            "-width".to_string(),
            "42".to_string(),
            "-lines".to_string(),
            "0".to_string(),
            "-password".to_string(),
            "-dmenu".to_string(),
            "-kb-custom-2".to_string(),
            "Alt+l".to_string(),
            "-matching".to_string(),
            "fuzzy".to_string(),
        ]
    );
}

#[test]
fn builder_setters_replace_values() {
    let w = RofiWindow::new("a").prompt("b").lines(-3);
    let args = w.to_args();
    assert_eq!(args[1], "b");
    assert_eq!(args[3], "-3");
}

#[test]
fn exit_code_zero_is_the_trimmed_selection() {
    match classify_exit(Some(0), "  chosen entry \n") {
        Ok(RofiResponse::Entry(s)) => assert_eq!(s, "chosen entry"),
        other => panic!("unexpected: {:?}", other),
    }
}

#[test]
fn exit_code_one_is_a_cancellation() {
    assert!(matches!(classify_exit(Some(1), ""), Ok(RofiResponse::Cancel)));
}

#[test]
fn exit_codes_ten_to_twentyeight_are_custom_keys() {
    assert!(matches!(classify_exit(Some(10), ""), Ok(RofiResponse::CustomKey(1))));
    assert!(matches!(classify_exit(Some(18), ""), Ok(RofiResponse::CustomKey(9))));
    assert!(matches!(classify_exit(Some(28), ""), Ok(RofiResponse::CustomKey(19))));
}

#[test]
fn other_exit_codes_are_protocol_errors() {
    match classify_exit(Some(5), "") {
        Err(e) => assert_eq!(e.details, "unexpected exit code: 5"),
        other => panic!("unexpected: {:?}", other),
    }
    match classify_exit(Some(-1), "") {
        Err(e) => assert_eq!(e.details, "unexpected exit code: -1"),
        other => panic!("unexpected: {:?}", other),
    }
}

#[test]
fn killed_process_without_code_yields_the_output() {
    match classify_exit(None, "text") {
        Ok(RofiResponse::Entry(s)) => assert_eq!(s, "text"),
        other => panic!("unexpected: {:?}", other),
    }
}

#[test]
fn entry_extracts_only_selections() {
    assert_eq!(RofiResponse::Entry("x".to_string()).entry().unwrap(), "x");
    match RofiResponse::Cancel.entry() {
        Err(e) => assert_eq!(e.details, "expected an entry as response"),
        Ok(s) => panic!("unexpected entry: {}", s),
    }
    assert!(RofiResponse::CustomKey(3).entry().is_err());
}
