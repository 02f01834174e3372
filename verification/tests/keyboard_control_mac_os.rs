use mmpd::keyboard_control::mac_os::{build_main_key_subcommand, build_sequence_script};
#[test]
fn builds_keystrokes_that_need_quoting() {
    assert_eq!(
        r#"keystroke "a""#,
        build_main_key_subcommand("a").unwrap()
    );
}

#[test]
fn ignores_case_for_keystrokes_that_need_quoting() {
    assert_eq!(
        r#"keystroke "a""#,
        build_main_key_subcommand("A").unwrap()
    )
}

#[test]
fn builds_keystrokes_that_need_keycode() {
    assert_eq!(
        "key code 116",
        build_main_key_subcommand("page_up").unwrap()
    );
}

#[test]
fn ignores_case_for_keystrokes_that_need_keycode() {
    assert_eq!(
        "key code 116",
        build_main_key_subcommand("Page_Up").unwrap()
    );
}

#[test]
fn correctly_escapes_double_quote_and_backslash() {
    assert_eq!(
        r#"keystroke "\"""#,
        build_main_key_subcommand(r#"""#).unwrap()
    );

    assert_eq!(
        r#"keystroke "\\""#,
        build_main_key_subcommand(r#"\"#).unwrap()
    );
}

#[test]
fn rejects_invalid_multi_character_keys() {
    assert!(build_main_key_subcommand("notakey").is_err());
}

#[test]
fn accepts_valid_multi_character_keys() {
    assert_eq!(
        "keystroke command",
        build_main_key_subcommand("command").unwrap()
    );
}

#[test]
fn ignores_case_in_valid_multi_character_keys() {
    assert_eq!(
        "keystroke command",
        build_main_key_subcommand("Command").unwrap()
    );
}



#[test]
fn fails_on_blank_string() {
    assert!(build_sequence_script("").is_err());
    assert!(build_sequence_script(" ").is_err());
}

#[test]
fn forms_single_key_sequence_command() {
    assert_eq!(
        r#"keystroke "a""#.to_string(),
        build_sequence_script("a").unwrap()
    );
}

#[test]
fn forms_double_key_sequence_command() {
    assert_eq!(
        r#"keystroke "b" using a down"#.to_string(),
        build_sequence_script("a+b").unwrap()
    );
}

#[test]
fn forms_triple_key_sequence_command() {
    assert_eq!(
        r#"keystroke "c" using {b down, a down}"#.to_string(),
        build_sequence_script("a+b+c").unwrap()
    );
}

#[test]
fn forms_quadruple_key_sequence_command() {
    assert_eq!(
        r#"keystroke "d" using {c down, b down, a down}"#.to_string(),
        build_sequence_script("a+b+c+d").unwrap()
    );
}
