use mmpd::expressions::{parse, Token, TokenKind};
#[test]
fn expressions_parses_a_single_leaf_node() {
    assert_eq!(
        parse("leaf_token").unwrap(),
        vec![Token { name: "leaf_token".to_string(), kind: TokenKind::Leaf }]
    );

    assert!(
        parse("!!invalid name!!").is_err()
    )
}

#[test]
fn expressions_parses_a_leaf_after_a_namespace() {
    assert_eq!(
        parse("my_namespace.my_leaf").unwrap(),
        vec![
            Token { name: "my_namespace".to_string(), kind: TokenKind::Namespace },
            Token { name: "my_leaf".to_string(), kind: TokenKind::Leaf }
        ]
    );

    // Wrong separator
    assert!(
        parse("my_namespace|my_leaf").is_err()
    );
}

#[test]
fn expressions_parses_multiple_namespaces() {
    assert_eq!(
        parse("my_namespace.my_sub_namespace.my_leaf").unwrap(),
        vec![
            Token { name: "my_namespace".to_string(), kind: TokenKind::Namespace },
            Token { name: "my_sub_namespace".to_string(), kind: TokenKind::Namespace },
            Token { name: "my_leaf".to_string(), kind: TokenKind::Leaf }
        ]
    );
}

#[test]
fn expressions_parses_an_array_index_token() {
    assert_eq!(
        parse("my_namespace.arr[823]").unwrap(),
        vec![
            Token { name: "my_namespace".to_string(), kind: TokenKind::Namespace },
            Token { name: "arr".to_string(), kind: TokenKind::ArrayIndex(823) }
        ]
    );

    // With spaces within square brackets
    assert_eq!(
        parse("arr[ 24 ]").unwrap(),
        vec![Token { name: "arr".to_string(), kind: TokenKind::ArrayIndex(24) }]
    );

    // Missing name preceding array index
    assert!(
        parse("[23]").is_err()
    );

    // Unclosed array notation
    assert!(
        parse("my_namespace.arr[823").is_err()
    );

    // Non-digits in index
    assert!(
        parse("my_namespace.arr[INVALID]").is_err()
    );

    // Spaces between characters
    assert!(
        parse("ns.arr[34 2 4]").is_err()
    )
}

#[test]
fn allows_spaces_between_tokens() {
    assert_eq!(
        parse("ns    .  leaf").unwrap(),
        vec![
            Token { name: "ns".to_string(), kind: TokenKind::Namespace },
            Token { name: "leaf".to_string(), kind: TokenKind::Leaf }
        ]
    );
}

#[test]
fn disallows_spaces_within_token() {
    assert!(
        parse("namespace.something with a space").is_err()
    );
}

#[test]
fn disallows_spaces_before_array_bracket() {
    assert!(
        parse("arr [323]").is_err()
    );
}

#[test]
fn expressions_test_helper_correctly_makes_function_call_token() {
    assert_eq!(
        Token {
            name: "fun".to_string(),
            kind: TokenKind::FunctionCall(vec![
                "arg1".to_string(),
                "arg2".to_string()
            ])
        },
        func_token("fun", vec!["arg1", "arg2"])
    )
}

#[test]
fn expressions_parses_a_function_call() {
    // Oh aren't all these fun
    assert_eq!(
        parse("my_namespace.func(abc, 123, sup)").unwrap(),
        vec![
            Token { name: "my_namespace".to_string(), kind: TokenKind::Namespace },
            func_token("func", vec!["abc", "123", "sup"])
        ]
    );

    assert_eq!(
        parse(r#"fun("ab")"#).unwrap(),
        vec![func_token("fun", vec!["ab"])]
    );

    assert_eq!(
        parse(r#"fun("abc",  foo   )"#).unwrap(),
        vec![func_token("fun", vec!["abc", "foo"])]
    );

    assert_eq!(
        parse(r#"fun(arg1,"arg2",arg3)"#).unwrap(),
        vec![func_token("fun", vec!["arg1", "arg2", "arg3"])]
    );

    assert_eq!(
        parse(r#"fun(arg1, "arg number two", "arg \"three\"")"#).unwrap(),
        vec![func_token("fun", vec!["arg1", "arg number two", r#"arg "three""#])]
    );

    assert_eq!(
        parse(r#"fun(ar\g1   ,"ar\g2",  arg3)"#).unwrap(),
        vec![func_token("fun", vec![r#"ar\g1"#, r#"arg2"#, "arg3"])]
    );

    assert_eq!(
        parse(r#"fun(ar\\g1, "arg\\2", arg3)"#).unwrap(),
        vec![func_token("fun", vec![r#"ar\\g1"#, r#"arg\2"#, "arg3"])]
    );

    assert_eq!(
        parse("fun_1_2()").unwrap(),
        vec![func_token("fun_1_2", vec![])]
    );

    assert_eq!(
        parse("fun(        )").unwrap(),
        vec![func_token("fun", vec![])]
    );

    assert_eq!(
        parse("fun(  spaces_before_arg)").unwrap(),
        vec![func_token("fun", vec!["spaces_before_arg"])]
    );

    assert_eq!(
        parse("fun(spaces_after_arg   )").unwrap(),
        vec![func_token("fun", vec!["spaces_after_arg"])]
    );

    assert_eq!(
        parse(r#"fun(*, C3)"#).unwrap(),
        vec![func_token("fun", vec!["*", "C3"])]
    );

    assert_eq!(
        parse(
            r#"namespace.fun1(f1_arg1, "f1 arg \\two\\").fun2("f2 \"arg\" one", f2_arg_two)"#
        ).unwrap(),
        vec![
            Token { name: "namespace".to_string(), kind: TokenKind::Namespace },
            func_token("fun1", vec!["f1_arg1", r#"f1 arg \two\"#]),
            func_token("fun2", vec![r#"f2 "arg" one"#, "f2_arg_two"])
        ]
    );

    // Invalid characters
    assert!(
        parse("my_namespace.func(abc), 123)").is_err()
    );

    // Unclosed parentheses
    assert!(
        parse("fun(foo").is_err()
    );

    // Unclosed quotes, which means it's interpreted as missing quote /
    // missing closing parentheses
    assert!(
        parse(r#"fun("foo)"#).is_err()
    );

    // Uncloses parentheses, the opening paren at the end is irrelevant
    assert!(
        parse(r#"fun("foo", bar("#).is_err()
    );

    // Unclosed parenthesis due to still being in quoted string due to escaped quote
    assert!(
        parse(r#"fun("arg\")"#).is_err()
    );

    // Unexpected comma
    assert!(
        parse("fun(,foo)").is_err()
    );

    // Unexpected character after closing quotes for an arg; expects a comma
    assert!(
        parse(r#"fun("abc" asdf"#).is_err()
    );

    // Spaces in unquoted arguments aren't supported
    assert!(
        parse("fun(  bare value should not have spaces in middle , foo)").is_err()
    )
}

#[test]
fn expressions_parses_realistic_examples() {
    // Accessing a field from the event that triggered this action
    assert_eq!(
        parse("event.key").unwrap(),
        vec![
            Token { name: "event".to_string(), kind: TokenKind::Namespace },
            Token { name: "key".to_string(), kind: TokenKind::Leaf },
        ]
    );

    // Accessing a specific MIDI control value from state
    assert_eq!(
        parse("state.midi.channels[3].controls[15].value").unwrap(),
        vec![
            Token { name: "state".to_string(), kind: TokenKind::Namespace },
            Token { name: "midi".to_string(), kind: TokenKind::Namespace },
            Token { name: "channels".to_string(), kind: TokenKind::ArrayIndex(3) },
            Token { name: "controls".to_string(), kind: TokenKind::ArrayIndex(15) },
            Token { name: "value".to_string(), kind: TokenKind::Leaf }
        ]
    );

    // Checking if a note is currently pressed
    assert_eq!(
        parse("state.midi.note_on(*, 7)").unwrap(),
        vec![
            Token { name: "state".to_string(), kind: TokenKind::Namespace },
            Token { name: "midi".to_string(), kind: TokenKind::Namespace },
            func_token("note_on", vec!["*", "7"])
        ]
    );
}

// Shorthand helper function to make assertions much less wordy
fn func_token(name: &str, args: Vec<&str>) -> Token {
    Token {
        name: name.to_string(),
        kind: TokenKind::FunctionCall(
            args
                .iter()
                .map(|s| s.to_string())
                .collect()
        )
    }
}
