use mmpd::variables::{Parser, Token, TokenKind};
#[test]
fn variables_parses_a_single_leaf_node() {
    assert_eq!(
        Parser::new("leaf_token").parse().unwrap(),
        vec![Token { name: "leaf_token".to_string(), kind: TokenKind::Leaf }]
    );

    assert!(
        Parser::new("!!invalid name!!").parse().is_err()
    )
}

#[test]
fn variables_parses_a_leaf_after_a_namespace() {
    assert_eq!(
        Parser::new("my_namespace.my_leaf").parse().unwrap(),
        vec![
            Token { name: "my_namespace".to_string(), kind: TokenKind::Namespace },
            Token { name: "my_leaf".to_string(), kind: TokenKind::Leaf }
        ]
    );

    // Wrong separator
    assert!(
        Parser::new("my_namespace|my_leaf").parse().is_err()
    );
}

#[test]
fn variables_parses_multiple_namespaces() {
    assert_eq!(
        Parser::new("my_namespace.my_sub_namespace.my_leaf").parse().unwrap(),
        vec![
            Token { name: "my_namespace".to_string(), kind: TokenKind::Namespace },
            Token { name: "my_sub_namespace".to_string(), kind: TokenKind::Namespace },
            Token { name: "my_leaf".to_string(), kind: TokenKind::Leaf }
        ]
    );
}

#[test]
fn variables_parses_an_array_index_token() {
    assert_eq!(
        Parser::new("my_namespace.arr[823]").parse().unwrap(),
        vec![
            Token { name: "my_namespace".to_string(), kind: TokenKind::Namespace },
            Token { name: "arr".to_string(), kind: TokenKind::ArrayIndex(823) }
        ]
    );

    // Unclosed array notation
    assert!(
        Parser::new("my_namespace.arr[823").parse().is_err()
    );

    // Non-digits in index
    assert!(
        Parser::new("my_namespace.arr[INVALID]").parse().is_err()
    );
}

#[test]
fn variables_test_helper_correctly_makes_function_call_token() {
    assert_eq!(
        Token {
            name: "fun".to_string(),
            kind: TokenKind::FunctionCall(vec![
                "arg1".to_string(),
                "arg2".to_string()
            ])
        },
        func_token("fun", vec!["arg1", "arg2"])
    )
}

#[test]
fn variables_parses_a_function_call() {
    // Oh aren't all these fun
    assert_eq!(
        Parser::new("my_namespace.func(abc, 123, sup)").parse().unwrap(),
        vec![
            Token { name: "my_namespace".to_string(), kind: TokenKind::Namespace },
            func_token("func", vec!["abc", "123", "sup"])
        ]
    );

    assert_eq!(
        Parser::new(r#"fun("ab")"#).parse().unwrap(),
        vec![func_token("fun", vec!["ab"])]
    );

    assert_eq!(
        Parser::new(r#"fun("abc",  foo   )"#).parse().unwrap(),
        vec![func_token("fun", vec!["abc", "foo"])]
    );

    assert_eq!(
        Parser::new(r#"fun(arg1,"arg2",arg3)"#).parse().unwrap(),
        vec![func_token("fun", vec!["arg1", "arg2", "arg3"])]
    );

    assert_eq!(
        Parser::new(r#"fun(arg1, "arg number two", "arg \"three\"")"#).parse().unwrap(),
        vec![func_token("fun", vec!["arg1", "arg number two", r#"arg "three""#])]
    );

    assert_eq!(
        Parser::new(r#"fun(ar\g1   ,"ar\g2",  arg3)"#).parse().unwrap(),
        vec![func_token("fun", vec![r#"ar\g1"#, r#"arg2"#, "arg3"])]
    );

    assert_eq!(
        Parser::new(r#"fun(ar\\g1, "arg\\2", arg3)"#).parse().unwrap(),
        vec![func_token("fun", vec![r#"ar\\g1"#, r#"arg\2"#, "arg3"])]
    );

    assert_eq!(
        Parser::new("fun_1_2()").parse().unwrap(),
        vec![func_token("fun_1_2", vec![])]
    );

    assert_eq!(
        Parser::new("fun(        )").parse().unwrap(),
        vec![func_token("fun", vec![])]
    );

    assert_eq!(
        Parser::new(r#"fun(*, C3)"#).parse().unwrap(),
        vec![func_token("fun", vec!["*", "C3"])]
    );

    assert_eq!(
        Parser::new(
            r#"namespace.fun1(f1_arg1, "f1 arg \\two\\").fun2("f2 \"arg\" one", f2_arg_two)"#
        ).parse().unwrap(),
        vec![
            Token { name: "namespace".to_string(), kind: TokenKind::Namespace },
            func_token("fun1", vec!["f1_arg1", r#"f1 arg \two\"#]),
            func_token("fun2", vec![r#"f2 "arg" one"#, "f2_arg_two"])
        ]
    );

    // Invalid characters
    assert!(
        Parser::new("my_namespace.func(abc), 123)").parse().is_err()
    );

    // Unclosed parentheses
    assert!(
        Parser::new("fun(foo").parse().is_err()
    );

    // Unclosed quotes, which means it's interpreted as missing quote /
    // missing closing parentheses
    assert!(
        Parser::new(r#"fun("foo)"#).parse().is_err()
    );

    // Uncloses parentheses, the opening paren at the end is irrelevant
    assert!(
        Parser::new(r#"fun("foo", bar("#).parse().is_err()
    );

    // Unclosed parenthesis due to still being in quoted string due to escaped quote
    assert!(
        Parser::new(r#"fun("arg\")"#).parse().is_err()
    );

    // Unexpected comma
    assert!(
        Parser::new("fun(,foo)").parse().is_err()
    );

    // Unexpected character after closing quotes for an arg; expects a comma
    assert!(
        Parser::new(r#"fun("abc" asdf"#).parse().is_err()
    );
}

#[test]
fn variables_parses_realistic_examples() {
    // Accessing a field from the event that triggered this action
    assert_eq!(
        Parser::new("event.key").parse().unwrap(),
        vec![
            Token { name: "event".to_string(), kind: TokenKind::Namespace },
            Token { name: "key".to_string(), kind: TokenKind::Leaf },
        ]
    );

    // Accessing a specific MIDI control value from state
    assert_eq!(
        Parser::new("state.midi.channels[3].controls[15].value").parse().unwrap(),
        vec![
            Token { name: "state".to_string(), kind: TokenKind::Namespace },
            Token { name: "midi".to_string(), kind: TokenKind::Namespace },
            Token { name: "channels".to_string(), kind: TokenKind::ArrayIndex(3) },
            Token { name: "controls".to_string(), kind: TokenKind::ArrayIndex(15) },
            Token { name: "value".to_string(), kind: TokenKind::Leaf }
        ]
    );

    // Checking if a note is currently pressed
    assert_eq!(
        Parser::new("state.midi.note_on(*, 7)").parse().unwrap(),
        vec![
            Token { name: "state".to_string(), kind: TokenKind::Namespace },
            Token { name: "midi".to_string(), kind: TokenKind::Namespace },
            func_token("note_on", vec!["*", "7"])
        ]
    );
}

// Shorthand helper function to make assertions much less wordy
fn func_token(name: &str, args: Vec<&str>) -> Token {
    Token {
        name: name.to_string(),
        kind: TokenKind::FunctionCall(
            args
                .iter()
                .map(|s| s.to_string())
                .collect()
        )
    }
}
