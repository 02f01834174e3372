use mmpd::actions::{Action, ActionRunner, ControlAction, RunStep, DELAY_BETWEEN_KEYS_US};

/// The key sequences a step sends, in order, each with its delay.
fn sent_key_sequences(step: &Option<RunStep>) -> Vec<(String, u32)> {
    let mut sent = vec![];
    if let Some(RunStep::SendKeySequences { sequences, delay, repeat }) = step {
        for _ in 0..*repeat {
            for s in sequences {
                sent.push((s.clone(), *delay));
            }
        }
    }
    sent
}

/// The texts a step types, in order, each with its delay.
fn sent_texts(step: &Option<RunStep>) -> Vec<(String, u32)> {
    let mut sent = vec![];
    if let Some(RunStep::SendText { text, delay, repeat }) = step {
        for _ in 0..*repeat {
            sent.push((text.clone(), *delay));
        }
    }
    sent
}

fn seqs(list: &[&str]) -> Vec<(String, u32)> {
    list.iter().map(|s| (s.to_string(), DELAY_BETWEEN_KEYS_US)).collect()
}

#[test]
fn runs_single_key_sequence() {
    let runner = ActionRunner::new();
    let (step, result) = runner.run(&Action::key_sequence("ctrl+alt+delete"));
    assert_eq!(sent_key_sequences(&step), seqs(&["ctrl+alt+delete"]));
    assert!(result.is_none());
}

#[test]
fn runs_repeated_key_sequences() {
    let runner = ActionRunner::new();
    let (step, result) = runner.run(&Action::KeySequence {
        sequence: "Tab".to_string(),
        count: 3,
        delay: None
    });
    assert_eq!(sent_key_sequences(&step), seqs(&["Tab", "Tab", "Tab"]));
    assert!(result.is_none());
}

#[test]
fn runs_space_separated_key_sequences() {
    let runner = ActionRunner::new();
    let (step, result) = runner.run(&Action::KeySequence {
        // Should deal with arbitrary amounts of space characters in between sequences
        sequence: "ctrl+t Tab   Tab  Return".to_string(),
        count: 1,
        delay: None
    });
    assert_eq!(sent_key_sequences(&step), seqs(&["ctrl+t", "Tab", "Tab", "Return"]));
    assert!(result.is_none());
}

#[test]
fn runs_repeated_space_separated_key_sequences() {
    let runner = ActionRunner::new();
    let (step, result) = runner.run(&Action::KeySequence {
        sequence: "ctrl+t Tab   Tab  Return".to_string(),
        count: 3,
        delay: None
    });
    let sent = sent_key_sequences(&step);
    assert_eq!(sent.iter().filter(|(s, _)| s == "ctrl+t").count(), 3);
    assert_eq!(sent.iter().filter(|(s, _)| s == "Tab").count(), 6);
    assert_eq!(sent.iter().filter(|(s, _)| s == "Return").count(), 3);
    assert_eq!(sent.len(), 12);
    assert!(sent.iter().all(|(_, d)| *d == DELAY_BETWEEN_KEYS_US));
    assert!(result.is_none());
}

#[test]
fn runs_single_send_text() {
    let runner = ActionRunner::new();
    let (step, result) = runner.run(&Action::enter_text("hello"));
    assert_eq!(sent_texts(&step), seqs(&["hello"]));
    assert!(result.is_none());
}

#[test]
fn runs_repeated_send_text() {
    let runner = ActionRunner::new();
    let (step, result) = runner.run(&Action::EnterText {
        text: "hello".to_string(),
        count: 3,
        delay: None
    });
    assert_eq!(sent_texts(&step), seqs(&["hello", "hello", "hello"]));
    assert!(result.is_none());
}

#[test]
fn runs_shell_actions() {
    let runner = ActionRunner::new();
    let (step, result) = runner.run(&Action::Shell {
        command: "test_cmd".to_string(),
        args: Some(vec!["arg1".to_string(), "arg2".to_string()]),
        env_vars: Some(vec![
            ("key1".to_string(), "val1".to_string()),
            ("key2".to_string(), "val2".to_string())
        ])
    });
    assert_eq!(
        step,
        Some(RunStep::RunShell {
            command: "test_cmd".to_string(),
            args: Some(vec!["arg1".to_string(), "arg2".to_string()]),
            env_vars: Some(vec![
                ("key1".to_string(), "val1".to_string()),
                ("key2".to_string(), "val2".to_string())
            ])
        })
    );
    assert!(result.is_none());
}

#[test]
fn passes_through_control_actions() {
    let action = Action::Control(ControlAction::Exit);
    let runner = ActionRunner::new();
    let (step, result) = runner.run(&action);
    assert!(step.is_none());
    assert_eq!(result, Some(ControlAction::Exit));
}

#[test]
fn uses_the_given_delay_and_waits() {
    let runner = ActionRunner::new();
    let (step, _) = runner.run(&Action::KeySequence {
        sequence: "a".to_string(),
        count: 2,
        delay: Some(7)
    });
    assert_eq!(sent_key_sequences(&step), vec![("a".to_string(), 7), ("a".to_string(), 7)]);
    let (step, result) = runner.run(&Action::Wait { duration: 1500 });
    assert_eq!(step, Some(RunStep::Wait { duration: 1500 }));
    assert!(result.is_none());
}

#[test]
fn splits_leading_and_trailing_whitespace_into_empty_sequences() {
    let runner = ActionRunner::new();
    let (step, _) = runner.run(&Action::key_sequence(" a\tb "));
    assert_eq!(sent_key_sequences(&step), seqs(&["", "a", "b", ""]));
}
