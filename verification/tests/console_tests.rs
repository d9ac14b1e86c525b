use voxel_world::console::{
    completion_shown, completion_start, fill_completion, type_key, Completion, ConsoleEdit,
    ConsoleKey, ParseOutcome,
};

#[test]
fn typing_edits_the_line() {
    let mut input = String::from("fl");
    assert!(matches!(type_key(&mut input, &ConsoleKey::Character("y".to_string())), ConsoleEdit::Edited));
    assert_eq!(input, "fly");
    assert!(matches!(type_key(&mut input, &ConsoleKey::Space), ConsoleEdit::Edited));
    assert_eq!(input, "fly ");
    assert!(matches!(type_key(&mut input, &ConsoleKey::Backspace), ConsoleEdit::Edited));
    assert_eq!(input, "fly");
    assert!(matches!(type_key(&mut input, &ConsoleKey::Other), ConsoleEdit::Unchanged));
    assert_eq!(input, "fly");
    match type_key(&mut input, &ConsoleKey::Enter) {
        ConsoleEdit::Submit(line) => assert_eq!(line, "fly"),
        other => panic!("expected a submission, got {other:?}"),
    }
    assert_eq!(input, "");
    assert!(matches!(type_key(&mut input, &ConsoleKey::Backspace), ConsoleEdit::Edited));
    assert_eq!(input, "");
}

#[test]
fn completion_after_an_early_end() {
    let mut completion = Completion { tokens: vec!["old".to_string()], offset: 0, is_valid: true };
    let expected = vec!["\"fly\"".to_string(), "not a string".to_string(), "\"place\"".to_string()];
    fill_completion(&mut completion, &"ab√".to_string(), &ParseOutcome::UnexpectedEnd(expected));
    assert_eq!(completion.tokens, vec!["fly".to_string(), "place".to_string()]);
    assert_eq!(completion.offset, 3);
    assert!(!completion.is_valid);

    fill_completion(&mut completion, &"x".to_string(), &ParseOutcome::Invalid);
    assert_eq!(completion.tokens, vec!["fly".to_string(), "place".to_string()]);
    assert_eq!(completion.offset, 3);
    assert!(!completion.is_valid);

    fill_completion(&mut completion, &"fly true".to_string(), &ParseOutcome::Valid);
    assert!(completion.tokens.is_empty());
    assert!(completion.is_valid);
}

#[test]
fn completion_filter() {
    assert_eq!(completion_start(&"place st".to_string(), 6), "st");
    assert_eq!(completion_start(&"pl".to_string(), 6), "");
    assert!(completion_shown(&"stone".to_string(), &"st".to_string()));
    assert!(!completion_shown(&"sand".to_string(), &"st".to_string()));
    assert!(completion_shown(&"sand".to_string(), &"".to_string()));
    assert!(completion_shown(&"r#\"[0-9]+\"#".to_string(), &"st".to_string()));
    assert!(completion_shown(&"fly-mode".to_string(), &"fly".to_string()));
    assert!(!completion_shown(&"fl".to_string(), &"fly".to_string()));
}
