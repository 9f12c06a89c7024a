use alliot::wake_word::{contains_wake_word, extract_command, remove_wake_word};

#[test]
fn extract_command_documented_examples() {
    assert_eq!(extract_command("аллиот"), Some(String::new()));
    assert_eq!(extract_command("аллиот открой blender"), Some("открой blender".to_string()));
    assert_eq!(
        extract_command("привет аллиот открой blender"),
        Some("открой blender".to_string())
    );
    assert_eq!(extract_command("открой blender"), None);
}

#[test]
fn wake_word_inside_a_word_does_not_count() {
    assert_eq!(extract_command("аллиотик открой"), None);
    assert!(!contains_wake_word("аллиотик открой"));
    assert_eq!(remove_wake_word("аллиотик открой"), "аллиотик открой");
}

#[test]
fn earliest_match_wins() {
    assert_eq!(extract_command("эли, аллиот открой"), Some("аллиот открой".to_string()));
}

#[test]
fn longer_match_at_same_place_wins() {
    assert_eq!(extract_command("Элли от, открой фигму"), Some("открой фигму".to_string()));
    assert_eq!(remove_wake_word("Элли от, открой фигму"), "открой фигму");
}

#[test]
fn contains_agrees_with_extract() {
    for text in ["Аллиот!", "налиот привет", "хелло", "", "элло?"] {
        assert_eq!(contains_wake_word(text), extract_command(text).is_some());
    }
}

#[test]
fn remove_agrees_with_extract() {
    for text in ["Аллиот, открой браузер", "просто текст", "Эллиут   стоп  ", "айлот"] {
        let expected = match extract_command(text) {
            Some(command) => command,
            None => text.to_lowercase().split_whitespace().collect::<Vec<_>>().join(" "),
        };
        assert_eq!(remove_wake_word(text), expected);
    }
}

#[test]
fn symbols_and_case_are_normalised() {
    assert!(contains_wake_word("...АЛЛИОТ..."));
    assert_eq!(remove_wake_word("Ёж, аллиот: СТОП!"), "стоп");
}
