use alliot::voice::vad::{finish_plain_transcript, normalize_voice_text};
use alliot::voice::wake_word::{contains_wake_word, remove_wake_word};
use alliot::voice::{finish_transcript, normalize_transcript};

#[test]
fn filter_finds_wake_word_anywhere() {
    assert!(contains_wake_word("Наллиот!"));
    assert!(contains_wake_word("эй, алиот"));
    assert!(!contains_wake_word("открой браузер"));
}

#[test]
fn filter_blanks_every_spelling() {
    assert_eq!(remove_wake_word("эй аллиот открой"), "эй открой");
    assert_eq!(remove_wake_word("Элют, элют стоп"), "стоп");
}

#[test]
fn filter_keeps_yo() {
    assert_eq!(remove_wake_word("Ёлка  зелёная!"), "ёлка зелёная");
}

#[test]
fn filter_without_wake_word_only_normalises() {
    let text = "  Просто, ТЕКСТ  ";
    assert!(!contains_wake_word(text));
    assert_eq!(remove_wake_word(text), "просто текст");
}

#[test]
fn voice_text_corrects_name() {
    assert_eq!(normalize_voice_text("А, лёд  открой"), "аллиот открой");
    assert_eq!(normalize_voice_text("Алед"), "аллиот");
    assert_eq!(normalize_voice_text("али ёт, привет"), "аллиот, привет");
    assert_eq!(normalize_voice_text("Привет  мир"), "привет мир");
}

#[test]
fn transcript_is_normalised() {
    assert_eq!(normalize_transcript("  Ёлка   ЗЕЛЁНАЯ "), "елка зеленая");
}

#[test]
fn segments_join_into_transcript() {
    let segments = vec![" Привет,".to_string(), "Мир!".to_string()];
    assert_eq!(finish_transcript(&segments), Ok("привет, мир!".to_string()));
}

#[test]
fn blank_segments_are_not_recognised() {
    let segments = vec!["  ".to_string()];
    assert_eq!(finish_transcript(&segments), Err("Whisper не распознал речь".to_string()));
    assert_eq!(finish_transcript(&Vec::new()), Err("Whisper не распознал речь".to_string()));
}

#[test]
fn plain_transcript_is_trimmed_only() {
    let segments = vec![" Привет,".to_string(), "Мир!".to_string()];
    assert_eq!(finish_plain_transcript(&segments), Ok("Привет, Мир!".to_string()));
    assert_eq!(
        finish_plain_transcript(&vec![" ".to_string()]),
        Err("Whisper не распознал речь".to_string())
    );
}
