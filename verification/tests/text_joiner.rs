use videocaptionerr::subtitle::text_joiner::{join_tokens, join_word_texts, join_words};
use videocaptionerr::subtitle::transcript::{Confidence, Word};

#[test]
fn latin_words_spaced() {
    assert_eq!(join_words(&["hello", "world"]), "hello world");
}

#[test]
fn cjk_no_spaces() {
    assert_eq!(join_words(&["你", "好", "世界"]), "你好世界");
}

#[test]
fn mixed_cjk_latin() {
    assert_eq!(join_words(&["使用", "Rust", "语言"]), "使用 Rust 语言");
}

#[test]
fn punctuation_attachment() {
    assert_eq!(join_words(&["Hello", ",", "world", "!"]), "Hello, world!");
    assert_eq!(join_words(&["你好", "。"]), "你好。");
}

#[test]
fn apostrophe_and_hyphen() {
    assert_eq!(join_words(&["it", "'", "s"]), "it's");
    assert_eq!(
        join_words(&["state", "-", "of", "-", "art"]),
        "state-of-art"
    );
}

#[test]
fn decimals_and_percent() {
    assert_eq!(join_words(&["3", ".", "14"]), "3.14");
    assert_eq!(join_words(&["50", "%"]), "50%");
}

#[test]
fn nfc_normalization() {
    // e + combining acute vs precomposed
    let a = join_words(&["cafe\u{0301}"]);
    let b = join_words(&["café"]);
    assert_eq!(a, b);
}

#[test]
fn words_and_tokens_are_joined_alike() {
    let words: Vec<Word> = ["Hello", ",", "world"]
        .iter()
        .map(|text| Word { text: (*text).into(), start_ms: 0, end_ms: 1, prob: Confidence::unavailable() })
        .collect();
    assert_eq!(join_word_texts(&words), "Hello, world");
    assert_eq!(join_tokens(&vec!["Hello".into(), "world".into()]), "Hello world");
    assert_eq!(join_words(&[]), "");
}

#[test]
fn accented_latin_words_are_spaced() {
    assert_eq!(join_words(&["caf\u{00e9}", "noir"]), "caf\u{00e9} noir");
    assert_eq!(join_words(&["cafe\u{0301}", "noir"]), "caf\u{00e9} noir");
    assert_eq!(join_words(&["Tiếng", "Việt"]), "Tiếng Việt");
    assert_eq!(join_words(&["über", "Öl", "3"]), "über Öl 3");
    assert_eq!(join_words(&["q\u{0303}", "x"]), "q\u{0303} x");
    assert_eq!(join_words(&["été", "("]), "été (");
    assert_eq!(join_words(&["使用", "été"]), "使用 été");
    assert_eq!(join_words(&["2", "×", "3"]), "2×3");
}
