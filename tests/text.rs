use handy::text::{apply_custom_words, extract_punctuation, preserve_case_pattern, Threshold};

fn half() -> Threshold {
    Threshold { num: 1, den: 2 }
}

#[test]
fn test_apply_custom_words_exact_match() {
    let text = "hello world";
    let custom_words = vec!["Hello".to_string(), "World".to_string()];
    let result = apply_custom_words(text, &custom_words, half());
    assert_eq!(result, "Hello World");
}

#[test]
fn test_apply_custom_words_fuzzy_match() {
    let text = "helo wrold";
    let custom_words = vec!["hello".to_string(), "world".to_string()];
    let result = apply_custom_words(text, &custom_words, half());
    assert_eq!(result, "hello world");
}

#[test]
fn test_preserve_case_pattern() {
    assert_eq!(preserve_case_pattern("HELLO", "world"), "WORLD");
    assert_eq!(preserve_case_pattern("Hello", "world"), "World");
    assert_eq!(preserve_case_pattern("hello", "WORLD"), "WORLD");
}

#[test]
fn test_extract_punctuation() {
    assert_eq!(extract_punctuation("hello"), ("", ""));
    assert_eq!(extract_punctuation("!hello?"), ("!", "?"));
    assert_eq!(extract_punctuation("...hello..."), ("...", "..."));
}

#[test]
fn test_empty_custom_words() {
    let text = "hello world";
    let custom_words = vec![];
    let result = apply_custom_words(text, &custom_words, half());
    assert_eq!(result, "hello world");
}

#[test]
fn empty_word_list_keeps_spacing() {
    let text = "  hello   world  ";
    let result = apply_custom_words(text, &[], half());
    assert_eq!(result, text);
}

#[test]
fn correction_keeps_punctuation_and_capitals() {
    let words = vec!["hello".to_string()];
    assert_eq!(apply_custom_words("Helo, there", &words, half()), "Hello, there");
    assert_eq!(apply_custom_words("HELO", &words, half()), "HELLO");
    // the punctuation is part of the token whose case pattern is copied
    assert_eq!(apply_custom_words("HELO!", &words, half()), "Hello!");
}

#[test]
fn correction_joins_tokens_with_single_spaces() {
    let words = vec!["zzzzzz".to_string()];
    assert_eq!(apply_custom_words("  a   b\tc ", &words, half()), "a b c");
}

#[test]
fn zero_threshold_changes_no_word() {
    let words = vec!["hello".to_string()];
    let zero = Threshold { num: 0, den: 1 };
    assert_eq!(apply_custom_words("helo", &words, zero), "helo");
}

#[test]
fn exact_match_needs_positive_threshold_only() {
    let words = vec!["hello".to_string()];
    let tiny = Threshold { num: 1, den: 1000 };
    assert_eq!(apply_custom_words("HELLO", &words, tiny), "HELLO");
    assert_eq!(apply_custom_words("hallo", &words, tiny), "hallo");
}

#[test]
fn words_far_apart_in_length_are_skipped() {
    let words = vec!["internationalization".to_string()];
    let any = Threshold { num: 10, den: 1 };
    assert_eq!(apply_custom_words("intern", &words, any), "intern");
}

#[test]
fn corrected_twice_is_corrected_once() {
    let words = vec!["hello".to_string(), "world".to_string()];
    let once = apply_custom_words("helo  wrold!", &words, half());
    let twice = apply_custom_words(&once, &words, half());
    assert_eq!(once, "hello world!");
    assert_eq!(twice, once);
}

#[test]
fn punctuation_only_token_is_all_punctuation() {
    assert_eq!(extract_punctuation("..."), ("...", "..."));
    assert_eq!(extract_punctuation(""), ("", ""));
}

#[test]
fn case_pattern_of_empty_replacement() {
    assert_eq!(preserve_case_pattern("Hello", ""), "");
}

#[test]
fn phonetic_match_lowers_the_score() {
    let words = vec!["world".to_string()];
    let t = Threshold { num: 3, den: 10 };
    // distance 2 of 5 (0.4) is above 0.3, but the shared Soundex code cuts it to 0.12
    assert_eq!(apply_custom_words("wrold", &words, t), "world");
    // same distance without a phonetic match stays above the threshold
    assert_eq!(apply_custom_words("xorld", &vec!["wormy".to_string()], t), "xorld");
}

#[test]
fn token_cap_counts_utf8_bytes() {
    let t = Threshold { num: 1, den: 2 };
    let long_token = "é".repeat(26); // 26 characters, 52 bytes
    let words = vec!["É".repeat(26)];
    assert_eq!(apply_custom_words(&long_token, &words, t), long_token);
    let short_token = "é".repeat(25); // 50 bytes: still considered
    let words = vec!["É".repeat(25)];
    assert_eq!(apply_custom_words(&short_token, &words, t), "É".repeat(25));
}

#[test]
fn unicode_white_space_separates_tokens() {
    let words = vec!["zzzzzz".to_string()];
    let t = Threshold { num: 1, den: 2 };
    assert_eq!(apply_custom_words("a\u{3000}b\u{a0}c\u{2009}d\u{85}e", &words, t), "a b c d e");
    // U+200B is not white space
    assert_eq!(apply_custom_words("a\u{200b}b", &words, t), "a\u{200b}b");
}
