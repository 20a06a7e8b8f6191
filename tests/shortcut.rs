use handy::shortcut::{get_language_code, validate_shortcut_string};

#[test]
fn shortcut_needs_a_plain_key() {
    assert!(validate_shortcut_string("ctrl+space").is_ok());
    assert!(validate_shortcut_string("Ctrl + Shift + K").is_ok());
    assert!(validate_shortcut_string("option").is_err());
    assert!(validate_shortcut_string(" CTRL + Alt ").is_err());
    assert_eq!(
        validate_shortcut_string("cmd+shift"),
        Err("Shortcut must contain at least one non-modifier key".to_string())
    );
}

#[test]
fn empty_parts_count_as_keys() {
    assert!(validate_shortcut_string("ctrl+").is_ok());
    assert!(validate_shortcut_string("").is_ok());
}

#[test]
fn language_codes() {
    assert_eq!(get_language_code("en-US"), "en");
    assert_eq!(get_language_code("zh_Hans"), "zh");
    assert_eq!(get_language_code("fr"), "fr");
    assert_eq!(get_language_code(""), "");
}
