use pgml_components::text::{chars_of, contains, string_of};

#[test]
fn chars_and_string_round_trip() {
    let chars = chars_of("static/js/bär.js");
    assert_eq!(chars.len(), 16);
    assert_eq!(chars[11], 'ä');
    assert_eq!(string_of(&chars), "static/js/bär.js");
}

#[test]
fn chars_of_empty_text() {
    assert!(chars_of("").is_empty());
    assert_eq!(string_of(&Vec::new()), "");
}

#[test]
fn contains_finds_pattern_anywhere() {
    assert!(contains("static/js/main.js", "main.js"));
    assert!(contains("main.js/static", "main.js"));
    assert!(contains("a/main.js/b", "main.js"));
    assert!(contains("main.js", "main.js"));
}

#[test]
fn contains_rejects_missing_pattern() {
    assert!(!contains("static/js/bar.js", "main.js"));
    assert!(!contains("main.j", "main.js"));
    assert!(!contains("", "main.js"));
    assert!(!contains("mainXjs", "main.js"));
}

#[test]
fn contains_empty_pattern_everywhere() {
    assert!(contains("abc", ""));
    assert!(contains("", ""));
}

#[test]
fn contains_after_partial_match() {
    assert!(contains("mamain.js", "main.js"));
    assert!(contains("aab", "ab"));
    assert!(!contains("aaa", "ab"));
}
