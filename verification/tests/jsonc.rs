use lockpick::utils::strip_jsonc_comments;

#[test]
fn test_strip_line_comments() {
    let input = "{\n  \"key\": \"value\" // comment\n}";
    let result = strip_jsonc_comments(input);
    assert!(!result.contains("//"));
    assert!(result.contains("\"key\": \"value\""));
}

#[test]
fn test_strip_block_comments() {
    let input = "{\n  /* block */\n  \"key\": \"value\"\n}";
    let result = strip_jsonc_comments(input);
    assert!(!result.contains("/*"));
    assert!(result.contains("\"key\": \"value\""));
}

#[test]
fn test_preserves_strings() {
    let input = r#"{"url": "https://example.com", "comment": "has // slashes and /* stars */"}"#;
    let result = strip_jsonc_comments(input);
    assert!(result.contains("https://example.com"));
    assert!(result.contains("has // slashes and /* stars */"));
}

#[test]
fn test_preserves_newlines_in_block_comments() {
    let input = "{\n  /* line1\n     line2 */\n  \"key\": 1\n}";
    let result = strip_jsonc_comments(input);
    assert_eq!(result.matches('\n').count(), input.matches('\n').count());
}

#[test]
fn test_strip_jsonc_line_comments() {
    let input = "{\n  \"key\": \"value\" // this is a comment\n}";
    let result = strip_jsonc_comments(input);
    assert!(!result.contains("//"));
    assert!(result.contains("\"key\": \"value\""));
}

#[test]
fn test_strip_jsonc_block_comments() {
    let input = "{\n  /* block comment */\n  \"key\": \"value\"\n}";
    let result = strip_jsonc_comments(input);
    assert!(!result.contains("/*"));
    assert!(result.contains("\"key\": \"value\""));
}

#[test]
fn test_strip_jsonc_preserves_strings() {
    let input = r#"{"url": "https://example.com/path", "comment": "has // slashes and /* stars */"}"#;
    let result = strip_jsonc_comments(input);
    assert!(result.contains("https://example.com/path"));
    assert!(result.contains("has // slashes and /* stars */"));
}

#[test]
fn test_comment_becomes_spaces_of_same_length() {
    let input = "{/*ab*/}";
    assert_eq!(strip_jsonc_comments(input), "{      }");
}

#[test]
fn non_ascii_text_is_kept() {
    let input = "{\"k\": \"é\"}";
    assert_eq!(strip_jsonc_comments(input), input);
    let commented = "{\"k\": 1 // café\n}";
    let out = strip_jsonc_comments(commented);
    assert_eq!(out, "{\"k\": 1        \n}");
    assert_eq!(out.chars().count(), commented.chars().count());
}

#[test]
fn test_strip_jsonc_comments() {
    let input = r#"{
            // This is a line comment
            "plugins": ["react"], /* block comment */
            "extends": ["airbnb"]
        }"#;
    let stripped = strip_jsonc_comments(input);
    let parsed: serde_json::Value = serde_json::from_str(&stripped).unwrap();
    assert_eq!(parsed["plugins"][0].as_str(), Some("react"));
    assert_eq!(parsed["extends"][0].as_str(), Some("airbnb"));
}
