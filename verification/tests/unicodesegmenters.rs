use envlang::unicodesegmenters::segment_graphemes;

#[test]
fn handles_crlf_as_single_grapheme() {
    let input = "line1\r\nline2\nline3\r\nline4";
    let segments = segment_graphemes(input);

    assert!(segments.contains(&"\r\n".to_string()));

    let newlines: Vec<&String> = segments.iter()
        .filter(|&s| s == "\r\n" || s == "\n")
        .collect();
    assert_eq!(newlines.len(), 3);
}

#[test]
fn handles_empty_string() {
    let input = "";
    let segments = segment_graphemes(input);
    assert!(segments.is_empty());
}

#[test]
fn handles_unicode_combining_characters() {
    let input = "e\u{301}";
    let segments = segment_graphemes(input);
    assert_eq!(segments.len(), 1);
    assert_eq!(segments[0], "e\u{301}");
}

#[test]
fn handles_emoji_sequences() {
    let input = "😺";
    let segments = segment_graphemes(input);
    assert_eq!(segments.len(), 1);
    assert_eq!(segments[0], "😺");
}

#[test]
fn preserves_input_sequence() {
    let input = "Hello, 世界!";
    let segments = segment_graphemes(input);
    assert_eq!(segments.join(""), input);
}
