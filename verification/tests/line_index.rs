use celsp::builtins::is_builtin;
use celsp::line_index::LineIndex;
use celsp::text::{find_bytes, same_text};

fn position(text: &str, offset: usize) -> (u32, u32) {
    let position = LineIndex::new(text.to_string()).offset_to_position(offset);
    (position.line, position.character)
}

#[test]
fn offsets_become_positions() {
    assert_eq!(position("ab\ncd", 0), (0, 0));
    assert_eq!(position("ab\ncd", 2), (0, 2));
    assert_eq!(position("ab\ncd", 3), (1, 0));
    assert_eq!(position("ab\ncd", 5), (1, 2));
    assert_eq!(position("\n\n", 2), (2, 0));
    assert_eq!(position("", 0), (0, 0));
}

#[test]
fn offsets_past_the_end_are_at_the_end() {
    assert_eq!(position("ab\ncd", 100), (1, 2));
}

#[test]
fn columns_count_utf16_units() {
    // One unit for each of the first two characters, two for the third.
    let text = "\u{E9}\u{20AC}\u{1F600}x";
    assert_eq!(position(text, 2), (0, 1));
    assert_eq!(position(text, 5), (0, 2));
    assert_eq!(position(text, 9), (0, 4));
    assert_eq!(position(text, 10), (0, 5));
}

#[test]
fn positions_are_in_the_order_of_offsets() {
    let text = "a\n\u{1F600}b\n\nc";
    let positions: Vec<(u32, u32)> = (0..=text.len()).map(|i| position(text, i)).collect();
    for pair in positions.windows(2) {
        assert!(pair[0] <= pair[1]);
    }
}

#[test]
fn the_source_is_kept() {
    assert_eq!(LineIndex::new("a\nb".to_string()).source(), "a\nb");
}

#[test]
fn names_of_the_language_are_known() {
    for name in ["size", "has", "exists_one", "getMilliseconds", "duration", "matches"] {
        assert!(is_builtin(name), "{name}");
    }
    for name in ["", "Size", "sizes", "labels"] {
        assert!(!is_builtin(name), "{name}");
    }
}

#[test]
fn texts_are_compared_by_their_characters() {
    assert!(same_text("", ""));
    assert!(same_text("h\u{E9}", "h\u{E9}"));
    assert!(!same_text("ab", "abc"));
    assert!(!same_text("abc", "abd"));
}

#[test]
fn the_first_occurrence_is_found() {
    assert_eq!(find_bytes(b"abcabc", b"bc", 0, 6), Some(1));
    assert_eq!(find_bytes(b"abcabc", b"bc", 2, 6), Some(4));
    assert_eq!(find_bytes(b"abcabc", b"bc", 2, 5), None);
    assert_eq!(find_bytes(b"abcabc", b"bc", 0, 7), None);
}
