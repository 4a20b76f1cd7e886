use pointer_kinds::SrcSpan;
use pointer_kinds::span::check_span;
use pointer_kinds::span::lines_offsets;
use pointer_kinds::span::span_to_str;

fn span(start_line: usize, start_col: usize, end_line: usize, end_col: usize) -> SrcSpan {
    SrcSpan { start_line, start_col, end_line, end_col }
}

#[test]
fn offsets_of_empty_text() {
    let src = String::new();
    assert_eq!(lines_offsets(&src), vec![0]);
}

#[test]
fn offsets_of_two_lines() {
    let src = String::from("ab\ncd\n");
    assert_eq!(lines_offsets(&src), vec![0, 3, 6]);
}

#[test]
fn offsets_without_trailing_newline() {
    let src = String::from("one\ntwo");
    assert_eq!(lines_offsets(&src), vec![0, 4]);
}

#[test]
fn offsets_count_characters_not_bytes() {
    // Two-byte characters still advance the offset by one each.
    let src = String::from("é\nx");
    assert_eq!(lines_offsets(&src), vec![0, 2]);
}

#[test]
fn recover_single_line_span() {
    let src = String::from("let x: i32 = 5;");
    let table = lines_offsets(&src);
    assert_eq!(span_to_str(&span(1, 7, 1, 10), src.as_str(), &table), "i32");
}

#[test]
fn recover_multi_line_span() {
    let src = String::from("ab\ncd\nef");
    let table = lines_offsets(&src);
    assert_eq!(span_to_str(&span(1, 1, 3, 1), src.as_str(), &table), "b\ncd\ne");
}

#[test]
fn recover_span_on_second_line() {
    let src = String::from("first\nOption<&u8>\n");
    let table = lines_offsets(&src);
    assert_eq!(span_to_str(&span(2, 0, 2, 11), src.as_str(), &table), "Option<&u8>");
}

#[test]
fn span_bounds_are_checked() {
    let src = String::from("ab\ncd");
    let table = lines_offsets(&src);
    assert!(check_span(&span(1, 0, 2, 2), src.as_str(), &table));
    // Line beyond the text.
    assert!(!check_span(&span(3, 0, 3, 1), src.as_str(), &table));
    // Line zero does not exist: lines are 1-indexed.
    assert!(!check_span(&span(0, 0, 1, 1), src.as_str(), &table));
    // Column runs past the end of the text.
    assert!(!check_span(&span(2, 0, 2, 9), src.as_str(), &table));
    // Start after end.
    assert!(!check_span(&span(2, 2, 1, 0), src.as_str(), &table));
}
