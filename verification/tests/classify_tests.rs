use line_counter::classify::{parse_file_string, CommentMode, CommentType};

fn single_line(opening: &str) -> CommentType {
    CommentType {
        mode: CommentMode::SingleLine,
        opening_pattern: opening.as_bytes().to_vec(),
        closing_pattern: b"\n".to_vec(),
    }
}

fn multi_line(opening: &str, closing: &str) -> CommentType {
    CommentType {
        mode: CommentMode::MultiLine,
        opening_pattern: opening.as_bytes().to_vec(),
        closing_pattern: closing.as_bytes().to_vec(),
    }
}

fn classify(text: &str, patterns: &Vec<CommentType>) -> (u32, u32, u32, u32) {
    parse_file_string(&text.as_bytes().to_vec(), patterns)
}

#[test]
fn empty_text_all_zero() {
    let no_patterns: Vec<CommentType> = Vec::new();
    assert_eq!(classify("", &no_patterns), (0, 0, 0, 0));
    let patterns = vec![single_line("//"), multi_line("/*", "*/")];
    assert_eq!(classify("", &patterns), (0, 0, 0, 0));
}

#[test]
fn unterminated_text_counts_nothing() {
    let no_patterns: Vec<CommentType> = Vec::new();
    assert_eq!(classify("abc", &no_patterns), (0, 0, 0, 0));
}

#[test]
fn terminated_line_counts_one_program_line() {
    let no_patterns: Vec<CommentType> = Vec::new();
    assert_eq!(classify("abc\n", &no_patterns), (1, 0, 0, 0));
}

#[test]
fn two_terminators_two_blank_lines() {
    let no_patterns: Vec<CommentType> = Vec::new();
    assert_eq!(classify("\n\n", &no_patterns), (0, 2, 0, 0));
}

#[test]
fn whitespace_only_line_is_blank() {
    let no_patterns: Vec<CommentType> = Vec::new();
    assert_eq!(classify("  \t\n", &no_patterns), (0, 1, 0, 0));
}

#[test]
fn program_line_with_trailing_comment() {
    let patterns = vec![single_line("//")];
    assert_eq!(classify("x=1; // note\n", &patterns), (1, 0, 0, 1));
}

#[test]
fn comment_only_line() {
    let patterns = vec![single_line("//")];
    assert_eq!(classify("// only a comment\n", &patterns), (0, 0, 1, 1));
}

#[test]
fn multi_line_comment_with_trailing_code() {
    let patterns = vec![multi_line("/*", "*/")];
    assert_eq!(classify("/*ab*/x\n", &patterns), (1, 0, 0, 1));
}

#[test]
fn multi_line_comment_spanning_two_lines() {
    // The first terminator falls inside the comment on a line without
    // program content; the close lands on an examined position; the second
    // terminator ends a line that got content after the close.
    let patterns = vec![multi_line("/*", "*/")];
    assert_eq!(classify("/*\nab */x\n", &patterns), (1, 0, 1, 1));
}

#[test]
fn multi_line_close_missed_on_skipped_offset() {
    // While a comment is open the scan advances by the closing pattern's
    // whole length even on a failed match, so a close that starts inside a
    // skipped span is never seen: here "*/" begins one byte into a skipped
    // pair and the comment stays open to the end of the text. The second
    // terminator falls inside a skipped span as well and is not examined.
    let patterns = vec![multi_line("/*", "*/")];
    assert_eq!(classify("/* a\nb */\n", &patterns), (0, 0, 1, 1));
}

#[test]
fn tie_break_first_declared_pattern_wins() {
    // Both openings occur at position 0; the first-declared single-line
    // pattern wins, so the comment ends at the first terminator and the
    // trailing "yE" becomes program content.
    let patterns = vec![single_line("<"), multi_line("<<", "E")];
    assert_eq!(classify("<<x\nyE\n", &patterns), (1, 0, 1, 1));
}

#[test]
fn tie_break_declaration_order_reversed() {
    // The same text with the declaration order swapped: now the multi-line
    // pattern wins, the comment runs to the "E", and the last line is blank.
    let patterns = vec![multi_line("<<", "E"), single_line("<")];
    assert_eq!(classify("<<x\nyE\n", &patterns), (0, 1, 1, 1));
}

#[test]
fn classify_twice_same_result() {
    let patterns = vec![single_line("//"), multi_line("/*", "*/")];
    let text = "a\n// b\n/*ab*/x\n\n";
    let first = classify(text, &patterns);
    let second = classify(text, &patterns);
    assert_eq!(first, second);
}

#[test]
fn terminators_all_attributed() {
    // With single-byte effective closings nothing is skipped: the three
    // line counters account for every terminator in the text.
    let patterns = vec![single_line("//")];
    let (program, blank, comment, comments) = classify("a\n// b\n\n", &patterns);
    assert_eq!((program, blank, comment, comments), (1, 1, 1, 1));
    let terminators = "a\n// b\n\n".bytes().filter(|b| *b == b'\n').count() as u32;
    assert_eq!(program + blank + comment, terminators);
}

#[test]
fn opening_pattern_chars_before_failed_match_are_content() {
    // A lone "/" never opens a comment but does set line content.
    let patterns = vec![single_line("//")];
    assert_eq!(classify("/\n", &patterns), (1, 0, 0, 0));
}

#[test]
fn unterminated_single_line_comment() {
    // The comment is opened but no terminator follows: the occurrence is
    // counted, no line is.
    let patterns = vec![single_line("//")];
    assert_eq!(classify("// abc", &patterns), (0, 0, 0, 1));
}

#[test]
fn unterminated_multi_line_comment() {
    let patterns = vec![multi_line("/*", "*/")];
    assert_eq!(classify("/*x", &patterns), (0, 0, 0, 1));
}
