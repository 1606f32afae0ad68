use divinepl::classifier::{classify, AnnouncementKind};

const BEGIN: &str = "\u{1f64f} BEGIN PRAYER \u{1f64f}";
const END: &str = "\u{1f64f} END PRAYER \u{1f64f}";

#[test]
fn empty_input_yields_nothing() {
    let r = classify("");
    assert_eq!(r.statements.len(), 0);
    assert_eq!(r.announcements.len(), 0);
}

#[test]
fn basic_lines_become_statements() {
    let r = classify("let x = 1\n\nmiracle heal() { }\n// a comment\n");
    assert_eq!(r.statements.len(), 2);
    assert_eq!(r.statements[0].line_number, 1);
    assert_eq!(r.statements[0].text, "let x = 1");
    assert!(!r.statements[0].is_miracle);
    assert!(!r.statements[0].has_revelation);
    assert!(!r.statements[0].is_covenant);
    assert_eq!(r.statements[1].line_number, 3);
    assert_eq!(r.statements[1].text, "miracle heal() { }");
    assert!(r.statements[1].is_miracle);
}

#[test]
fn lines_are_trimmed_including_carriage_returns() {
    let r = classify("  spaced out  \r\n\ttabbed\r\n");
    assert_eq!(r.statements.len(), 2);
    assert_eq!(r.statements[0].text, "spaced out");
    assert_eq!(r.statements[1].text, "tabbed");
}

#[test]
fn flags_are_independent_substring_tests() {
    let r = classify("covenant(\"kept\")\npromise kept\nrevelation now\nmiracle revelation covenant");
    assert!(r.statements[0].is_covenant);
    assert!(r.statements[1].is_covenant);
    assert!(r.statements[2].has_revelation);
    let all = &r.statements[3];
    assert!(all.is_miracle && all.has_revelation && all.is_covenant);
}

#[test]
fn miracle_flag_requires_leading_keyword() {
    let r = classify("a miracle happened");
    assert_eq!(r.statements.len(), 1);
    assert!(!r.statements[0].is_miracle);
}

#[test]
fn unterminated_block_suppresses_rest_of_file() {
    let input = format!("{BEGIN}\none\ntwo\nthree");
    let r = classify(&input);
    assert_eq!(r.statements.len(), 0);
}

#[test]
fn block_end_resumes_classification() {
    let input = format!("before\n{BEGIN}\nhidden words\n{END}\nafter");
    let r = classify(&input);
    assert_eq!(r.statements.len(), 2);
    assert_eq!(r.statements[0].text, "before");
    assert_eq!(r.statements[0].line_number, 1);
    assert_eq!(r.statements[1].text, "after");
    assert_eq!(r.statements[1].line_number, 5);
}

#[test]
fn suppressed_rule_looking_line_never_surfaces() {
    let input = format!("{BEGIN}\nlet satan = 1\n{END}\nlet light = 1");
    let r = classify(&input);
    assert_eq!(r.statements.len(), 1);
    assert_eq!(r.statements[0].text, "let light = 1");
}

#[test]
fn end_marker_outside_block_is_a_noop() {
    let input = format!("{END}\ncode here");
    let r = classify(&input);
    assert_eq!(r.statements.len(), 1);
    assert_eq!(r.statements[0].text, "code here");
    assert_eq!(r.statements[0].line_number, 2);
}

#[test]
fn marker_lines_never_become_statements() {
    let input = format!("{BEGIN}\n{END}");
    let r = classify(&input);
    assert_eq!(r.statements.len(), 0);
    assert_eq!(r.announcements.len(), 0);
}

#[test]
fn devotional_line_is_fully_consumed() {
    let r = classify("\u{1f64f} guide this code\nreal code");
    assert_eq!(r.statements.len(), 1);
    assert_eq!(r.statements[0].text, "real code");
    assert_eq!(r.statements[0].line_number, 2);
}

#[test]
fn comment_line_produces_no_statement() {
    let r = classify("// nothing to see\ncode");
    assert_eq!(r.statements.len(), 1);
    assert_eq!(r.statements[0].text, "code");
}

#[test]
fn revelation_call_is_announced() {
    let r = classify("revelation(\"the end is near\")");
    assert_eq!(r.statements.len(), 1);
    assert_eq!(r.announcements.len(), 1);
    assert_eq!(r.announcements[0].kind, AnnouncementKind::Revelation);
    assert_eq!(r.announcements[0].message, "the end is near");
    assert_eq!(r.announcements[0].line_number, 1);
}

#[test]
fn print_call_is_announced() {
    let r = classify("print(\"hello world\")");
    assert_eq!(r.announcements.len(), 1);
    assert_eq!(r.announcements[0].kind, AnnouncementKind::Print);
    assert_eq!(r.announcements[0].message, "hello world");
}

#[test]
fn one_line_can_announce_both_kinds() {
    let r = classify("revelation(\"a\") print(\"b\")");
    assert_eq!(r.announcements.len(), 2);
    assert_eq!(r.announcements[0].kind, AnnouncementKind::Revelation);
    assert_eq!(r.announcements[0].message, "a");
    assert_eq!(r.announcements[1].kind, AnnouncementKind::Print);
    assert_eq!(r.announcements[1].message, "b");
}

#[test]
fn devotional_line_is_still_scanned_for_announcements() {
    let r = classify("\u{1f64f} revelation(\"hidden in prayer\")");
    assert_eq!(r.statements.len(), 0);
    assert_eq!(r.announcements.len(), 1);
    assert_eq!(r.announcements[0].message, "hidden in prayer");
}

#[test]
fn comment_line_is_still_scanned_for_announcements() {
    let r = classify("// revelation(\"in a comment\")");
    assert_eq!(r.statements.len(), 0);
    assert_eq!(r.announcements.len(), 1);
    assert_eq!(r.announcements[0].message, "in a comment");
}

#[test]
fn block_region_lines_are_not_scanned_for_announcements() {
    let input = format!("{BEGIN}\nrevelation(\"silence\")\n{END}");
    let r = classify(&input);
    assert_eq!(r.announcements.len(), 0);
}

#[test]
fn missing_close_token_extracts_nothing() {
    let r = classify("revelation(\"never closed");
    assert_eq!(r.statements.len(), 1);
    assert_eq!(r.announcements.len(), 0);
}

#[test]
fn extraction_uses_first_open_and_first_close_after_it() {
    let r = classify("revelation(\"a revelation(\"b\")");
    assert_eq!(r.announcements.len(), 1);
    assert_eq!(r.announcements[0].message, "a revelation(\"b");
}

#[test]
fn classify_is_idempotent() {
    let input = format!("one\n{BEGIN}\ntwo\n{END}\nrevelation(\"x\")\n// three");
    let a = classify(&input);
    let b = classify(&input);
    assert_eq!(a, b);
}

#[test]
fn statement_count_bounded_by_nonblank_lines() {
    let input = format!("a\n\nb\n{BEGIN}\nc\n{END}\n// d\n\u{1f64f} e\nf");
    let nonblank = input.lines().filter(|l| !l.trim().is_empty()).count();
    let r = classify(&input);
    assert!(r.statements.len() <= nonblank);
    assert_eq!(r.statements.len(), 3);
}
