use divinepl::extract_between;
use divinepl::transform::transform_secular;

#[test]
fn extract_between_takes_inner_text() {
    let r = extract_between("say revelation(\"lo\") now", "revelation(\"", "\")");
    assert_eq!(r, Some("lo".to_string()));
}

#[test]
fn extract_between_missing_open_is_none() {
    assert_eq!(extract_between("nothing here", "open(", ")"), None);
}

#[test]
fn extract_between_missing_close_is_none() {
    assert_eq!(extract_between("open(unfinished", "open(", ")"), None);
}

#[test]
fn extract_between_close_only_counts_after_open() {
    // The closing token before the opening token does not end the span.
    assert_eq!(extract_between(") open(x)", "open(", ")"), Some("x".to_string()));
}

#[test]
fn extract_between_uses_first_open_and_first_close() {
    let r = extract_between("revelation(\"a revelation(\"b\")", "revelation(\"", "\")");
    assert_eq!(r, Some("a revelation(\"b".to_string()));
}

#[test]
fn extract_between_empty_span() {
    assert_eq!(extract_between("open()", "open(", ")"), Some(String::new()));
}

#[test]
fn transform_blesses_functions_and_ascends_returns() {
    let out = transform_secular("function foo() { return 1; }");
    assert_eq!(out, "bless function foo() { ascend with 1; }");
}

#[test]
fn transform_rewrites_the_whole_table() {
    let out = transform_secular("class A { } try { console.log(x) } catch (e) { } for (i) { }");
    assert_eq!(
        out,
        "covenant class A { } attempt_salvation { revelation(x) } forgive (e) { } preach (i) { }"
    );
}

#[test]
fn transform_replaces_every_occurrence() {
    let out = transform_secular("return a; return b;");
    assert_eq!(out, "ascend with a; ascend with b;");
}

#[test]
fn transform_leaves_sacred_text_alone() {
    let out = transform_secular("bless x");
    assert_eq!(out, "bless x");
}
