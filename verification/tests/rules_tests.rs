use divinepl::classifier::classify;
use divinepl::rules::{check, check_covenants, confess, has_miracles, penance, RuleId, Severity};

#[test]
fn unblessed_function_is_fatal_in_check() {
    let r = classify("function foo() { }");
    let outcome = check(&r.statements, false);
    let v = outcome.expect_err("an unblessed function must violate");
    assert_eq!(v.rule, RuleId::DeclarationBlessing);
    assert_eq!(v.line_number, 1);
    assert_eq!(v.message, "Function lacks divine blessing");
}

#[test]
fn unblessed_function_is_venial_in_confess() {
    let text = "function foo() { }";
    let r = classify(text);
    let rep = confess(&r.statements, text);
    assert_eq!(rep.mortal_count, 0);
    assert!(rep.venial_count >= 1);
    let d = &rep.diagnostics[0];
    assert_eq!(d.rule, RuleId::DeclarationBlessing);
    assert_eq!(d.severity, Severity::Venial);
    assert_eq!(d.line_number, 1);
}

#[test]
fn blessed_function_passes_check() {
    let r = classify("bless function foo() { }\ngenesis function main() { }\nmiracle function m() { }");
    let outcome = check(&r.statements, false);
    let warnings = outcome.expect("blessed functions commit no violation");
    assert_eq!(warnings.len(), 0);
}

#[test]
fn let_satan_is_one_mortal_diagnostic() {
    let text = "let satan = 1";
    let r = classify(text);
    let rep = confess(&r.statements, text);
    let mortals: Vec<_> =
        rep.diagnostics.iter().filter(|d| d.severity == Severity::Mortal).collect();
    assert_eq!(mortals.len(), 1);
    assert_eq!(mortals[0].rule, RuleId::ForbiddenIdentifier);
    assert_eq!(mortals[0].line_number, 1);
    assert_eq!(rep.mortal_count, 1);
}

#[test]
fn var_satan_is_one_mortal_diagnostic() {
    let text = "var satan = 1";
    let r = classify(text);
    let rep = confess(&r.statements, text);
    let mortals: Vec<_> =
        rep.diagnostics.iter().filter(|d| d.severity == Severity::Mortal).collect();
    assert_eq!(mortals.len(), 1);
    assert_eq!(mortals[0].rule, RuleId::ForbiddenIdentifier);
    assert_eq!(mortals[0].line_number, 1);
}

#[test]
fn forbidden_identifiers_are_fatal_in_check() {
    let r = classify("let demon = summon()");
    let v = check(&r.statements, false).expect_err("unholy names must violate");
    assert_eq!(v.rule, RuleId::ForbiddenIdentifier);
    assert_eq!(v.message, "Unholy variable name detected");
}

#[test]
fn kill_process_is_fatal_without_permissive_flag() {
    let r = classify("kill(childProcess)");
    let v = check(&r.statements, false).expect_err("killing a process must violate");
    assert_eq!(v.rule, RuleId::DestructiveOperation);
    assert_eq!(v.line_number, 1);
}

#[test]
fn kill_process_downgrades_to_warning_when_permissive() {
    let r = classify("kill(childProcess)");
    let warnings = check(&r.statements, true).expect("permissive mode only warns");
    assert_eq!(warnings.len(), 1);
    assert_eq!(warnings[0].rule, RuleId::DestructiveOperation);
    assert_eq!(warnings[0].severity, Severity::Venial);
    assert_eq!(warnings[0].line_number, 1);
}

#[test]
fn kill_without_process_keyword_is_no_destructive_match() {
    let r = classify("kill the lights");
    let warnings = check(&r.statements, false).expect("no process keyword, no violation");
    assert_eq!(warnings.len(), 0);
}

#[test]
fn kill_process_is_always_mortal_in_confess() {
    let text = "kill(childProcess)";
    let r = classify(text);
    let rep = confess(&r.statements, text);
    assert_eq!(rep.mortal_count, 1);
    assert_eq!(rep.diagnostics[0].rule, RuleId::DestructiveOperation);
}

#[test]
fn incomplete_trinity_is_a_warning_not_a_violation() {
    let r = classify("trinity of father and son");
    let warnings = check(&r.statements, false).expect("triad incompleteness only warns");
    assert_eq!(warnings.len(), 1);
    assert_eq!(warnings[0].rule, RuleId::TriadCompleteness);
    assert_eq!(warnings[0].line_number, 1);
}

#[test]
fn complete_trinity_warns_nothing() {
    let r = classify("trinity of father, son and holy ghost");
    let warnings = check(&r.statements, false).expect("complete triads pass");
    assert_eq!(warnings.len(), 0);
}

#[test]
fn check_evaluates_rules_in_catalog_order() {
    // The forbidden identifier sits on the earlier line, but the
    // declaration-blessing rule comes first in the catalog.
    let r = classify("let satan = 1\nfunction f()");
    let v = check(&r.statements, false).expect_err("both lines sin");
    assert_eq!(v.rule, RuleId::DeclarationBlessing);
    assert_eq!(v.line_number, 2);
}

#[test]
fn check_returns_first_matching_statement_of_a_fatal_rule() {
    let r = classify("function f()\nfunction g()");
    let v = check(&r.statements, false).expect_err("both lines sin");
    assert_eq!(v.line_number, 1);
}

#[test]
fn legacy_var_without_let_is_venial() {
    let text = "var old = 1";
    let r = classify(text);
    let rep = confess(&r.statements, text);
    assert!(rep.diagnostics.iter().any(|d| d.rule == RuleId::LegacyDeclaration
        && d.severity == Severity::Venial
        && d.line_number == 1));
}

#[test]
fn var_beside_let_is_not_legacy() {
    let text = "var x = 1; let y = 2";
    let r = classify(text);
    let rep = confess(&r.statements, text);
    assert!(!rep.diagnostics.iter().any(|d| d.rule == RuleId::LegacyDeclaration));
}

#[test]
fn unbounded_loops_are_venial() {
    let text = "while(true) { }\nwhile (true) { }";
    let r = classify(text);
    let rep = confess(&r.statements, text);
    let loops: Vec<_> =
        rep.diagnostics.iter().filter(|d| d.rule == RuleId::UnboundedLoop).collect();
    assert_eq!(loops.len(), 2);
    assert_eq!(loops[0].line_number, 1);
    assert_eq!(loops[1].line_number, 2);
    assert_eq!(loops[0].severity, Severity::Venial);
    assert_eq!(loops[0].message, "Infinite loops show lack of faith in termination");
}

#[test]
fn try_without_any_confession_is_mortal() {
    let text = "try { risky() }";
    let r = classify(text);
    let rep = confess(&r.statements, text);
    assert!(rep.diagnostics.iter().any(|d| d.rule == RuleId::UnconfessedErrorHandling
        && d.severity == Severity::Mortal
        && d.line_number == 1));
    assert!(!rep.passed());
}

#[test]
fn try_with_confession_anywhere_in_the_text_is_clean() {
    // The document-level condition reads the whole raw text, comments
    // included.
    let text = "try { risky() }\n// confess thy sins";
    let r = classify(text);
    let rep = confess(&r.statements, text);
    assert!(!rep.diagnostics.iter().any(|d| d.rule == RuleId::UnconfessedErrorHandling));
}

#[test]
fn confess_orders_diagnostics_by_rule_then_statement() {
    let text = "function f()\nvar x = 1";
    let r = classify(text);
    let rep = confess(&r.statements, text);
    assert_eq!(rep.diagnostics.len(), 2);
    assert_eq!(rep.diagnostics[0].rule, RuleId::DeclarationBlessing);
    assert_eq!(rep.diagnostics[0].line_number, 1);
    assert_eq!(rep.diagnostics[1].rule, RuleId::LegacyDeclaration);
    assert_eq!(rep.diagnostics[1].line_number, 2);
}

#[test]
fn report_counts_tally_the_diagnostics() {
    let text = "function f()\nvar satan = 1\ntry { }";
    let r = classify(text);
    let rep = confess(&r.statements, text);
    let venial =
        rep.diagnostics.iter().filter(|d| d.severity == Severity::Venial).count();
    let mortal =
        rep.diagnostics.iter().filter(|d| d.severity == Severity::Mortal).count();
    assert_eq!(rep.venial_count, venial);
    assert_eq!(rep.mortal_count, mortal);
    assert_eq!(rep.total(), rep.diagnostics.len());
    assert!(!rep.passed());
}

#[test]
fn sinless_script_passes_confession() {
    let text = "bless function pure() { }\nlet light = 1";
    let r = classify(text);
    let rep = confess(&r.statements, text);
    assert_eq!(rep.total(), 0);
    assert!(rep.passed());
}

#[test]
fn check_and_confess_agree_on_shared_predicates() {
    // Rules 1-3 match the same statements in both modes.
    let text = "let satan = 1";
    let r = classify(text);
    let v = check(&r.statements, false).expect_err("forbidden identifier");
    let rep = confess(&r.statements, text);
    assert!(rep.diagnostics.iter().any(|d| d.rule == v.rule && d.line_number == v.line_number));
}

#[test]
fn penance_is_selected_by_category_presence() {
    assert_eq!(penance(false, false).len(), 0);
    let venial_only = penance(true, false);
    assert_eq!(venial_only.len(), 2);
    assert_eq!(venial_only[0], "Replace 'var' with 'let' and add proper blessings to functions");
    let mortal_only = penance(false, true);
    assert_eq!(mortal_only.len(), 3);
    assert_eq!(mortal_only[0], "Rename blasphemous variables to virtuous alternatives");
    let both = penance(true, true);
    assert_eq!(both.len(), 5);
    assert_eq!(both[0], venial_only[0]);
    assert_eq!(both[2], mortal_only[0]);
}

#[test]
fn covenant_lines_are_reported_in_order() {
    let r = classify("covenant(\"a\")\nplain\npromise kept");
    let lines = check_covenants(&r.statements);
    assert_eq!(lines, vec![1, 3]);
}

#[test]
fn covenant_detection_never_blocks() {
    let r = classify("nothing pledged here");
    let lines = check_covenants(&r.statements);
    assert!(lines.is_empty());
}

#[test]
fn miracle_detection() {
    let with = classify("miracle heal() { }");
    assert!(has_miracles(&with.statements));
    let without = classify("plain code");
    assert!(!has_miracles(&without.statements));
}

#[test]
fn suppressed_sins_never_reach_the_rules() {
    let text = format!(
        "\u{1f64f} BEGIN PRAYER \u{1f64f}\nlet satan = 1\n\u{1f64f} END PRAYER \u{1f64f}"
    );
    let r = classify(&text);
    assert!(check(&r.statements, false).is_ok());
    let rep = confess(&r.statements, &text);
    assert_eq!(rep.total(), 0);
}
