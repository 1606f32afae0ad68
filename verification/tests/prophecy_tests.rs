use divinepl::classifier::classify;
use divinepl::prophecy::{count_complex_statements, prophesy, prophesy_with_picks, NoteSource};

const CORPUS: [&str; 8] = [
    "The path of deployment shall be fraught with environmental differences. Prepare with containerization.",
    "A great refactoring shall be needed by the third version. Plan accordingly.",
    "Security vulnerabilities shall manifest if input validation is neglected.",
    "The user interface shall require redesign as requirements evolve.",
    "Test coverage will prove insufficient in areas not yet considered.",
    "Technical debt shall accumulate in the areas of error handling.",
    "Documentation shall become outdated unless integrated with the development process.",
    "Dependencies shall age and require updating, bringing both blessings and trials.",
];

#[test]
fn heuristics_then_three_corpus_notes() {
    let text = "while (x) { data }";
    let r = classify(text);
    let picks = vec![0, 0, 0];
    let notes = prophesy_with_picks(&r.statements, text, &picks);
    assert_eq!(notes.len(), 5);
    assert_eq!(notes[0].source, NoteSource::Heuristic);
    assert_eq!(
        notes[0].text,
        "Infinite loop risk detected. Add a divine exit condition to prevent eternal execution."
    );
    assert_eq!(notes[1].source, NoteSource::Heuristic);
    assert_eq!(
        notes[1].text,
        "Future security concerns: add divine validation to all data inputs to prevent unholy injections."
    );
    for i in 2..5 {
        assert_eq!(notes[i].source, NoteSource::RandomCorpus);
        assert_eq!(notes[i].text, CORPUS[0]);
    }
}

#[test]
fn picks_select_their_corpus_entries_in_draw_order() {
    let text = "quiet";
    let r = classify(text);
    let picks = vec![1, 7, 3];
    let notes = prophesy_with_picks(&r.statements, text, &picks);
    assert_eq!(notes.len(), 3);
    assert_eq!(notes[0].text, CORPUS[1]);
    assert_eq!(notes[1].text, CORPUS[7]);
    assert_eq!(notes[2].text, CORPUS[3]);
}

#[test]
fn duplicate_picks_are_permitted() {
    let text = "quiet";
    let r = classify(text);
    let picks = vec![5, 5, 5];
    let notes = prophesy_with_picks(&r.statements, text, &picks);
    assert_eq!(notes.len(), 3);
    assert!(notes.iter().all(|n| n.text == CORPUS[5]));
}

#[test]
fn prophecy_is_reproducible_under_fixed_picks() {
    let text = "while (x) { let y = data }";
    let r = classify(text);
    let picks = vec![2, 4, 2];
    let a = prophesy_with_picks(&r.statements, text, &picks);
    let b = prophesy_with_picks(&r.statements, text, &picks);
    assert_eq!(a, b);
}

#[test]
fn loop_heuristic_needs_a_missing_break() {
    let text = "while (x) { break }";
    let r = classify(text);
    let notes = prophesy_with_picks(&r.statements, text, &vec![0, 0, 0]);
    assert_eq!(notes.len(), 3);
    assert!(notes.iter().all(|n| n.source == NoteSource::RandomCorpus));
}

#[test]
fn covenant_heuristic_fires_on_let_without_covenant() {
    let text = "let x = 1";
    let r = classify(text);
    let notes = prophesy_with_picks(&r.statements, text, &vec![0, 0, 0]);
    assert_eq!(notes.len(), 4);
    assert_eq!(
        notes[0].text,
        "Future maintainers will appreciate constants declared as 'covenant' for important values."
    );
}

#[test]
fn module_heuristic_needs_more_than_one_hundred_lines() {
    let long_text = "x\n".repeat(101);
    let r = classify(&long_text);
    let notes = prophesy_with_picks(&r.statements, &long_text, &vec![6, 6, 6]);
    assert_eq!(notes.len(), 4);
    assert_eq!(
        notes[0].text,
        "As this code grows, consider divine modularization through the Holy Trinity pattern."
    );
    let short_text = "x\n".repeat(100);
    let r2 = classify(&short_text);
    let notes2 = prophesy_with_picks(&r2.statements, &short_text, &vec![6, 6, 6]);
    assert_eq!(notes2.len(), 3);
}

#[test]
fn prophesy_draws_three_notes_from_the_corpus() {
    let text = "while (x) { data }";
    let r = classify(text);
    let deterministic = prophesy_with_picks(&r.statements, text, &vec![0, 0, 0]);
    let heuristic_count = deterministic.len() - 3;
    let notes = prophesy(&r.statements, text);
    assert_eq!(notes.len(), heuristic_count + 3);
    for i in 0..heuristic_count {
        assert_eq!(notes[i], deterministic[i]);
    }
    for i in heuristic_count..notes.len() {
        assert_eq!(notes[i].source, NoteSource::RandomCorpus);
        assert!(CORPUS.contains(&notes[i].text.as_str()));
    }
}

#[test]
fn complex_statement_census() {
    let long_fn = format!("function f() {{ {} }}", "x".repeat(100));
    let text = format!("{long_fn}\nfunction short() {{ }}\nlet plain = 1");
    let r = classify(&text);
    assert_eq!(count_complex_statements(&r.statements), 1);
}

#[test]
fn arrow_functions_count_as_complex_when_long() {
    let long_arrow = format!("const f = () => {{ {} }}", "y".repeat(100));
    let r = classify(&long_arrow);
    assert_eq!(count_complex_statements(&r.statements), 1);
}
