//! The prophecy heuristic generator: a fixed catalog of presence/absence
//! heuristics over the raw text, followed by exactly three notes drawn with
//! replacement from a fixed corpus of generic risk statements. Randomness
//! is injected: the deterministic core takes the picks as arguments, and a
//! convenience entry point draws them from the process's generator.

use rand::Rng;
use vstd::prelude::*;
use vstd::string::StrSliceExecFns;

use crate::classifier::{Statement, StatementModel};
use crate::text::{contains_sub, has_sub, split_lines, split_lines_exec};

verus! {

/// Where one prophecy note came from.
#[derive(Debug, Clone, Copy, PartialEq, Eq, Structural)]
pub enum NoteSource {
    /// A presence/absence heuristic over the input.
    Heuristic,
    /// A random draw from the fixed corpus.
    RandomCorpus,
}

/// One speculative, non-blocking note about future risk.
#[derive(Debug, Clone, PartialEq, Eq)]
pub struct ProphecyNote {
    pub source: NoteSource,
    pub text: String,
}

/// Mathematical model of a `ProphecyNote`.
pub struct ProphecyNoteModel {
    pub source: NoteSource,
    pub text: Seq<char>,
}

impl View for ProphecyNote {
    type V = ProphecyNoteModel;

    open spec fn view(&self) -> ProphecyNoteModel {
        ProphecyNoteModel { source: self.source, text: self.text@ }
    }
}

/// The note contributed when the text loops without a break.
pub open spec fn loop_heuristic(raw: Seq<char>) -> Seq<ProphecyNoteModel> {
    if has_sub(raw, "while"@) && !has_sub(raw, "break"@) {
        seq![
            ProphecyNoteModel {
                source: NoteSource::Heuristic,
                text: "Infinite loop risk detected. Add a divine exit condition to prevent eternal execution."@,
            },
        ]
    } else {
        Seq::empty()
    }
}

/// The note contributed when the text declares without a covenant.
pub open spec fn covenant_heuristic(raw: Seq<char>) -> Seq<ProphecyNoteModel> {
    if has_sub(raw, "let "@) && !has_sub(raw, "covenant"@) {
        seq![
            ProphecyNoteModel {
                source: NoteSource::Heuristic,
                text: "Future maintainers will appreciate constants declared as 'covenant' for important values."@,
            },
        ]
    } else {
        Seq::empty()
    }
}

/// The note contributed when a long text has no modules.
pub open spec fn module_heuristic(raw: Seq<char>) -> Seq<ProphecyNoteModel> {
    if split_lines(raw).len() > 100 && !has_sub(raw, "module"@) {
        seq![
            ProphecyNoteModel {
                source: NoteSource::Heuristic,
                text: "As this code grows, consider divine modularization through the Holy Trinity pattern."@,
            },
        ]
    } else {
        Seq::empty()
    }
}

/// The note contributed when the text handles data without validation.
pub open spec fn validation_heuristic(raw: Seq<char>) -> Seq<ProphecyNoteModel> {
    if has_sub(raw, "data"@) && !has_sub(raw, "validate"@) {
        seq![
            ProphecyNoteModel {
                source: NoteSource::Heuristic,
                text: "Future security concerns: add divine validation to all data inputs to prevent unholy injections."@,
            },
        ]
    } else {
        Seq::empty()
    }
}

/// All heuristic-triggered notes, in catalog order. The predicates are
/// independent and not mutually exclusive.
pub open spec fn heuristic_notes(raw: Seq<char>) -> Seq<ProphecyNoteModel> {
    loop_heuristic(raw) + covenant_heuristic(raw) + module_heuristic(raw) + validation_heuristic(
        raw,
    )
}

/// The fixed corpus of generic risk statements.
pub open spec fn corpus() -> Seq<Seq<char>> {
    seq![
        "The path of deployment shall be fraught with environmental differences. Prepare with containerization."@,
        "A great refactoring shall be needed by the third version. Plan accordingly."@,
        "Security vulnerabilities shall manifest if input validation is neglected."@,
        "The user interface shall require redesign as requirements evolve."@,
        "Test coverage will prove insufficient in areas not yet considered."@,
        "Technical debt shall accumulate in the areas of error handling."@,
        "Documentation shall become outdated unless integrated with the development process."@,
        "Dependencies shall age and require updating, bringing both blessings and trials."@,
    ]
}

/// The fixed corpus entry at `i`.
pub fn corpus_text(i: usize) -> (s: String)
    requires
        i < 8,
    ensures
        s@ == corpus()[i as int],
{
    let r: &str = if i == 0 {
        "The path of deployment shall be fraught with environmental differences. Prepare with containerization."
    } else if i == 1 {
        "A great refactoring shall be needed by the third version. Plan accordingly."
    } else if i == 2 {
        "Security vulnerabilities shall manifest if input validation is neglected."
    } else if i == 3 {
        "The user interface shall require redesign as requirements evolve."
    } else if i == 4 {
        "Test coverage will prove insufficient in areas not yet considered."
    } else if i == 5 {
        "Technical debt shall accumulate in the areas of error handling."
    } else if i == 6 {
        "Documentation shall become outdated unless integrated with the development process."
    } else {
        "Dependencies shall age and require updating, bringing both blessings and trials."
    };
    r.to_owned()
}

/// The corpus note for pick `p`.
pub open spec fn corpus_note(p: int) -> ProphecyNoteModel {
    ProphecyNoteModel { source: NoteSource::RandomCorpus, text: corpus()[p] }
}

/// The corpus notes for `picks[k..]`, in order.
pub open spec fn corpus_notes_from(picks: Seq<int>, k: int) -> Seq<ProphecyNoteModel>
    decreases picks.len() - k,
{
    if k < 0 || k >= picks.len() {
        Seq::empty()
    } else {
        seq![corpus_note(picks[k])] + corpus_notes_from(picks, k + 1)
    }
}

/// The full prophecy for `raw` under the given corpus picks: the heuristic
/// notes in catalog order, then one corpus note per pick, in draw order.
pub open spec fn prophesy_spec(raw: Seq<char>, picks: Seq<int>) -> Seq<ProphecyNoteModel> {
    heuristic_notes(raw) + corpus_notes_from(picks, 0)
}

/// A statement that mentions a function form and runs long.
pub open spec fn complex_statement(s: StatementModel) -> bool {
    (has_sub(s.text, "function"@) || has_sub(s.text, "=>"@)) && s.text.len() > 100
}

/// Number of complex statements in `stmts[k..]`.
pub open spec fn count_complex_from(stmts: Seq<StatementModel>, k: int) -> int
    decreases stmts.len() - k,
{
    if k < 0 || k >= stmts.len() {
        0
    } else {
        (if complex_statement(stmts[k]) {
            1int
        } else {
            0int
        }) + count_complex_from(stmts, k + 1)
    }
}

/// The length-and-keyword census over the statements: how many mention a
/// function form and run long. The prophecy pass counts these statements
/// but deliberately emits no note for them; the census is offered here on
/// its own instead.
pub fn count_complex_statements(statements: &Vec<Statement>) -> (n: usize)
    ensures
        n as int == count_complex_from(statements@.map_values(|s: Statement| s@), 0),
{
    let ghost stmts = statements@.map_values(|s: Statement| s@);
    let mut n: usize = 0;
    let mut i: usize = 0;
    while i < statements.len()
        invariant
            i <= stmts.len(),
            n <= i,
            stmts == statements@.map_values(|s: Statement| s@),
            n + count_complex_from(stmts, i as int) == count_complex_from(stmts, 0),
        decreases stmts.len() - i,
    {
        proof {
            assert(stmts[i as int] == statements@[i as int]@);
        }
        let text = statements[i].text.as_str();
        if (contains_sub(text, "function") || contains_sub(text, "=>")) && text.unicode_len()
            > 100 {
            n += 1;
        }
        i += 1;
    }
    n
}

/// Deterministic prophecy: the heuristic notes in catalog order, then one
/// corpus note per pick, in order. The statement sequence is accepted
/// alongside the raw text; the current note catalog draws on the raw text
/// alone (see `count_complex_statements` for the census the pass withholds).
pub fn prophesy_with_picks(
    statements: &Vec<Statement>,
    raw: &str,
    picks: &Vec<usize>,
) -> (notes: Vec<ProphecyNote>)
    requires
        picks@.len() == 3,
        forall|i: int| 0 <= i < picks@.len() ==> (#[trigger] picks@[i]) < 8,
    ensures
        notes@.map_values(|n: ProphecyNote| n@) == prophesy_spec(
            raw@,
            picks@.map_values(|u: usize| u as int),
        ),
{
    let _ = statements;
    let mut notes: Vec<ProphecyNote> = Vec::new();
    if contains_sub(raw, "while") && !contains_sub(raw, "break") {
        notes.push(
            ProphecyNote {
                source: NoteSource::Heuristic,
                text: "Infinite loop risk detected. Add a divine exit condition to prevent eternal execution.".to_owned(),
            },
        );
    }
    proof {
        assert(notes@.map_values(|n: ProphecyNote| n@) =~= loop_heuristic(raw@));
    }
    if contains_sub(raw, "let ") && !contains_sub(raw, "covenant") {
        notes.push(
            ProphecyNote {
                source: NoteSource::Heuristic,
                text: "Future maintainers will appreciate constants declared as 'covenant' for important values.".to_owned(),
            },
        );
    }
    proof {
        assert(notes@.map_values(|n: ProphecyNote| n@) =~= loop_heuristic(raw@)
            + covenant_heuristic(raw@));
    }
    let line_count = split_lines_exec(raw).len();
    proof {
        assert(line_count == split_lines(raw@).len());
    }
    if line_count > 100 && !contains_sub(raw, "module") {
        notes.push(
            ProphecyNote {
                source: NoteSource::Heuristic,
                text: "As this code grows, consider divine modularization through the Holy Trinity pattern.".to_owned(),
            },
        );
    }
    proof {
        assert(notes@.map_values(|n: ProphecyNote| n@) =~= loop_heuristic(raw@)
            + covenant_heuristic(raw@) + module_heuristic(raw@));
    }
    if contains_sub(raw, "data") && !contains_sub(raw, "validate") {
        notes.push(
            ProphecyNote {
                source: NoteSource::Heuristic,
                text: "Future security concerns: add divine validation to all data inputs to prevent unholy injections.".to_owned(),
            },
        );
    }
    proof {
        assert(notes@.map_values(|n: ProphecyNote| n@) =~= heuristic_notes(raw@));
    }
    let ghost picks_int = picks@.map_values(|u: usize| u as int);
    let mut pi: usize = 0;
    while pi < picks.len()
        invariant
            pi <= picks_int.len(),
            picks_int == picks@.map_values(|u: usize| u as int),
            forall|i: int| 0 <= i < picks@.len() ==> (#[trigger] picks@[i]) < 8,
            heuristic_notes(raw@) + corpus_notes_from(picks_int, 0) == notes@.map_values(
                |n: ProphecyNote| n@,
            ) + corpus_notes_from(picks_int, pi as int),
        decreases picks_int.len() - pi,
    {
        proof {
            assert(picks_int[pi as int] == picks@[pi as int] as int);
        }
        let note = ProphecyNote { source: NoteSource::RandomCorpus, text: corpus_text(picks[pi]) };
        let ghost before = notes@.map_values(|n: ProphecyNote| n@);
        notes.push(note);
        proof {
            assert(notes@.map_values(|n: ProphecyNote| n@) =~= before.push(note@));
            assert(before + corpus_notes_from(picks_int, pi as int) =~= before.push(note@)
                + corpus_notes_from(picks_int, pi as int + 1));
        }
        pi += 1;
    }
    proof {
        assert(corpus_notes_from(picks_int, picks_int.len() as int) =~= Seq::<
            ProphecyNoteModel,
        >::empty());
        assert(notes@.map_values(|n: ProphecyNote| n@) =~= prophesy_spec(raw@, picks_int));
    }
    notes
}

/// Relies on rand::Rng::gen_range over the half-open range 0..n: the
/// result is always strictly below n, and the call returns normally
/// whenever the range is non-empty.
#[verifier::external_body]
fn pick_index(n: usize) -> (r: usize)
    requires
        n > 0,
    ensures
        r < n,
{
    rand::thread_rng().gen_range(0..n)
}

/// Prophecy with ambient randomness: the heuristic notes, then exactly
/// three corpus notes drawn independently and with replacement from the
/// process's random generator. Whatever the draws, the result is the
/// prophecy for some sequence of three in-range picks; for a reproducible
/// result supply the picks through `prophesy_with_picks`.
pub fn prophesy(statements: &Vec<Statement>, raw: &str) -> (notes: Vec<ProphecyNote>)
    ensures
        (exists|picks: Seq<int>|
            #![auto]
            picks.len() == 3 && (forall|i: int|
                0 <= i < picks.len() ==> 0 <= #[trigger] picks[i] < 8) && notes@.map_values(
                |n: ProphecyNote| n@,
            ) == prophesy_spec(raw@, picks)),
{
    let mut picks: Vec<usize> = Vec::new();
    picks.push(pick_index(8));
    picks.push(pick_index(8));
    picks.push(pick_index(8));
    let notes = prophesy_with_picks(statements, raw, &picks);
    proof {
        let picks_int = picks@.map_values(|u: usize| u as int);
        assert(picks_int.len() == 3 && (forall|i: int|
            0 <= i < picks_int.len() ==> 0 <= #[trigger] picks_int[i] < 8) && notes@.map_values(
            |n: ProphecyNote| n@,
        ) == prophesy_spec(raw@, picks_int));
    }
    notes
}

/// The shape of any prophecy: the heuristic notes come first, unchanged,
/// and the notes after them are exactly three, each drawn from the fixed
/// corpus and marked as such.
pub proof fn lemma_prophesy_shape(raw: Seq<char>, picks: Seq<int>)
    requires
        picks.len() == 3,
        forall|i: int| 0 <= i < picks.len() ==> 0 <= #[trigger] picks[i] < 8,
    ensures
        prophesy_spec(raw, picks).len() == heuristic_notes(raw).len() + 3,
        forall|i: int| 0 <= i < heuristic_notes(raw).len() ==> #[trigger] prophesy_spec(
            raw,
            picks,
        )[i] == heuristic_notes(raw)[i],
        forall|i: int|
            heuristic_notes(raw).len() <= i < prophesy_spec(raw, picks).len() ==> (
            #[trigger] prophesy_spec(raw, picks)[i]).source is RandomCorpus && corpus().contains(
                prophesy_spec(raw, picks)[i].text,
            ),
{
    assert(corpus_notes_from(picks, 3) =~= Seq::<ProphecyNoteModel>::empty());
    assert(corpus_notes_from(picks, 2) =~= seq![corpus_note(picks[2])]);
    assert(corpus_notes_from(picks, 1) =~= seq![corpus_note(picks[1]), corpus_note(picks[2])]);
    assert(corpus_notes_from(picks, 0) =~= seq![
        corpus_note(picks[0]),
        corpus_note(picks[1]),
        corpus_note(picks[2]),
    ]);
    assert forall|i: int|
        heuristic_notes(raw).len() <= i < prophesy_spec(raw, picks).len() implies (
    #[trigger] prophesy_spec(raw, picks)[i]).source is RandomCorpus && corpus().contains(
        prophesy_spec(raw, picks)[i].text,
    ) by {
        let p = picks[i - heuristic_notes(raw).len()];
        assert(prophesy_spec(raw, picks)[i] == corpus_note(p));
        assert(corpus()[p] == corpus_note(p).text);
    }
}

/// Prophecy is reproducible: the same raw text together with the same pick
/// sequence yields the same note sequence.
pub proof fn lemma_prophesy_deterministic(
    raw: Seq<char>,
    picks: Seq<int>,
    r1: Seq<ProphecyNoteModel>,
    r2: Seq<ProphecyNoteModel>,
)
    requires
        r1 == prophesy_spec(raw, picks),
        r2 == prophesy_spec(raw, picks),
    ensures
        r1 == r2,
{
}

} // verus!
