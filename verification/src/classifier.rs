//! The classifier: converts raw script text into an ordered sequence of
//! `Statement` records, resolving multi-line block regions and extracting
//! delimited call arguments into a side channel of `Announcement` records.

use vstd::prelude::*;
use vstd::string::StrSliceExecFns;

use crate::text::{
    contains_sub, extract_between, extract_between_spec, has_sub, split_lines, split_lines_exec,
    starts_with_spec, str_eq_chars, str_starts_with, trim_chars, trim_spec,
};

verus! {

/// The exact trimmed line that opens a multi-line prayer block.
pub open spec fn block_begin_marker() -> Seq<char> {
    "\u{1f64f} BEGIN PRAYER \u{1f64f}"@
}

/// The exact trimmed line that closes a multi-line prayer block.
pub open spec fn block_end_marker() -> Seq<char> {
    "\u{1f64f} END PRAYER \u{1f64f}"@
}

/// The leading glyph of a single-line devotional comment.
pub open spec fn devotional_marker() -> Seq<char> {
    "\u{1f64f}"@
}

/// The leading token of a plain comment line.
pub open spec fn comment_marker() -> Seq<char> {
    "//"@
}

/// The opening token of an inline revelation call argument.
pub open spec fn revelation_open() -> Seq<char> {
    "revelation(\""@
}

/// The opening token of an inline print call argument.
pub open spec fn print_open() -> Seq<char> {
    "print(\""@
}

/// The closing token of an inline call argument.
pub open spec fn close_token() -> Seq<char> {
    "\")"@
}

/// One classified logical line of script text with derived boolean flags.
#[derive(Debug, Clone, PartialEq, Eq)]
pub struct Statement {
    /// 1-based position of the line in the original source text.
    pub line_number: usize,
    /// The trimmed line content; never empty.
    pub text: String,
    /// The line mentions a revelation-style call.
    pub has_revelation: bool,
    /// The line begins with the miracle keyword.
    pub is_miracle: bool,
    /// The line mentions a covenant or promise keyword.
    pub is_covenant: bool,
}

/// Mathematical model of a `Statement`.
pub struct StatementModel {
    pub line_number: int,
    pub text: Seq<char>,
    pub has_revelation: bool,
    pub is_miracle: bool,
    pub is_covenant: bool,
}

impl View for Statement {
    type V = StatementModel;

    open spec fn view(&self) -> StatementModel {
        StatementModel {
            line_number: self.line_number as int,
            text: self.text@,
            has_revelation: self.has_revelation,
            is_miracle: self.is_miracle,
            is_covenant: self.is_covenant,
        }
    }
}

/// The revelation flag of a trimmed line.
pub open spec fn flag_revelation(t: Seq<char>) -> bool {
    has_sub(t, "revelation"@)
}

/// The miracle flag of a trimmed line.
pub open spec fn flag_miracle(t: Seq<char>) -> bool {
    starts_with_spec(t, "miracle"@)
}

/// The covenant flag of a trimmed line.
pub open spec fn flag_covenant(t: Seq<char>) -> bool {
    has_sub(t, "covenant"@) || has_sub(t, "promise"@)
}

/// The statement record for the trimmed line `t` at 1-based line `n`.
pub open spec fn statement_model(n: int, t: Seq<char>) -> StatementModel {
    StatementModel {
        line_number: n,
        text: t,
        has_revelation: flag_revelation(t),
        is_miracle: flag_miracle(t),
        is_covenant: flag_covenant(t),
    }
}

/// How the scanner treats one physical line.
#[derive(Debug, Clone, Copy, PartialEq, Eq, Structural)]
pub enum LineClass {
    /// Trimmed to nothing; dropped.
    Blank,
    /// Exactly the block-begin marker.
    BlockBegin,
    /// Exactly the block-end marker.
    BlockEnd,
    /// Inside a block region; dropped whatever its content.
    Suppressed,
    /// A single-line devotional comment; fully consumed.
    Devotional,
    /// A plain comment.
    Comment,
    /// A code line; becomes exactly one statement.
    Code,
}

/// Classification of one trimmed line given the block-scanner state.
pub open spec fn class_of(t: Seq<char>, inside: bool) -> LineClass {
    if t.len() == 0 {
        LineClass::Blank
    } else if t == block_begin_marker() {
        LineClass::BlockBegin
    } else if t == block_end_marker() {
        LineClass::BlockEnd
    } else if inside {
        LineClass::Suppressed
    } else if starts_with_spec(t, devotional_marker()) {
        LineClass::Devotional
    } else if starts_with_spec(t, comment_marker()) {
        LineClass::Comment
    } else {
        LineClass::Code
    }
}

/// The scanner state after one trimmed line.
pub open spec fn step_state(t: Seq<char>, inside: bool) -> bool {
    match class_of(t, inside) {
        LineClass::BlockBegin => true,
        LineClass::BlockEnd => false,
        _ => inside,
    }
}

/// Lines whose content is searched for inline call arguments: marker lines
/// and block-region lines are bypassed; devotional, comment and code lines
/// are searched.
pub open spec fn scanned(c: LineClass) -> bool {
    c is Devotional || c is Comment || c is Code
}

/// The statements produced from `lines[k..]`, entering with scanner state
/// `inside`.
pub open spec fn classify_from(lines: Seq<Seq<char>>, k: int, inside: bool) -> Seq<StatementModel>
    decreases lines.len() - k,
{
    if k < 0 || k >= lines.len() {
        Seq::empty()
    } else {
        let t = trim_spec(lines[k]);
        let rest = classify_from(lines, k + 1, step_state(t, inside));
        if class_of(t, inside) is Code {
            seq![statement_model(k + 1, t)] + rest
        } else {
            rest
        }
    }
}

/// The statement sequence that classification yields for `text`.
pub open spec fn classify_spec(text: Seq<char>) -> Seq<StatementModel> {
    classify_from(split_lines(text), 0, false)
}

/// The kind of an inline call whose argument was extracted.
#[derive(Debug, Clone, Copy, PartialEq, Eq, Structural)]
pub enum AnnouncementKind {
    Revelation,
    Print,
}

/// One extracted inline call argument, associated with its line.
#[derive(Debug, Clone, PartialEq, Eq)]
pub struct Announcement {
    /// 1-based position of the line the argument was extracted from.
    pub line_number: usize,
    pub kind: AnnouncementKind,
    /// The text between the opening and closing tokens.
    pub message: String,
}

/// Mathematical model of an `Announcement`.
pub struct AnnouncementModel {
    pub line_number: int,
    pub kind: AnnouncementKind,
    pub message: Seq<char>,
}

impl View for Announcement {
    type V = AnnouncementModel;

    open spec fn view(&self) -> AnnouncementModel {
        AnnouncementModel {
            line_number: self.line_number as int,
            kind: self.kind,
            message: self.message@,
        }
    }
}

/// The announcements one scanned trimmed line at 1-based line `n`
/// contributes: a revelation extraction, then a print extraction, each only
/// when both of its delimiters are present.
pub open spec fn line_announcements(t: Seq<char>, n: int) -> Seq<AnnouncementModel> {
    let rev = match extract_between_spec(t, revelation_open(), close_token()) {
        Some(m) => seq![
            AnnouncementModel { line_number: n, kind: AnnouncementKind::Revelation, message: m },
        ],
        None => Seq::empty(),
    };
    let pri = match extract_between_spec(t, print_open(), close_token()) {
        Some(m) => seq![
            AnnouncementModel { line_number: n, kind: AnnouncementKind::Print, message: m },
        ],
        None => Seq::empty(),
    };
    rev + pri
}

/// The announcements produced from `lines[k..]`, entering with scanner
/// state `inside`.
pub open spec fn announce_from(lines: Seq<Seq<char>>, k: int, inside: bool) -> Seq<
    AnnouncementModel,
>
    decreases lines.len() - k,
{
    if k < 0 || k >= lines.len() {
        Seq::empty()
    } else {
        let t = trim_spec(lines[k]);
        let rest = announce_from(lines, k + 1, step_state(t, inside));
        if scanned(class_of(t, inside)) {
            line_announcements(t, k + 1) + rest
        } else {
            rest
        }
    }
}

/// The announcement sequence that classification yields for `text`.
pub open spec fn announcements_spec(text: Seq<char>) -> Seq<AnnouncementModel> {
    announce_from(split_lines(text), 0, false)
}

/// The full result of one classification pass.
#[derive(Debug, Clone, PartialEq, Eq)]
pub struct Classification {
    pub statements: Vec<Statement>,
    pub announcements: Vec<Announcement>,
}

/// Classifies raw script text into statements and announcements. Empty
/// input yields empty sequences; classification itself never fails.
pub fn classify(source: &str) -> (r: Classification)
    ensures
        r.statements@.map_values(|s: Statement| s@) == classify_spec(source@),
        r.announcements@.map_values(|a: Announcement| a@) == announcements_spec(source@),
{
    let lines = split_lines_exec(source);
    let ghost lseq = split_lines(source@);
    let mut statements: Vec<Statement> = Vec::new();
    let mut announcements: Vec<Announcement> = Vec::new();
    let mut inside = false;
    let mut k: usize = 0;
    while k < lines.len()
        invariant
            k <= lines@.len(),
            lines@.map_values(|x: &str| x@) == lseq,
            lseq == split_lines(source@),
            statements@.map_values(|s: Statement| s@) + classify_from(lseq, k as int, inside)
                == classify_spec(source@),
            announcements@.map_values(|a: Announcement| a@) + announce_from(
                lseq,
                k as int,
                inside,
            ) == announcements_spec(source@),
        decreases lines@.len() - k,
    {
        let line: &str = lines[k];
        proof {
            assert(lines@.map_values(|x: &str| x@)[k as int] == line@);
        }
        let t = trim_chars(line);
        let ghost tm = trim_spec(lseq[k as int]);
        let ghost ins0 = inside;
        let ghost stmts0 = statements@.map_values(|s: Statement| s@);
        let ghost anns0 = announcements@.map_values(|a: Announcement| a@);
        if t.unicode_len() == 0 {
            // blank: dropped unconditionally
        } else if str_eq_chars(t, "\u{1f64f} BEGIN PRAYER \u{1f64f}") {
            inside = true;
        } else if str_eq_chars(t, "\u{1f64f} END PRAYER \u{1f64f}") {
            inside = false;
        } else if inside {
            // block region content: suppressed whatever it holds
        } else {
            // scanned line: attempt both extractions, then classify
            if let Some(message) = extract_between(t, "revelation(\"", "\")") {
                let ann = Announcement {
                    line_number: k + 1,
                    kind: AnnouncementKind::Revelation,
                    message,
                };
                let ghost before = announcements@.map_values(|a: Announcement| a@);
                announcements.push(ann);
                proof {
                    assert(announcements@.map_values(|a: Announcement| a@) =~= before.push(ann@));
                }
            }
            if let Some(message) = extract_between(t, "print(\"", "\")") {
                let ann = Announcement {
                    line_number: k + 1,
                    kind: AnnouncementKind::Print,
                    message,
                };
                let ghost before = announcements@.map_values(|a: Announcement| a@);
                announcements.push(ann);
                proof {
                    assert(announcements@.map_values(|a: Announcement| a@) =~= before.push(ann@));
                }
            }
            proof {
                assert(announcements@.map_values(|a: Announcement| a@) =~= anns0
                    + line_announcements(tm, k as int + 1));
            }
            if str_starts_with(t, "\u{1f64f}") {
                // devotional comment: fully consumed
            } else if str_starts_with(t, "//") {
                // plain comment
            } else {
                let stmt = Statement {
                    line_number: k + 1,
                    text: t.to_owned(),
                    has_revelation: contains_sub(t, "revelation"),
                    is_miracle: str_starts_with(t, "miracle"),
                    is_covenant: contains_sub(t, "covenant") || contains_sub(t, "promise"),
                };
                proof {
                    assert(stmt@ == statement_model(k as int + 1, tm));
                }
                let ghost before = statements@.map_values(|s: Statement| s@);
                statements.push(stmt);
                proof {
                    assert(statements@.map_values(|s: Statement| s@) =~= before.push(stmt@));
                }
            }
        }
        proof {
            let cls = class_of(tm, ins0);
            assert(step_state(tm, ins0) == inside);
            if cls is Code {
                assert(stmts0 + classify_from(lseq, k as int, ins0) =~= (stmts0 + seq![
                    statement_model(k as int + 1, tm),
                ]) + classify_from(lseq, k as int + 1, inside));
                assert(statements@.map_values(|s: Statement| s@) =~= stmts0 + seq![
                    statement_model(k as int + 1, tm),
                ]);
            } else {
                assert(statements@.map_values(|s: Statement| s@) =~= stmts0);
                assert(stmts0 + classify_from(lseq, k as int, ins0) =~= stmts0 + classify_from(
                    lseq,
                    k as int + 1,
                    inside,
                ));
            }
            if scanned(cls) {
                assert(anns0 + announce_from(lseq, k as int, ins0) =~= (anns0
                    + line_announcements(tm, k as int + 1)) + announce_from(
                    lseq,
                    k as int + 1,
                    inside,
                ));
            } else {
                assert(announcements@.map_values(|a: Announcement| a@) =~= anns0);
                assert(anns0 + announce_from(lseq, k as int, ins0) =~= anns0 + announce_from(
                    lseq,
                    k as int + 1,
                    inside,
                ));
            }
        }
        k += 1;
    }
    proof {
        assert(statements@.map_values(|s: Statement| s@) =~= classify_spec(source@));
        assert(announcements@.map_values(|a: Announcement| a@) =~= announcements_spec(source@));
    }
    Classification { statements, announcements }
}

/// Scanner state before the 0-based line `k`, starting outside any block at
/// the beginning of the text.
pub open spec fn state_at(lines: Seq<Seq<char>>, k: int) -> bool
    decreases k,
{
    if k <= 0 {
        false
    } else {
        step_state(trim_spec(lines[k - 1]), state_at(lines, k - 1))
    }
}

proof fn lemma_state_stays_inside(lines: Seq<Seq<char>>, m: int, j: int)
    requires
        0 <= m <= j <= lines.len(),
        state_at(lines, m),
        forall|l: int| m <= l < j ==> trim_spec(#[trigger] lines[l]) != block_end_marker(),
    ensures
        state_at(lines, j),
    decreases j - m,
{
    if m < j {
        assert(state_at(lines, m + 1) == step_state(trim_spec(lines[m]), state_at(lines, m)));
        lemma_state_stays_inside(lines, m + 1, j);
    }
}

proof fn lemma_classify_from_state(lines: Seq<Seq<char>>, k: int, i: int)
    requires
        0 <= k <= lines.len(),
        0 <= i < classify_from(lines, k, state_at(lines, k)).len(),
    ensures
        ({
            let s = classify_from(lines, k, state_at(lines, k))[i];
            &&& k + 1 <= s.line_number <= lines.len()
            &&& class_of(trim_spec(lines[s.line_number - 1]), state_at(lines, s.line_number - 1))
                is Code
            &&& s == statement_model(s.line_number, trim_spec(lines[s.line_number - 1]))
        }),
    decreases lines.len() - k,
{
    let inside = state_at(lines, k);
    let t = trim_spec(lines[k]);
    assert(state_at(lines, k + 1) == step_state(t, inside));
    if class_of(t, inside) is Code {
        if i > 0 {
            lemma_classify_from_state(lines, k + 1, i - 1);
        }
    } else {
        lemma_classify_from_state(lines, k + 1, i);
    }
}

/// Block suppression invariant: no statement is emitted for a line lying
/// strictly between an unmatched block-begin marker line and the next
/// block-end marker line -- or, when no end marker follows, for any later
/// line at all.
pub proof fn lemma_block_suppression(text: Seq<char>, i: int, j: int)
    requires
        0 <= i < j < split_lines(text).len(),
        trim_spec(split_lines(text)[i]) == block_begin_marker(),
        forall|m: int| i < m < j ==> trim_spec(#[trigger] split_lines(text)[m])
            != block_end_marker(),
    ensures
        forall|k: int| 0 <= k < classify_spec(text).len() ==> (#[trigger] classify_spec(
            text,
        )[k]).line_number != j + 1,
{
    let lines = split_lines(text);
    reveal_strlit("\u{1f64f} BEGIN PRAYER \u{1f64f}");
    assert(state_at(lines, i + 1) == step_state(trim_spec(lines[i]), state_at(lines, i)));
    assert(class_of(trim_spec(lines[i]), state_at(lines, i)) is BlockBegin);
    lemma_state_stays_inside(lines, i + 1, j);
    assert(classify_spec(text) == classify_from(lines, 0, state_at(lines, 0)));
    assert forall|k: int|
        0 <= k < classify_spec(text).len() implies (#[trigger] classify_spec(
        text,
    )[k]).line_number != j + 1 by {
        if classify_spec(text)[k].line_number == j + 1 {
            lemma_classify_from_state(lines, 0, k);
        }
    }
}

/// Number of lines in `lines[k..]` whose trimmed content is non-empty.
pub open spec fn count_nonblank_from(lines: Seq<Seq<char>>, k: int) -> int
    decreases lines.len() - k,
{
    if k < 0 || k >= lines.len() {
        0
    } else {
        (if trim_spec(lines[k]).len() > 0 {
            1int
        } else {
            0int
        }) + count_nonblank_from(lines, k + 1)
    }
}

/// Number of lines of `text` whose trimmed content is non-empty.
pub open spec fn count_nonblank_lines(text: Seq<char>) -> int {
    count_nonblank_from(split_lines(text), 0)
}

proof fn lemma_classify_from_count(lines: Seq<Seq<char>>, k: int, inside: bool)
    requires
        0 <= k <= lines.len(),
    ensures
        classify_from(lines, k, inside).len() <= count_nonblank_from(lines, k),
    decreases lines.len() - k,
{
    if k < lines.len() {
        lemma_classify_from_count(lines, k + 1, step_state(trim_spec(lines[k]), inside));
    }
}

/// Classification emits no more statements than the text has non-empty
/// trimmed lines.
pub proof fn lemma_statement_count(text: Seq<char>)
    ensures
        classify_spec(text).len() <= count_nonblank_lines(text),
{
    lemma_classify_from_count(split_lines(text), 0, false);
}

proof fn lemma_classify_from_invariant(lines: Seq<Seq<char>>, k: int, inside: bool)
    requires
        0 <= k <= lines.len(),
    ensures
        forall|a: int| 0 <= a < classify_from(lines, k, inside).len() ==> k + 1 <= (
        #[trigger] classify_from(lines, k, inside)[a]).line_number <= lines.len()
            && classify_from(lines, k, inside)[a].text.len() > 0,
        forall|a: int, b: int|
            0 <= a < b < classify_from(lines, k, inside).len() ==> (#[trigger] classify_from(
                lines,
                k,
                inside,
            )[a]).line_number < (#[trigger] classify_from(lines, k, inside)[b]).line_number,
    decreases lines.len() - k,
{
    if 0 <= k < lines.len() {
        let t = trim_spec(lines[k]);
        lemma_classify_from_invariant(lines, k + 1, step_state(t, inside));
        let r = classify_from(lines, k, inside);
        let rest = classify_from(lines, k + 1, step_state(t, inside));
        if class_of(t, inside) is Code {
            assert(r == seq![statement_model(k + 1, t)] + rest);
            assert forall|a: int|
                0 <= a < r.len() implies k + 1 <= (#[trigger] r[a]).line_number <= lines.len()
                && r[a].text.len() > 0 by {
                if a > 0 {
                    assert(r[a] == rest[a - 1]);
                }
            }
            assert forall|a: int, b: int|
                0 <= a < b < r.len() implies (#[trigger] r[a]).line_number < (
            #[trigger] r[b]).line_number by {
                assert(r[b] == rest[b - 1]);
                if a > 0 {
                    assert(r[a] == rest[a - 1]);
                }
            }
        } else {
            assert(r == rest);
        }
    }
}

/// Statement sequence invariant: line numbers are 1-based, bounded by the
/// number of lines, and strictly increasing in input order, and no
/// statement text is empty.
pub proof fn lemma_statement_invariant(text: Seq<char>)
    ensures
        forall|a: int| 0 <= a < classify_spec(text).len() ==> 1 <= (#[trigger] classify_spec(
        text,
        )[a]).line_number <= split_lines(text).len() && classify_spec(text)[a].text.len() > 0,
        forall|a: int, b: int|
            0 <= a < b < classify_spec(text).len() ==> (#[trigger] classify_spec(
                text,
            )[a]).line_number < (#[trigger] classify_spec(text)[b]).line_number,
{
    lemma_classify_from_invariant(split_lines(text), 0, false);
}

/// Classification is stateless: two passes over the same text yield the
/// same statement sequence. No hidden state survives a call.
pub proof fn lemma_classify_idempotent(
    text: Seq<char>,
    r1: Seq<StatementModel>,
    r2: Seq<StatementModel>,
)
    requires
        r1 == classify_spec(text),
        r2 == classify_spec(text),
    ensures
        r1 == r2,
{
}

} // verus!
