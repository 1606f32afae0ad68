//! The rule engine: one ordered catalog of rule predicates, evaluated in
//! two modes. Commandments mode (`check`) is fail-fast: the first match of
//! a rule configured as fatal aborts evaluation; non-fatal matches are
//! returned as warnings. Confession mode (`confess`) is fail-safe: every
//! match becomes a diagnostic and the pass always completes with a report.

use vstd::prelude::*;

use crate::classifier::{Statement, StatementModel};
use crate::text::{contains_sub, has_sub};

verus! {

/// Identifies one rule of the shared catalog.
#[derive(Debug, Clone, Copy, PartialEq, Eq, Structural)]
pub enum RuleId {
    /// A function declaration must carry one of the blessing keywords.
    DeclarationBlessing,
    /// A statement must not mention both the kill and process keywords.
    DestructiveOperation,
    /// A variable must not be declared under a denylisted name.
    ForbiddenIdentifier,
    /// A ternary-pattern mention must name all three sub-keywords.
    TriadCompleteness,
    /// The legacy declaration keyword without the modern one.
    LegacyDeclaration,
    /// An always-true loop condition literal.
    UnboundedLoop,
    /// Legacy error handling while the document never confesses.
    UnconfessedErrorHandling,
}

/// Severity of a diagnostic. The current catalogs map every rule to
/// `Venial` or `Mortal`; `Info` is reserved for informational notes.
#[derive(Debug, Clone, Copy, PartialEq, Eq, Structural)]
pub enum Severity {
    Info,
    Venial,
    Mortal,
}

/// One reported rule match.
#[derive(Debug, Clone, PartialEq, Eq)]
pub struct Diagnostic {
    pub rule: RuleId,
    pub severity: Severity,
    /// 1-based line of the offending statement.
    pub line_number: usize,
    pub message: String,
}

/// Mathematical model of a `Diagnostic`.
pub struct DiagnosticModel {
    pub rule: RuleId,
    pub severity: Severity,
    pub line_number: int,
    pub message: Seq<char>,
}

impl View for Diagnostic {
    type V = DiagnosticModel;

    open spec fn view(&self) -> DiagnosticModel {
        DiagnosticModel {
            rule: self.rule,
            severity: self.severity,
            line_number: self.line_number as int,
            message: self.message@,
        }
    }
}

/// A rule match that terminates commandments-mode evaluation immediately.
#[derive(Debug, Clone, PartialEq, Eq)]
pub struct HardViolation {
    pub rule: RuleId,
    /// 1-based line of the offending statement.
    pub line_number: usize,
    pub message: String,
}

/// Mathematical model of a `HardViolation`.
pub struct HardViolationModel {
    pub rule: RuleId,
    pub line_number: int,
    pub message: Seq<char>,
}

impl View for HardViolation {
    type V = HardViolationModel;

    open spec fn view(&self) -> HardViolationModel {
        HardViolationModel {
            rule: self.rule,
            line_number: self.line_number as int,
            message: self.message@,
        }
    }
}

/// The predicate of one rule over one statement's text. Both evaluation
/// modes share these predicates.
pub open spec fn rule_matches(r: RuleId, t: Seq<char>) -> bool {
    match r {
        RuleId::DeclarationBlessing => has_sub(t, "function"@) && !(has_sub(t, "bless"@)
            || has_sub(t, "genesis"@) || has_sub(t, "miracle"@)),
        RuleId::DestructiveOperation => has_sub(t, "kill"@) && has_sub(t, "Process"@),
        RuleId::ForbiddenIdentifier => has_sub(t, "let devil"@) || has_sub(t, "let satan"@)
            || has_sub(t, "let demon"@) || has_sub(t, "var devil"@) || has_sub(t, "var satan"@)
            || has_sub(t, "var demon"@),
        RuleId::TriadCompleteness => has_sub(t, "trinity"@) && !(has_sub(t, "father"@) && has_sub(
            t,
            "son"@,
        ) && has_sub(t, "holy"@)),
        RuleId::LegacyDeclaration => has_sub(t, "var"@) && !has_sub(t, "let"@),
        RuleId::UnboundedLoop => has_sub(t, "while(true)"@) || has_sub(t, "while (true)"@),
        RuleId::UnconfessedErrorHandling => has_sub(t, "try"@),
    }
}

/// The document-level gate of one rule: the unconfessed-error-handling rule
/// fires only when the whole raw text lacks the confession keyword; every
/// other rule is gated by the statement alone.
pub open spec fn doc_gate(r: RuleId, raw: Seq<char>) -> bool {
    match r {
        RuleId::UnconfessedErrorHandling => !has_sub(raw, "confess"@),
        _ => true,
    }
}

/// The rules commandments mode evaluates, in order.
pub open spec fn check_catalog() -> Seq<RuleId> {
    seq![
        RuleId::DeclarationBlessing,
        RuleId::DestructiveOperation,
        RuleId::ForbiddenIdentifier,
        RuleId::TriadCompleteness,
    ]
}

/// The rules confession mode evaluates, in order.
pub open spec fn confess_catalog() -> Seq<RuleId> {
    seq![
        RuleId::DeclarationBlessing,
        RuleId::DestructiveOperation,
        RuleId::ForbiddenIdentifier,
        RuleId::LegacyDeclaration,
        RuleId::UnboundedLoop,
        RuleId::UnconfessedErrorHandling,
    ]
}

/// Whether a rule match aborts commandments mode. The destructive-operation
/// rule downgrades to a reported warning under the permissive flag.
pub open spec fn check_fatal(r: RuleId, permissive: bool) -> bool {
    match r {
        RuleId::DeclarationBlessing => true,
        RuleId::DestructiveOperation => !permissive,
        RuleId::ForbiddenIdentifier => true,
        _ => false,
    }
}

/// The fixed severity a rule carries in confession mode.
pub open spec fn confess_severity(r: RuleId) -> Severity {
    match r {
        RuleId::DeclarationBlessing => Severity::Venial,
        RuleId::DestructiveOperation => Severity::Mortal,
        RuleId::ForbiddenIdentifier => Severity::Mortal,
        RuleId::TriadCompleteness => Severity::Venial,
        RuleId::LegacyDeclaration => Severity::Venial,
        RuleId::UnboundedLoop => Severity::Venial,
        RuleId::UnconfessedErrorHandling => Severity::Mortal,
    }
}

/// The human-readable message of one rule.
pub open spec fn rule_message(r: RuleId) -> Seq<char> {
    match r {
        RuleId::DeclarationBlessing => "Function lacks divine blessing"@,
        RuleId::DestructiveOperation => "Thou shalt not kill child processes"@,
        RuleId::ForbiddenIdentifier => "Unholy variable name detected"@,
        RuleId::TriadCompleteness => "Trinity pattern is incomplete: father, son, and holy ghost are required"@,
        RuleId::LegacyDeclaration => "Use 'let' instead of secular 'var'"@,
        RuleId::UnboundedLoop => "Infinite loops show lack of faith in termination"@,
        RuleId::UnconfessedErrorHandling => "Errors must be confessed, not caught"@,
    }
}

/// The diagnostic one rule match produces.
pub open spec fn diag_model(r: RuleId, sev: Severity, n: int) -> DiagnosticModel {
    DiagnosticModel { rule: r, severity: sev, line_number: n, message: rule_message(r) }
}

/// The violation one fatal rule match produces.
pub open spec fn violation_model(r: RuleId, n: int) -> HardViolationModel {
    HardViolationModel { rule: r, line_number: n, message: rule_message(r) }
}

/// Index of the first statement at or after `k` matching rule `r`, or -1.
pub open spec fn first_match_from(r: RuleId, stmts: Seq<StatementModel>, k: int) -> int
    decreases stmts.len() - k,
{
    if k < 0 || k >= stmts.len() {
        -1
    } else if rule_matches(r, stmts[k].text) {
        k
    } else {
        first_match_from(r, stmts, k + 1)
    }
}

/// The diagnostics rule `r` produces over `stmts[k..]`, in statement order.
pub open spec fn rule_diags_from(
    r: RuleId,
    sev: Severity,
    stmts: Seq<StatementModel>,
    k: int,
) -> Seq<DiagnosticModel>
    decreases stmts.len() - k,
{
    if k < 0 || k >= stmts.len() {
        Seq::empty()
    } else {
        let rest = rule_diags_from(r, sev, stmts, k + 1);
        if rule_matches(r, stmts[k].text) {
            seq![diag_model(r, sev, stmts[k].line_number)] + rest
        } else {
            rest
        }
    }
}

/// Commandments-mode evaluation from catalog position `j` on: the first
/// fatal match aborts with a violation; warnings accumulate in catalog
/// order, then statement order within a rule.
pub open spec fn check_from(stmts: Seq<StatementModel>, permissive: bool, j: int) -> Result<
    Seq<DiagnosticModel>,
    HardViolationModel,
>
    decreases check_catalog().len() - j,
{
    if j < 0 || j >= check_catalog().len() {
        Ok(Seq::empty())
    } else {
        let r = check_catalog()[j];
        if check_fatal(r, permissive) {
            let m = first_match_from(r, stmts, 0);
            if m >= 0 {
                Err(violation_model(r, stmts[m].line_number))
            } else {
                check_from(stmts, permissive, j + 1)
            }
        } else {
            match check_from(stmts, permissive, j + 1) {
                Ok(ds) => Ok(rule_diags_from(r, Severity::Venial, stmts, 0) + ds),
                Err(v) => Err(v),
            }
        }
    }
}

/// The outcome of commandments mode over a statement sequence.
pub open spec fn check_spec(stmts: Seq<StatementModel>, permissive: bool) -> Result<
    Seq<DiagnosticModel>,
    HardViolationModel,
> {
    check_from(stmts, permissive, 0)
}

/// Confession-mode diagnostics from catalog position `j` on: every gated
/// rule contributes all of its matches, in catalog order, then statement
/// order within a rule.
pub open spec fn confess_from(stmts: Seq<StatementModel>, raw: Seq<char>, j: int) -> Seq<
    DiagnosticModel,
>
    decreases confess_catalog().len() - j,
{
    if j < 0 || j >= confess_catalog().len() {
        Seq::empty()
    } else {
        let r = confess_catalog()[j];
        let here = if doc_gate(r, raw) {
            rule_diags_from(r, confess_severity(r), stmts, 0)
        } else {
            Seq::empty()
        };
        here + confess_from(stmts, raw, j + 1)
    }
}

/// The diagnostics confession mode produces over a statement sequence and
/// the raw text it came from.
pub open spec fn confess_spec(stmts: Seq<StatementModel>, raw: Seq<char>) -> Seq<
    DiagnosticModel,
> {
    confess_from(stmts, raw, 0)
}

/// Number of diagnostics in `ds[k..]` carrying severity `sev`.
pub open spec fn count_severity_from(ds: Seq<DiagnosticModel>, sev: Severity, k: int) -> int
    decreases ds.len() - k,
{
    if k < 0 || k >= ds.len() {
        0
    } else {
        (if ds[k].severity == sev {
            1int
        } else {
            0int
        }) + count_severity_from(ds, sev, k + 1)
    }
}

/// Number of diagnostics carrying severity `sev`.
pub open spec fn count_severity(ds: Seq<DiagnosticModel>, sev: Severity) -> int {
    count_severity_from(ds, sev, 0)
}

/// Evaluates one rule's predicate against one statement text.
pub fn rule_matches_on(r: RuleId, text: &str) -> (b: bool)
    ensures
        b == rule_matches(r, text@),
{
    match r {
        RuleId::DeclarationBlessing => contains_sub(text, "function") && !(contains_sub(
            text,
            "bless",
        ) || contains_sub(text, "genesis") || contains_sub(text, "miracle")),
        RuleId::DestructiveOperation => contains_sub(text, "kill") && contains_sub(
            text,
            "Process",
        ),
        RuleId::ForbiddenIdentifier => contains_sub(text, "let devil") || contains_sub(
            text,
            "let satan",
        ) || contains_sub(text, "let demon") || contains_sub(text, "var devil") || contains_sub(
            text,
            "var satan",
        ) || contains_sub(text, "var demon"),
        RuleId::TriadCompleteness => contains_sub(text, "trinity") && !(contains_sub(
            text,
            "father",
        ) && contains_sub(text, "son") && contains_sub(text, "holy")),
        RuleId::LegacyDeclaration => contains_sub(text, "var") && !contains_sub(text, "let"),
        RuleId::UnboundedLoop => contains_sub(text, "while(true)") || contains_sub(
            text,
            "while (true)",
        ),
        RuleId::UnconfessedErrorHandling => contains_sub(text, "try"),
    }
}

fn check_fatal_on(r: RuleId, permissive: bool) -> (b: bool)
    ensures
        b == check_fatal(r, permissive),
{
    match r {
        RuleId::DeclarationBlessing => true,
        RuleId::DestructiveOperation => !permissive,
        RuleId::ForbiddenIdentifier => true,
        _ => false,
    }
}

fn confess_severity_on(r: RuleId) -> (s: Severity)
    ensures
        s == confess_severity(r),
{
    match r {
        RuleId::DeclarationBlessing => Severity::Venial,
        RuleId::DestructiveOperation => Severity::Mortal,
        RuleId::ForbiddenIdentifier => Severity::Mortal,
        RuleId::TriadCompleteness => Severity::Venial,
        RuleId::LegacyDeclaration => Severity::Venial,
        RuleId::UnboundedLoop => Severity::Venial,
        RuleId::UnconfessedErrorHandling => Severity::Mortal,
    }
}

/// The message text of one rule.
pub fn rule_message_text(r: RuleId) -> (m: String)
    ensures
        m@ == rule_message(r),
{
    match r {
        RuleId::DeclarationBlessing => "Function lacks divine blessing".to_owned(),
        RuleId::DestructiveOperation => "Thou shalt not kill child processes".to_owned(),
        RuleId::ForbiddenIdentifier => "Unholy variable name detected".to_owned(),
        RuleId::TriadCompleteness => "Trinity pattern is incomplete: father, son, and holy ghost are required".to_owned(),
        RuleId::LegacyDeclaration => "Use 'let' instead of secular 'var'".to_owned(),
        RuleId::UnboundedLoop => "Infinite loops show lack of faith in termination".to_owned(),
        RuleId::UnconfessedErrorHandling => "Errors must be confessed, not caught".to_owned(),
    }
}

fn check_catalog_vec() -> (v: Vec<RuleId>)
    ensures
        v@ == check_catalog(),
{
    let mut v: Vec<RuleId> = Vec::new();
    v.push(RuleId::DeclarationBlessing);
    v.push(RuleId::DestructiveOperation);
    v.push(RuleId::ForbiddenIdentifier);
    v.push(RuleId::TriadCompleteness);
    proof {
        assert(v@ =~= check_catalog());
    }
    v
}

fn confess_catalog_vec() -> (v: Vec<RuleId>)
    ensures
        v@ == confess_catalog(),
{
    let mut v: Vec<RuleId> = Vec::new();
    v.push(RuleId::DeclarationBlessing);
    v.push(RuleId::DestructiveOperation);
    v.push(RuleId::ForbiddenIdentifier);
    v.push(RuleId::LegacyDeclaration);
    v.push(RuleId::UnboundedLoop);
    v.push(RuleId::UnconfessedErrorHandling);
    proof {
        assert(v@ =~= confess_catalog());
    }
    v
}

/// Commandments mode: evaluates the catalog in order against the full
/// statement sequence. The first match of a rule configured as fatal aborts
/// evaluation and is returned as the violation; matches of non-fatal rules
/// are returned as warnings when no fatal match exists.
pub fn check(statements: &Vec<Statement>, permissive: bool) -> (r: Result<
    Vec<Diagnostic>,
    HardViolation,
>)
    ensures
        ({
            let outcome = check_spec(statements@.map_values(|s: Statement| s@), permissive);
            match r {
                Ok(ws) => outcome is Ok && ws@.map_values(|d: Diagnostic| d@) == outcome->Ok_0,
                Err(v) => outcome is Err && v@ == outcome->Err_0,
            }
        }),
{
    let ghost stmts = statements@.map_values(|s: Statement| s@);
    let catalog = check_catalog_vec();
    let mut warnings: Vec<Diagnostic> = Vec::new();
    let mut j: usize = 0;
    while j < catalog.len()
        invariant
            j <= catalog@.len(),
            catalog@ == check_catalog(),
            stmts == statements@.map_values(|s: Statement| s@),
            check_spec(stmts, permissive) == (match check_from(stmts, permissive, j as int) {
                Ok(ds) => Ok::<Seq<DiagnosticModel>, HardViolationModel>(
                    warnings@.map_values(|d: Diagnostic| d@) + ds,
                ),
                Err(v) => Err::<Seq<DiagnosticModel>, HardViolationModel>(v),
            }),
        decreases catalog@.len() - j,
    {
        let r = catalog[j];
        if check_fatal_on(r, permissive) {
            let mut i: usize = 0;
            while i < statements.len()
                invariant
                    i <= stmts.len(),
                    j < catalog@.len(),
                    catalog@ == check_catalog(),
                    r == check_catalog()[j as int],
                    check_fatal(r, permissive),
                    stmts == statements@.map_values(|s: Statement| s@),
                    first_match_from(r, stmts, 0) == first_match_from(r, stmts, i as int),
                    check_spec(stmts, permissive) == (match check_from(
                        stmts,
                        permissive,
                        j as int,
                    ) {
                        Ok(ds) => Ok::<Seq<DiagnosticModel>, HardViolationModel>(
                            warnings@.map_values(|d: Diagnostic| d@) + ds,
                        ),
                        Err(v) => Err::<Seq<DiagnosticModel>, HardViolationModel>(v),
                    }),
                decreases stmts.len() - i,
            {
                proof {
                    assert(stmts[i as int] == statements@[i as int]@);
                }
                if rule_matches_on(r, statements[i].text.as_str()) {
                    proof {
                        assert(first_match_from(r, stmts, i as int) == i);
                    }
                    return Err(
                        HardViolation {
                            rule: r,
                            line_number: statements[i].line_number,
                            message: rule_message_text(r),
                        },
                    );
                }
                i += 1;
            }
            proof {
                assert(first_match_from(r, stmts, stmts.len() as int) == -1);
                assert(check_from(stmts, permissive, j as int) == check_from(
                    stmts,
                    permissive,
                    j as int + 1,
                ));
            }
        } else {
            let ghost w0 = warnings@.map_values(|d: Diagnostic| d@);
            let mut i: usize = 0;
            while i < statements.len()
                invariant
                    i <= stmts.len(),
                    stmts == statements@.map_values(|s: Statement| s@),
                    w0 + rule_diags_from(r, Severity::Venial, stmts, 0) == warnings@.map_values(
                        |d: Diagnostic| d@,
                    ) + rule_diags_from(r, Severity::Venial, stmts, i as int),
                decreases stmts.len() - i,
            {
                proof {
                    assert(stmts[i as int] == statements@[i as int]@);
                }
                if rule_matches_on(r, statements[i].text.as_str()) {
                    let d = Diagnostic {
                        rule: r,
                        severity: Severity::Venial,
                        line_number: statements[i].line_number,
                        message: rule_message_text(r),
                    };
                    let ghost before = warnings@.map_values(|dd: Diagnostic| dd@);
                    warnings.push(d);
                    proof {
                        assert(warnings@.map_values(|dd: Diagnostic| dd@) =~= before.push(d@));
                        assert(before + rule_diags_from(r, Severity::Venial, stmts, i as int)
                            =~= before.push(d@) + rule_diags_from(
                            r,
                            Severity::Venial,
                            stmts,
                            i as int + 1,
                        ));
                    }
                }
                i += 1;
            }
            proof {
                assert(rule_diags_from(r, Severity::Venial, stmts, stmts.len() as int)
                    =~= Seq::<DiagnosticModel>::empty());
                assert(warnings@.map_values(|d: Diagnostic| d@) =~= w0 + rule_diags_from(
                    r,
                    Severity::Venial,
                    stmts,
                    0,
                ));
                let next = check_from(stmts, permissive, j as int + 1);
                assert(check_from(stmts, permissive, j as int) == (match next {
                    Ok(ds) => Ok::<Seq<DiagnosticModel>, HardViolationModel>(
                        rule_diags_from(r, Severity::Venial, stmts, 0) + ds,
                    ),
                    Err(v) => Err::<Seq<DiagnosticModel>, HardViolationModel>(v),
                }));
                match next {
                    Ok(ds) => {
                        assert(warnings@.map_values(|d: Diagnostic| d@) + ds =~= w0
                            + (rule_diags_from(r, Severity::Venial, stmts, 0) + ds));
                    },
                    Err(_) => {},
                }
            }
        }
        j += 1;
    }
    proof {
        assert(check_from(stmts, permissive, catalog@.len() as int) == Ok::<
            Seq<DiagnosticModel>,
            HardViolationModel,
        >(Seq::empty()));
        assert(warnings@.map_values(|d: Diagnostic| d@) + Seq::<DiagnosticModel>::empty()
            =~= warnings@.map_values(|d: Diagnostic| d@));
    }
    Ok(warnings)
}

/// The aggregate result of one confession pass.
#[derive(Debug, Clone, PartialEq, Eq)]
pub struct Report {
    /// All diagnostics, in catalog order, then statement order within a
    /// rule; never merged or deduplicated.
    pub diagnostics: Vec<Diagnostic>,
    pub venial_count: usize,
    pub mortal_count: usize,
}

impl Report {
    /// The counts tally the diagnostics by severity, and together exhaust
    /// them.
    pub open spec fn wf(self) -> bool {
        let ds = self.diagnostics@.map_values(|d: Diagnostic| d@);
        &&& self.venial_count == count_severity(ds, Severity::Venial)
        &&& self.mortal_count == count_severity(ds, Severity::Mortal)
        &&& self.venial_count + self.mortal_count == ds.len()
    }

    /// Overall pass or fail: the script passes confession exactly when
    /// the report holds no mortal diagnostic.
    pub fn passed(&self) -> (b: bool)
        ensures
            b == (self.mortal_count == 0),
    {
        self.mortal_count == 0
    }

    /// Total number of diagnostics: venial and mortal together.
    pub fn total(&self) -> (t: usize)
        requires
            self.wf(),
        ensures
            t == self.venial_count + self.mortal_count,
            t == self.diagnostics@.len(),
    {
        let n = self.diagnostics.len();
        proof {
            assert(self.venial_count + self.mortal_count == n);
        }
        self.venial_count + self.mortal_count
    }
}

/// Confession mode: evaluates the catalog against every statement, never
/// short-circuits, and returns the complete report.
pub fn confess(statements: &Vec<Statement>, raw: &str) -> (rep: Report)
    ensures
        rep.diagnostics@.map_values(|d: Diagnostic| d@) == confess_spec(
            statements@.map_values(|s: Statement| s@),
            raw@,
        ),
        rep.wf(),
{
    let ghost stmts = statements@.map_values(|s: Statement| s@);
    let catalog = confess_catalog_vec();
    let mut diagnostics: Vec<Diagnostic> = Vec::new();
    let mut j: usize = 0;
    while j < catalog.len()
        invariant
            j <= catalog@.len(),
            catalog@ == confess_catalog(),
            stmts == statements@.map_values(|s: Statement| s@),
            diagnostics@.map_values(|d: Diagnostic| d@) + confess_from(stmts, raw@, j as int)
                == confess_spec(stmts, raw@),
            forall|x: int| 0 <= x < diagnostics@.len() ==> ((#[trigger] diagnostics@[x]).severity
                is Venial || diagnostics@[x].severity is Mortal),
        decreases catalog@.len() - j,
    {
        let r = catalog[j];
        let ghost a0 = diagnostics@.map_values(|d: Diagnostic| d@);
        let gate = match r {
            RuleId::UnconfessedErrorHandling => !contains_sub(raw, "confess"),
            _ => true,
        };
        proof {
            assert(gate == doc_gate(r, raw@));
        }
        if gate {
            let sev = confess_severity_on(r);
            let mut i: usize = 0;
            while i < statements.len()
                invariant
                    i <= stmts.len(),
                    sev == confess_severity(r),
                    sev is Venial || sev is Mortal,
                    stmts == statements@.map_values(|s: Statement| s@),
                    a0 + rule_diags_from(r, sev, stmts, 0) == diagnostics@.map_values(
                        |d: Diagnostic| d@,
                    ) + rule_diags_from(r, sev, stmts, i as int),
                    forall|x: int| 0 <= x < diagnostics@.len() ==> ((
                    #[trigger] diagnostics@[x]).severity is Venial || diagnostics@[x].severity
                        is Mortal),
                decreases stmts.len() - i,
            {
                proof {
                    assert(stmts[i as int] == statements@[i as int]@);
                }
                if rule_matches_on(r, statements[i].text.as_str()) {
                    let d = Diagnostic {
                        rule: r,
                        severity: sev,
                        line_number: statements[i].line_number,
                        message: rule_message_text(r),
                    };
                    let ghost before = diagnostics@.map_values(|dd: Diagnostic| dd@);
                    diagnostics.push(d);
                    proof {
                        assert(diagnostics@.map_values(|dd: Diagnostic| dd@) =~= before.push(d@));
                        assert(before + rule_diags_from(r, sev, stmts, i as int) =~= before.push(
                            d@,
                        ) + rule_diags_from(r, sev, stmts, i as int + 1));
                    }
                }
                i += 1;
            }
            proof {
                assert(rule_diags_from(r, sev, stmts, stmts.len() as int) =~= Seq::<
                    DiagnosticModel,
                >::empty());
                assert(diagnostics@.map_values(|d: Diagnostic| d@) =~= a0 + rule_diags_from(
                    r,
                    sev,
                    stmts,
                    0,
                ));
                assert(a0 + confess_from(stmts, raw@, j as int) =~= (a0 + rule_diags_from(
                    r,
                    confess_severity(r),
                    stmts,
                    0,
                )) + confess_from(stmts, raw@, j as int + 1));
            }
        } else {
            proof {
                assert(a0 + confess_from(stmts, raw@, j as int) =~= a0 + confess_from(
                    stmts,
                    raw@,
                    j as int + 1,
                ));
            }
        }
        j += 1;
    }
    proof {
        assert(confess_from(stmts, raw@, catalog@.len() as int) =~= Seq::<
            DiagnosticModel,
        >::empty());
        assert(diagnostics@.map_values(|d: Diagnostic| d@) =~= confess_spec(stmts, raw@));
    }
    let ghost ds = diagnostics@.map_values(|d: Diagnostic| d@);
    let mut venial: usize = 0;
    let mut mortal: usize = 0;
    let mut i: usize = 0;
    while i < diagnostics.len()
        invariant
            i <= ds.len(),
            ds == diagnostics@.map_values(|d: Diagnostic| d@),
            forall|x: int| 0 <= x < diagnostics@.len() ==> ((#[trigger] diagnostics@[x]).severity
                is Venial || diagnostics@[x].severity is Mortal),
            venial + mortal == i,
            venial + count_severity_from(ds, Severity::Venial, i as int) == count_severity(
                ds,
                Severity::Venial,
            ),
            mortal + count_severity_from(ds, Severity::Mortal, i as int) == count_severity(
                ds,
                Severity::Mortal,
            ),
        decreases ds.len() - i,
    {
        proof {
            assert(ds[i as int] == diagnostics@[i as int]@);
        }
        let is_venial = match diagnostics[i].severity {
            Severity::Venial => true,
            _ => false,
        };
        if is_venial {
            venial += 1;
        } else {
            mortal += 1;
        }
        i += 1;
    }
    Report { diagnostics, venial_count: venial, mortal_count: mortal }
}

/// The remediation lines for a report, selected by category presence
/// alone: a static lookup, not a per-diagnostic rendering.
pub open spec fn penance_spec(venial_present: bool, mortal_present: bool) -> Seq<Seq<char>> {
    (if venial_present {
        seq![
            "Replace 'var' with 'let' and add proper blessings to functions"@,
            "Avoid infinite loops by adding faithful termination conditions"@,
        ]
    } else {
        Seq::empty()
    }) + (if mortal_present {
        seq![
            "Rename blasphemous variables to virtuous alternatives"@,
            "Replace 'try/catch' with 'confess' for proper error handling"@,
            "Remove all 'kill' statements and implement graceful process lifecycle"@,
        ]
    } else {
        Seq::empty()
    })
}

/// The suggested remediation lines: the venial advice when any venial
/// diagnostic is present, then the mortal advice when any mortal
/// diagnostic is present.
pub fn penance(venial_present: bool, mortal_present: bool) -> (lines: Vec<String>)
    ensures
        lines@.map_values(|s: String| s@) == penance_spec(venial_present, mortal_present),
{
    let mut lines: Vec<String> = Vec::new();
    if venial_present {
        lines.push("Replace 'var' with 'let' and add proper blessings to functions".to_owned());
        lines.push("Avoid infinite loops by adding faithful termination conditions".to_owned());
    }
    if mortal_present {
        lines.push("Rename blasphemous variables to virtuous alternatives".to_owned());
        lines.push("Replace 'try/catch' with 'confess' for proper error handling".to_owned());
        lines.push(
            "Remove all 'kill' statements and implement graceful process lifecycle".to_owned(),
        );
    }
    proof {
        assert(lines@.map_values(|s: String| s@) =~= penance_spec(
            venial_present,
            mortal_present,
        ));
    }
    lines
}

/// Covenant detection: a side, non-failing pass. The 1-based line numbers
/// of the statements carrying the covenant flag, in order.
pub open spec fn covenant_lines_from(stmts: Seq<StatementModel>, k: int) -> Seq<int>
    decreases stmts.len() - k,
{
    if k < 0 || k >= stmts.len() {
        Seq::empty()
    } else {
        let rest = covenant_lines_from(stmts, k + 1);
        if stmts[k].is_covenant {
            seq![stmts[k].line_number] + rest
        } else {
            rest
        }
    }
}

/// Reports the line numbers of the statements carrying the covenant flag.
/// Purely observational: never errors and blocks nothing.
pub fn check_covenants(statements: &Vec<Statement>) -> (lines: Vec<usize>)
    ensures
        lines@.map_values(|u: usize| u as int) == covenant_lines_from(
            statements@.map_values(|s: Statement| s@),
            0,
        ),
{
    let ghost stmts = statements@.map_values(|s: Statement| s@);
    let mut lines: Vec<usize> = Vec::new();
    let mut i: usize = 0;
    while i < statements.len()
        invariant
            i <= stmts.len(),
            stmts == statements@.map_values(|s: Statement| s@),
            lines@.map_values(|u: usize| u as int) + covenant_lines_from(stmts, i as int)
                == covenant_lines_from(stmts, 0),
        decreases stmts.len() - i,
    {
        proof {
            assert(stmts[i as int] == statements@[i as int]@);
        }
        if statements[i].is_covenant {
            let ghost before = lines@.map_values(|u: usize| u as int);
            lines.push(statements[i].line_number);
            proof {
                assert(lines@.map_values(|u: usize| u as int) =~= before.push(
                    stmts[i as int].line_number,
                ));
                assert(before + covenant_lines_from(stmts, i as int) =~= before.push(
                    stmts[i as int].line_number,
                ) + covenant_lines_from(stmts, i as int + 1));
            }
        }
        i += 1;
    }
    proof {
        assert(covenant_lines_from(stmts, stmts.len() as int) =~= Seq::<int>::empty());
        assert(lines@.map_values(|u: usize| u as int) =~= covenant_lines_from(stmts, 0));
    }
    lines
}

/// Whether any statement carries the miracle flag.
pub fn has_miracles(statements: &Vec<Statement>) -> (b: bool)
    ensures
        b == (exists|i: int|
            0 <= i < statements@.len() && (#[trigger] statements@[i]@).is_miracle),
{
    let mut i: usize = 0;
    while i < statements.len()
        invariant
            i <= statements@.len(),
            forall|x: int| 0 <= x < i ==> !(#[trigger] statements@[x]@).is_miracle,
        decreases statements@.len() - i,
    {
        if statements[i].is_miracle {
            proof {
                assert((statements@[i as int]@).is_miracle);
            }
            return true;
        }
        i += 1;
    }
    false
}

/// Number of statements at or after `k` whose text matches rule `r`.
pub open spec fn count_matches_from(r: RuleId, stmts: Seq<StatementModel>, k: int) -> int
    decreases stmts.len() - k,
{
    if k < 0 || k >= stmts.len() {
        0
    } else {
        (if rule_matches(r, stmts[k].text) {
            1int
        } else {
            0int
        }) + count_matches_from(r, stmts, k + 1)
    }
}

/// One rule's diagnostics mirror its matches: the rule diagnoses some
/// statement at or after `k` exactly when one matches, the first diagnostic
/// names the first matching statement, and there is exactly one diagnostic
/// per matching statement.
pub proof fn lemma_first_match_vs_diags(r: RuleId, sev: Severity, stmts: Seq<StatementModel>, k: int)
    requires
        0 <= k <= stmts.len(),
    ensures
        (first_match_from(r, stmts, k) >= 0) <==> rule_diags_from(r, sev, stmts, k).len() > 0,
        rule_diags_from(r, sev, stmts, k).len() == count_matches_from(r, stmts, k),
        first_match_from(r, stmts, k) >= 0 ==> rule_diags_from(r, sev, stmts, k)[0] == diag_model(
            r,
            sev,
            stmts[first_match_from(r, stmts, k)].line_number,
        ),
        first_match_from(r, stmts, k) >= 0 ==> k <= first_match_from(r, stmts, k) < stmts.len()
            && rule_matches(r, stmts[first_match_from(r, stmts, k)].text),
        (first_match_from(r, stmts, k) >= 0) <==> (exists|i: int|
            k <= i < stmts.len() && rule_matches(r, (#[trigger] stmts[i]).text)),
    decreases stmts.len() - k,
{
    if k < stmts.len() {
        lemma_first_match_vs_diags(r, sev, stmts, k + 1);
        if rule_matches(r, stmts[k].text) {
            assert(stmts[k] == stmts[k]);
        }
    }
}

/// Within one rule, diagnostics come in statement order: when the
/// statement sequence carries strictly increasing line numbers, so does
/// the rule's diagnostic sequence.
pub proof fn lemma_rule_diags_in_statement_order(
    r: RuleId,
    sev: Severity,
    stmts: Seq<StatementModel>,
    k: int,
)
    requires
        0 <= k <= stmts.len(),
        forall|a: int, b: int|
            0 <= a < b < stmts.len() ==> (#[trigger] stmts[a]).line_number < (
            #[trigger] stmts[b]).line_number,
    ensures
        forall|a: int, b: int|
            0 <= a < b < rule_diags_from(r, sev, stmts, k).len() ==> (#[trigger] rule_diags_from(
                r,
                sev,
                stmts,
                k,
            )[a]).line_number < (#[trigger] rule_diags_from(r, sev, stmts, k)[b]).line_number,
        forall|a: int|
            0 <= a < rule_diags_from(r, sev, stmts, k).len() ==> (k < stmts.len() ==> stmts[k].line_number
                <= (#[trigger] rule_diags_from(r, sev, stmts, k)[a]).line_number),
    decreases stmts.len() - k,
{
    if k < stmts.len() {
        lemma_rule_diags_in_statement_order(r, sev, stmts, k + 1);
        let d = rule_diags_from(r, sev, stmts, k);
        let rest = rule_diags_from(r, sev, stmts, k + 1);
        if rule_matches(r, stmts[k].text) {
            assert(d == seq![diag_model(r, sev, stmts[k].line_number)] + rest);
            assert forall|a: int|
                0 <= a < d.len() implies (k < stmts.len() ==> stmts[k].line_number <= (
            #[trigger] d[a]).line_number) by {
                if a > 0 {
                    assert(d[a] == rest[a - 1]);
                }
            }
            assert forall|a: int, b: int|
                0 <= a < b < d.len() implies (#[trigger] d[a]).line_number < (
            #[trigger] d[b]).line_number by {
                assert(d[b] == rest[b - 1]);
                if a > 0 {
                    assert(d[a] == rest[a - 1]);
                }
            }
        } else {
            assert(d == rest);
        }
    }
}

/// The two evaluation modes agree on which statements match the
/// declaration-blessing, destructive-operation and forbidden-identifier
/// rules: both catalogs carry each of these rules, the document-level gate
/// is open for them whatever the raw text, and both modes evaluate the one
/// shared predicate `rule_matches` against each statement's text. So, for
/// each of these rules, commandments mode finds a fatal statement exactly
/// when confession mode diagnoses the rule at least once, confession mode
/// yields one diagnostic per matching statement, and the statement
/// commandments mode aborts at is the one named by confession mode's first
/// diagnostic for that rule. The modes differ for these rules only in
/// severity and short-circuit policy.
pub proof fn lemma_modes_agree(r: RuleId, stmts: Seq<StatementModel>, raw: Seq<char>)
    requires
        r is DeclarationBlessing || r is DestructiveOperation || r is ForbiddenIdentifier,
    ensures
        check_catalog().contains(r),
        confess_catalog().contains(r),
        doc_gate(r, raw),
        (first_match_from(r, stmts, 0) >= 0) <==> rule_diags_from(
            r,
            confess_severity(r),
            stmts,
            0,
        ).len() > 0,
        rule_diags_from(r, confess_severity(r), stmts, 0).len() == count_matches_from(
            r,
            stmts,
            0,
        ),
        first_match_from(r, stmts, 0) >= 0 ==> rule_diags_from(r, confess_severity(r), stmts, 0)[0]
            == diag_model(
            r,
            confess_severity(r),
            stmts[first_match_from(r, stmts, 0)].line_number,
        ),
        (first_match_from(r, stmts, 0) >= 0) <==> (exists|i: int|
            0 <= i < stmts.len() && rule_matches(r, (#[trigger] stmts[i]).text)),
{
    match r {
        RuleId::DeclarationBlessing => {
            assert(check_catalog()[0] == r);
            assert(confess_catalog()[0] == r);
        },
        RuleId::DestructiveOperation => {
            assert(check_catalog()[1] == r);
            assert(confess_catalog()[1] == r);
        },
        _ => {
            assert(check_catalog()[2] == r);
            assert(confess_catalog()[2] == r);
        },
    }
    lemma_first_match_vs_diags(r, confess_severity(r), stmts, 0);
}

} // verus!
