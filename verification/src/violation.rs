//! Rule findings shared by every rule of the library.

use vstd::prelude::*;

verus! {

/// How serious a finding is.
#[derive(Debug, Clone, Copy, PartialEq, Eq, Structural)]
pub enum ViolationSeverity {
    Critical,
    Error,
    High,
    Medium,
    Low,
    Warning,
    Info,
}

/// One finding reported by a rule.
#[derive(Debug, Clone)]
pub struct RuleViolation {
    pub rule_name: String,
    pub description: String,
    pub severity: ViolationSeverity,
    pub line_number: usize,
    pub column_number: usize,
    pub variable_name: String,
    pub suggestion: String,
}

/// The mathematical content of a finding: its texts as character sequences.
pub struct ViolationView {
    pub rule_name: Seq<char>,
    pub description: Seq<char>,
    pub severity: ViolationSeverity,
    pub line_number: int,
    pub column_number: int,
    pub variable_name: Seq<char>,
    pub suggestion: Seq<char>,
}

impl View for RuleViolation {
    type V = ViolationView;

    open spec fn view(&self) -> ViolationView {
        ViolationView {
            rule_name: self.rule_name@,
            description: self.description@,
            severity: self.severity,
            line_number: self.line_number as int,
            column_number: self.column_number as int,
            variable_name: self.variable_name@,
            suggestion: self.suggestion@,
        }
    }
}

/// The views of a sequence of findings.
pub open spec fn views(v: Seq<RuleViolation>) -> Seq<ViolationView> {
    v.map_values(|x: RuleViolation| x@)
}

/// Builds a finding view from its parts.
pub open spec fn vview(
    rule_name: Seq<char>,
    description: Seq<char>,
    severity: ViolationSeverity,
    line_number: int,
    column_number: int,
    variable_name: Seq<char>,
    suggestion: Seq<char>,
) -> ViolationView {
    ViolationView {
        rule_name,
        description,
        severity,
        line_number,
        column_number,
        variable_name,
        suggestion,
    }
}

/// The findings of `f` over each text of `ts`, one after the other.
pub open spec fn concat_over(ts: Seq<Seq<char>>, f: spec_fn(Seq<char>) -> Seq<ViolationView>) -> Seq<
    ViolationView,
>
    decreases ts.len(),
{
    if ts.len() == 0 {
        seq![]
    } else {
        concat_over(ts.drop_last(), f) + f(ts.last())
    }
}

/// Appends `more` to `out`.
pub fn append_all(out: &mut Vec<RuleViolation>, more: Vec<RuleViolation>)
    ensures
        views(final(out)@) == views(old(out)@) + views(more@),
{
    let mut more = more;
    let ghost m = more@;
    out.append(&mut more);
    proof {
        assert(views(out@) =~= views(old(out)@) + views(m));
    }
}

/// A finding whose texts are copied from `&str`s.
pub fn make_violation(
    rule_name: &str,
    description: &str,
    severity: ViolationSeverity,
    line_number: usize,
    column_number: usize,
    variable_name: &str,
    suggestion: &str,
) -> (r: RuleViolation)
    ensures
        r@ == vview(
            rule_name@,
            description@,
            severity,
            line_number as int,
            column_number as int,
            variable_name@,
            suggestion@,
        ),
{
    RuleViolation {
        rule_name: crate::text::owned(rule_name),
        description: crate::text::owned(description),
        severity,
        line_number,
        column_number,
        variable_name: crate::text::owned(variable_name),
        suggestion: crate::text::owned(suggestion),
    }
}

} // verus!
