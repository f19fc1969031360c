//! Automatic fixes for rule violations: which fixes are safe, what each fix
//! does to its line, how fixes on the same line are screened for conflicts,
//! and how a set of fixes is applied to a source text.

use vstd::prelude::*;
use crate::text::{
    chars_of, decimal, find_sub, first_occurrence_from, has_sub, occurs_at, decimal_exec, join_strings, join_with, line_views, lines, lines_exec,
    owned, push_chars, push_str, replace_all, replace_exec, same_text, starts_with,
    starts_with_exec, string_of, string_views, trim, trim_exec,
};
use crate::violation::{RuleViolation, ViolationView, views};

verus! {

pub const AUTO_FIX_PREFIX: &'static str = "// [GasGuard Auto-Fix] ";

/// Applies and previews fixes for rule violations.
pub struct FixEngine;

/// Rules whose fix comments out the offending line.
pub open spec fn is_comment_out_rule(rule: Seq<char>) -> bool {
    rule == "unused-state-variable"@ || rule == "soroban-unused-state-variables"@
}

/// Rules whose fix can be applied without review.
pub open spec fn is_safe_rule(rule: Seq<char>) -> bool {
    is_comment_out_rule(rule) || rule == "redundant-external"@
}

/// The line commented out, unless it already is a comment.
pub open spec fn commented(line: Seq<char>) -> Seq<char> {
    if starts_with(trim(line), "//"@) {
        line
    } else {
        AUTO_FIX_PREFIX@ + line
    }
}

/// The line after the fix for `rule`; lines of other rules stay as they are.
pub open spec fn fixed_line(line: Seq<char>, rule: Seq<char>) -> Seq<char> {
    if is_comment_out_rule(rule) {
        commented(line)
    } else if rule == "redundant-external"@ {
        replace_all(line, "@external"@, "@internal"@)
    } else {
        line
    }
}

/// The line a preview proposes in place of `original`.
pub open spec fn suggested_line_spec(original: Seq<char>, v: ViolationView) -> Seq<char> {
    if is_comment_out_rule(v.rule_name) {
        commented(original)
    } else if v.rule_name == "redundant-external"@ {
        replace_all(original, "@external"@, "@internal"@)
    } else if v.suggestion.len() > 0 {
        v.suggestion
    } else {
        "// TODO: "@ + v.description
    }
}

/// The 0-based index of a 1-based line number (line 0 counts as line 1).
pub open spec fn fix_index(line_number: int) -> int {
    if line_number <= 0 {
        0
    } else {
        line_number - 1
    }
}

/// The message for a fix whose line does not exist.
pub open spec fn out_of_bounds(line_number: int) -> Seq<char> {
    "Line "@ + decimal(line_number as nat) + " out of bounds"@
}

/// Applies one fix to `lines`.
pub open spec fn apply_one(lines: Seq<Seq<char>>, v: ViolationView) -> Result<
    Seq<Seq<char>>,
    Seq<char>,
> {
    let idx = fix_index(v.line_number);
    if idx >= lines.len() {
        Err(out_of_bounds(v.line_number))
    } else {
        Ok(lines.update(idx, fixed_line(lines[idx], v.rule_name)))
    }
}

/// Applies the selected fixes of `ps`, first to last, stopping at the first
/// failure.
pub open spec fn apply_selected(lines: Seq<Seq<char>>, ps: Seq<(ViolationView, bool)>) -> Result<
    Seq<Seq<char>>,
    Seq<char>,
>
    decreases ps.len(),
{
    if ps.len() == 0 {
        Ok(lines)
    } else if ps[0].1 {
        match apply_one(lines, ps[0].0) {
            Ok(next) => apply_selected(next, ps.drop_first()),
            Err(e) => Err(e),
        }
    } else {
        apply_selected(lines, ps.drop_first())
    }
}

/// Where `line` goes in a list ordered by descending line number: before
/// the first entry with a smaller line number.
pub open spec fn insert_pos(s: Seq<(ViolationView, bool)>, line: int) -> int
    decreases s.len(),
{
    if s.len() == 0 {
        0
    } else if s[0].0.line_number < line {
        0
    } else {
        1 + insert_pos(s.drop_first(), line)
    }
}

/// `ps` sorted by descending line number; entries with equal line numbers
/// keep their order (a stable sort).
pub open spec fn sort_by_line_desc(ps: Seq<(ViolationView, bool)>) -> Seq<(ViolationView, bool)>
    decreases ps.len(),
{
    if ps.len() == 0 {
        ps
    } else {
        let t = sort_by_line_desc(ps.drop_last());
        t.insert(insert_pos(t, ps.last().0.line_number), ps.last())
    }
}

/// Each violation paired with whether it is selected.
pub open spec fn selection(vs: Seq<ViolationView>, keep: Seq<bool>) -> Seq<(ViolationView, bool)> {
    Seq::new(vs.len(), |i: int| (vs[i], keep[i]))
}

/// The source after applying the selected fixes, from the highest line
/// down, joined back with `\n`; or the first failure.
pub open spec fn fixed_source(content: Seq<char>, vs: Seq<ViolationView>, keep: Seq<bool>) -> Result<
    Seq<char>,
    Seq<char>,
> {
    match apply_selected(lines(content), sort_by_line_desc(selection(vs, keep))) {
        Ok(ls) => Ok(join_with(ls, "\n"@)),
        Err(e) => Err(e),
    }
}

/// The view of a text result.
pub open spec fn result_view(r: Result<String, String>) -> Result<Seq<char>, Seq<char>> {
    match r {
        Ok(s) => Ok(s@),
        Err(e) => Err(e@),
    }
}

/// Whether two rules' fixes are known to conflict on one line.
pub open spec fn conflict_spec(rule1: Seq<char>, rule2: Seq<char>) -> bool {
    ||| (rule1 == "unused-state-variable"@ && rule2 == "redundant-external"@)
    ||| (rule1 == "redundant-external"@ && rule2 == "unused-state-variable"@)
    ||| (rule1 == "soroban-unused-state-variables"@ && rule2 == "redundant-external"@)
    ||| (rule1 == "redundant-external"@ && rule2 == "soroban-unused-state-variables"@)
}

/// The violations of `vs` on line `line`, in order.
pub open spec fn on_line(vs: Seq<ViolationView>, line: int) -> Seq<ViolationView>
    decreases vs.len(),
{
    if vs.len() == 0 {
        seq![]
    } else if vs.last().line_number == line {
        on_line(vs.drop_last(), line).push(vs.last())
    } else {
        on_line(vs.drop_last(), line)
    }
}

/// The line numbers of `vs`, each once, in order of first appearance.
pub open spec fn distinct_lines(vs: Seq<ViolationView>) -> Seq<int>
    decreases vs.len(),
{
    if vs.len() == 0 {
        seq![]
    } else if distinct_lines(vs.drop_last()).contains(vs.last().line_number) {
        distinct_lines(vs.drop_last())
    } else {
        distinct_lines(vs.drop_last()).push(vs.last().line_number)
    }
}

/// Some two violations of `g` come from rules that conflict.
pub open spec fn has_conflict(g: Seq<ViolationView>) -> bool {
    exists|i: int, j: int| 0 <= i < j < g.len() && #[trigger] conflict_spec(g[i].rule_name, g[j].rule_name)
}

/// The violations of `g` whose fix is safe, in order.
pub open spec fn safe_ones(g: Seq<ViolationView>) -> Seq<ViolationView>
    decreases g.len(),
{
    if g.len() == 0 {
        seq![]
    } else if is_safe_rule(g.last().rule_name) {
        safe_ones(g.drop_last()).push(g.last())
    } else {
        safe_ones(g.drop_last())
    }
}

/// The fixes kept for the first `n` lines of `ls`: a line's safe fixes,
/// unless two of its fixes conflict.
pub open spec fn kept_fixes(vs: Seq<ViolationView>, ls: Seq<int>, n: int) -> Seq<ViolationView>
    decreases n,
{
    if n <= 0 {
        seq![]
    } else {
        let g = on_line(vs, ls[n - 1]);
        kept_fixes(vs, ls, n - 1) + if has_conflict(g) {
            seq![]
        } else {
            safe_ones(g)
        }
    }
}

/// The fixes that pass conflict screening, grouped by line in order of the
/// lines' first appearance.
pub open spec fn filtered_fixes(vs: Seq<ViolationView>) -> Seq<ViolationView> {
    kept_fixes(vs, distinct_lines(vs), distinct_lines(vs).len() as int)
}

/// A copy of a violation.
pub fn copy_violation(v: &RuleViolation) -> (r: RuleViolation)
    ensures
        r@ == v@,
{
    RuleViolation {
        rule_name: v.rule_name.clone(),
        description: v.description.clone(),
        severity: v.severity,
        line_number: v.line_number,
        column_number: v.column_number,
        variable_name: v.variable_name.clone(),
        suggestion: v.suggestion.clone(),
    }
}

fn is_comment_out(rule: &str) -> (r: bool)
    ensures
        r == is_comment_out_rule(rule@),
{
    same_text(rule, "unused-state-variable") || same_text(rule, "soroban-unused-state-variables")
}

fn commented_exec(line: &str) -> (r: String)
    ensures
        r@ == commented(line@),
{
    let cs = chars_of(line);
    let t = trim_exec(&cs);
    let slashes = chars_of("//");
    if starts_with_exec(&t, &slashes) {
        owned(line)
    } else {
        let mut out: Vec<char> = Vec::new();
        push_str(&mut out, AUTO_FIX_PREFIX);
        push_str(&mut out, line);
        string_of(&out)
    }
}

fn external_to_internal(line: &str) -> (r: String)
    ensures
        r@ == replace_all(line@, "@external"@, "@internal"@),
{
    proof {
        reveal_strlit("@external");
    }
    let cs = chars_of(line);
    let out = replace_exec(&cs, "@external", "@internal");
    string_of(&out)
}

impl FixEngine {
    /// A fix engine.
    pub fn new() -> (r: Self)
        ensures
            r == FixEngine,
    {
        FixEngine
    }

    /// Whether the violation's fix can be applied without review.
    pub fn is_safe_fix(&self, violation: &RuleViolation) -> (r: bool)
        ensures
            r == is_safe_rule(violation.rule_name@),
    {
        let rule = violation.rule_name.as_str();
        is_comment_out(rule) || same_text(rule, "redundant-external")
    }

    /// The line a preview proposes in place of `original`.
    pub fn generate_suggested_line(&self, original: &str, violation: &RuleViolation) -> (r: String)
        ensures
            r@ == suggested_line_spec(original@, violation@),
    {
        let rule = violation.rule_name.as_str();
        if is_comment_out(rule) {
            commented_exec(original)
        } else if same_text(rule, "redundant-external") {
            external_to_internal(original)
        } else if !violation.suggestion.as_str().is_empty() {
            violation.suggestion.clone()
        } else {
            let mut out: Vec<char> = Vec::new();
            push_str(&mut out, "// TODO: ");
            push_str(&mut out, violation.description.as_str());
            string_of(&out)
        }
    }

    /// Applies the violation's fix to its line of `lines`; fails, leaving
    /// `lines` as they were, when that line does not exist.
    pub fn apply_single_fix(&self, lines: &mut Vec<String>, violation: &RuleViolation) -> (r: Result<(), String>)
        ensures
            match apply_one(string_views(old(lines)@), violation@) {
                Ok(next) => r is Ok && string_views(final(lines)@) == next,
                Err(e) => r matches Err(m) && m@ == e && final(lines)@ == old(lines)@,
            },
    {
        let line_idx = if violation.line_number == 0 {
            0
        } else {
            violation.line_number - 1
        };
        if line_idx >= lines.len() {
            let mut out: Vec<char> = Vec::new();
            push_str(&mut out, "Line ");
            let digits = decimal_exec(violation.line_number);
            push_chars(&mut out, &digits);
            push_str(&mut out, " out of bounds");
            return Err(string_of(&out));
        }
        let rule = violation.rule_name.as_str();
        let ghost before = string_views(lines@);
        if is_comment_out(rule) {
            let fixed = commented_exec(lines[line_idx].as_str());
            lines.set(line_idx, fixed);
        } else if same_text(rule, "redundant-external") {
            let fixed = external_to_internal(lines[line_idx].as_str());
            lines.set(line_idx, fixed);
        }
        proof {
            assert(string_views(lines@) =~= before.update(
                line_idx as int,
                fixed_line(before[line_idx as int], violation.rule_name@),
            ));
        }
        Ok(())
    }

    /// Whether two rules' fixes are known to conflict.
    pub fn rules_conflict(&self, rule1: &str, rule2: &str) -> (r: bool)
        ensures
            r == conflict_spec(rule1@, rule2@),
    {
        let unused1 = same_text(rule1, "unused-state-variable");
        let unused2 = same_text(rule2, "unused-state-variable");
        let soroban1 = same_text(rule1, "soroban-unused-state-variables");
        let soroban2 = same_text(rule2, "soroban-unused-state-variables");
        let external1 = same_text(rule1, "redundant-external");
        let external2 = same_text(rule2, "redundant-external");
        (unused1 && external2) || (external1 && unused2) || (soroban1 && external2) || (external1
            && soroban2)
    }
}


/// The views of a list of violations paired with a flag.
pub open spec fn pair_views(v: Seq<(RuleViolation, bool)>) -> Seq<(ViolationView, bool)> {
    v.map_values(|p: (RuleViolation, bool)| (p.0@, p.1))
}

/// The line numbers as integers.
pub open spec fn line_ints(v: Seq<usize>) -> Seq<int> {
    v.map_values(|x: usize| x as int)
}

fn sort_selection(violations: &[RuleViolation], keep: &[bool]) -> (r: Vec<(RuleViolation, bool)>)
    requires
        keep@.len() == violations@.len(),
    ensures
        pair_views(r@) == sort_by_line_desc(selection(views(violations@), keep@)),
{
    let ghost sel = selection(views(violations@), keep@);
    let mut sorted: Vec<(RuleViolation, bool)> = Vec::new();
    let mut i: usize = 0;
    while i < violations.len()
        invariant
            keep@.len() == violations@.len(),
            sel == selection(views(violations@), keep@),
            i <= violations@.len(),
            pair_views(sorted@) == sort_by_line_desc(sel.take(i as int)),
        decreases violations.len() - i,
    {
        let line = violations[i].line_number;
        let ghost t = pair_views(sorted@);
        let mut j: usize = 0;
        proof {
            assert(t.skip(0) =~= t);
        }
        while j < sorted.len() && sorted[j].0.line_number >= line
            invariant
                t == pair_views(sorted@),
                j <= sorted@.len(),
                insert_pos(t, line as int) == j + insert_pos(t.skip(j as int), line as int),
            decreases sorted.len() - j,
        {
            proof {
                let u = t.skip(j as int);
                assert(u[0] == t[j as int]);
                assert(u.drop_first() =~= t.skip(j + 1));
            }
            j += 1;
        }
        proof {
            let u = t.skip(j as int);
            if j < sorted@.len() {
                assert(u[0] == t[j as int]);
            }
        }
        let entry = (copy_violation(&violations[i]), keep[i]);
        sorted.insert(j, entry);
        proof {
            assert(sel.take(i + 1).drop_last() =~= sel.take(i as int));
            assert(sel.take(i + 1).last() == (violations@[i as int]@, keep@[i as int]));
            assert(pair_views(sorted@) =~= t.insert(j as int, (violations@[i as int]@, keep@[i as int])));
        }
        i += 1;
    }
    proof {
        assert(sel.take(i as int) =~= sel);
    }
    sorted
}

impl FixEngine {
    fn apply_pairs(&self, lines: &mut Vec<String>, ps: &Vec<(RuleViolation, bool)>) -> (r: Result<
        (),
        String,
    >)
        ensures
            match apply_selected(string_views(old(lines)@), pair_views(ps@)) {
                Ok(ls) => r is Ok && string_views(final(lines)@) == ls,
                Err(e) => r matches Err(m) && m@ == e,
            },
    {
        let ghost total = apply_selected(string_views(lines@), pair_views(ps@));
        let ghost pv = pair_views(ps@);
        proof {
            assert(pv.skip(0) =~= pv);
        }
        let mut k: usize = 0;
        while k < ps.len()
            invariant
                pv == pair_views(ps@),
                k <= ps@.len(),
                total == apply_selected(string_views(old(lines)@), pair_views(ps@)),
                total == apply_selected(string_views(lines@), pv.skip(k as int)),
            decreases ps.len() - k,
        {
            proof {
                let u = pv.skip(k as int);
                assert(u[0] == pv[k as int]);
                assert(u.drop_first() =~= pv.skip(k + 1));
            }
            if ps[k].1 {
                let ghost cur = string_views(lines@);
                match self.apply_single_fix(lines, &ps[k].0) {
                    Err(e) => {
                        proof {
                            assert(pv[k as int] == (ps@[k as int].0@, true));
                            assert(apply_one(cur, pv[k as int].0) == Err::<Seq<Seq<char>>, Seq<char>>(e@));
                            assert(apply_selected(cur, pv.skip(k as int)) == Err::<Seq<Seq<char>>, Seq<char>>(e@));
                        }
                        return Err(e);
                    },
                    Ok(()) => {},
                }
            }
            k += 1;
        }
        proof {
            assert(pv.skip(k as int) =~= Seq::<(ViolationView, bool)>::empty());
        }
        Ok(())
    }

    /// Applies the selected fixes to `content`, from the highest line down
    /// (fixes on one line in the order given), and joins the lines back with
    /// `\n`; fails when a selected fix's line does not exist.
    pub fn apply_selected_fixes(
        &self,
        content: &str,
        violations: &[RuleViolation],
        selected: &[bool],
    ) -> (r: Result<String, String>)
        requires
            selected@.len() == violations@.len(),
        ensures
            result_view(r) == fixed_source(content@, views(violations@), selected@),
    {
        let cs = chars_of(content);
        let ls = lines_exec(&cs);
        let mut lines: Vec<String> = Vec::new();
        let mut i: usize = 0;
        while i < ls.len()
            invariant
                i <= ls@.len(),
                string_views(lines@) == line_views(ls@).take(i as int),
            decreases ls.len() - i,
        {
            let ghost before = string_views(lines@);
            let line = string_of(&ls[i]);
            lines.push(line);
            proof {
                assert(line_views(ls@)[i as int] == ls@[i as int]@);
                assert(line_views(ls@).take(i + 1) =~= line_views(ls@).take(i as int).push(ls@[i as int]@));
                assert(string_views(lines@) =~= before.push(line@));
            }
            i += 1;
        }
        proof {
            assert(line_views(ls@).take(i as int) =~= line_views(ls@));
        }
        let sorted = sort_selection(violations, selected);
        match self.apply_pairs(&mut lines, &sorted) {
            Err(e) => Err(e),
            Ok(()) => {
                let joined = join_strings(&lines, "\n");
                Ok(string_of(&joined))
            },
        }
    }

    /// Applies the safe fixes to `content` (see `apply_selected_fixes`).
    pub fn apply_fixes_to_source(&self, content: &str, violations: &[RuleViolation]) -> (r: Result<
        String,
        String,
    >)
        ensures
            result_view(r) == fixed_source(
                content@,
                views(violations@),
                views(violations@).map_values(|v: ViolationView| is_safe_rule(v.rule_name)),
            ),
    {
        let mut keep: Vec<bool> = Vec::new();
        let mut i: usize = 0;
        while i < violations.len()
            invariant
                i <= violations@.len(),
                keep@ == views(violations@).take(i as int).map_values(
                    |v: ViolationView| is_safe_rule(v.rule_name),
                ),
            decreases violations.len() - i,
        {
            keep.push(self.is_safe_fix(&violations[i]));
            i += 1;
            assert(keep@ =~= views(violations@).take(i as int).map_values(
                |v: ViolationView| is_safe_rule(v.rule_name),
            ));
        }
        assert(views(violations@).take(i as int) =~= views(violations@));
        self.apply_selected_fixes(content, violations, &keep)
    }

    fn line_group(violations: &[RuleViolation], line: usize) -> (r: Vec<RuleViolation>)
        ensures
            views(r@) == on_line(views(violations@), line as int),
    {
        let mut g: Vec<RuleViolation> = Vec::new();
        let mut i: usize = 0;
        while i < violations.len()
            invariant
                i <= violations@.len(),
                views(g@) == on_line(views(violations@).take(i as int), line as int),
            decreases violations.len() - i,
        {
            let ghost before = views(g@);
            proof {
                assert(views(violations@).take(i + 1).drop_last() =~= views(violations@).take(i as int));
            }
            if violations[i].line_number == line {
                g.push(copy_violation(&violations[i]));
                proof {
                    assert(views(g@) =~= before.push(violations@[i as int]@));
                }
            }
            i += 1;
        }
        assert(views(violations@).take(i as int) =~= views(violations@));
        g
    }

    fn distinct_line_numbers(violations: &[RuleViolation]) -> (r: Vec<usize>)
        ensures
            line_ints(r@) == distinct_lines(views(violations@)),
    {
        let mut dl: Vec<usize> = Vec::new();
        let mut i: usize = 0;
        while i < violations.len()
            invariant
                i <= violations@.len(),
                line_ints(dl@) == distinct_lines(views(violations@).take(i as int)),
            decreases violations.len() - i,
        {
            let line = violations[i].line_number;
            proof {
                assert(views(violations@).take(i + 1).drop_last() =~= views(violations@).take(i as int));
            }
            let mut seen = false;
            let mut k: usize = 0;
            while k < dl.len()
                invariant
                    k <= dl@.len(),
                    seen <==> exists|j: int| 0 <= j < k && dl@[j] == line,
                decreases dl.len() - k,
            {
                if dl[k] == line {
                    seen = true;
                }
                k += 1;
            }
            let ghost before = line_ints(dl@);
            proof {
                if seen {
                    let j = choose|j: int| 0 <= j < k && dl@[j] == line;
                    assert(before[j] == line as int);
                } else {
                    assert(!before.contains(line as int)) by {
                        if before.contains(line as int) {
                            let j = choose|j: int| 0 <= j < before.len() && before[j] == line as int;
                            assert(dl@[j] == line);
                        }
                    }
                }
            }
            if !seen {
                dl.push(line);
                proof {
                    assert(line_ints(dl@) =~= before.push(line as int));
                }
            }
            i += 1;
        }
        assert(views(violations@).take(i as int) =~= views(violations@));
        dl
    }

    fn group_has_conflict(&self, g: &Vec<RuleViolation>) -> (r: bool)
        ensures
            r == has_conflict(views(g@)),
    {
        let ghost gv = views(g@);
        let mut i: usize = 0;
        while i < g.len()
            invariant
                gv == views(g@),
                i <= g@.len(),
                forall|a: int, b: int|
                    0 <= a < i && a < b < g@.len() ==> !#[trigger] conflict_spec(gv[a].rule_name, gv[b].rule_name),
            decreases g.len() - i,
        {
            let mut j: usize = i + 1;
            while j < g.len()
                invariant
                    gv == views(g@),
                    i < g@.len(),
                    i + 1 <= j <= g@.len(),
                    forall|a: int, b: int|
                        0 <= a < i && a < b < g@.len() ==> !#[trigger] conflict_spec(gv[a].rule_name, gv[b].rule_name),
                    forall|b: int| i < b < j ==> !#[trigger] conflict_spec(gv[i as int].rule_name, gv[b].rule_name),
                decreases g.len() - j,
            {
                if self.rules_conflict(g[i].rule_name.as_str(), g[j].rule_name.as_str()) {
                    assert(conflict_spec(gv[i as int].rule_name, gv[j as int].rule_name));
                    return true;
                }
                j += 1;
            }
            i += 1;
        }
        false
    }

    /// The fixes that are safe to apply together: for each line, in order of
    /// first appearance, its safe fixes, unless two fixes on the line come
    /// from conflicting rules.
    pub fn validate_and_filter_fixes(&self, violations: &[RuleViolation]) -> (r: Vec<RuleViolation>)
        ensures
            views(r@) == filtered_fixes(views(violations@)),
    {
        let ghost vs = views(violations@);
        let dl = Self::distinct_line_numbers(violations);
        let ghost ls = distinct_lines(vs);
        let mut safe: Vec<RuleViolation> = Vec::new();
        let mut n: usize = 0;
        while n < dl.len()
            invariant
                vs == views(violations@),
                ls == distinct_lines(vs),
                line_ints(dl@) == ls,
                n <= dl@.len(),
                views(safe@) == kept_fixes(vs, ls, n as int),
            decreases dl.len() - n,
        {
            let g = Self::line_group(violations, dl[n]);
            let ghost gv = views(g@);
            let ghost start = views(safe@);
            assert(ls[n as int] == dl@[n as int] as int);
            if !self.group_has_conflict(&g) {
                let mut k: usize = 0;
                while k < g.len()
                    invariant
                        gv == views(g@),
                        k <= g@.len(),
                        views(safe@) == start + safe_ones(gv.take(k as int)),
                    decreases g.len() - k,
                {
                    let ghost before = views(safe@);
                    proof {
                        assert(gv.take(k + 1).drop_last() =~= gv.take(k as int));
                    }
                    if self.is_safe_fix(&g[k]) {
                        safe.push(copy_violation(&g[k]));
                        proof {
                            assert(views(safe@) =~= before.push(g@[k as int]@));
                        }
                    }
                    k += 1;
                }
                proof {
                    assert(gv.take(k as int) =~= gv);
                }
            } else {
                assert(views(safe@) =~= start + Seq::<ViolationView>::empty());
            }
            n += 1;
        }
        safe
    }
}


/// One fix of a preview: which violation it is for, the line as it is, the
/// line proposed in its place, and whether the fix is safe.
pub struct PreviewLine {
    pub violation_index: usize,
    pub original_line: String,
    pub suggested_line: String,
    pub is_safe: bool,
}

/// The fixes a preview shows, with how many of them are safe and unsafe.
pub struct FixPlan {
    pub entries: Vec<PreviewLine>,
    pub safe_fixes: usize,
    pub unsafe_fixes: usize,
}

/// The content of a preview entry.
pub open spec fn preview_view(e: PreviewLine) -> (int, Seq<char>, Seq<char>, bool) {
    (e.violation_index as int, e.original_line@, e.suggested_line@, e.is_safe)
}

/// The preview entries for the first `n` violations: one for each violation
/// whose line exists.
pub open spec fn preview_spec(lines: Seq<Seq<char>>, vs: Seq<ViolationView>, n: int) -> Seq<
    (int, Seq<char>, Seq<char>, bool),
>
    decreases n,
{
    if n <= 0 {
        seq![]
    } else {
        let v = vs[n - 1];
        let idx = fix_index(v.line_number);
        preview_spec(lines, vs, n - 1) + if idx >= lines.len() {
            seq![]
        } else {
            seq![(n - 1, lines[idx], suggested_line_spec(lines[idx], v), is_safe_rule(v.rule_name))]
        }
    }
}

/// How many entries have the given safety.
pub open spec fn count_safety(es: Seq<(int, Seq<char>, Seq<char>, bool)>, safe: bool) -> nat
    decreases es.len(),
{
    if es.len() == 0 {
        0
    } else {
        count_safety(es.drop_last(), safe) + if es.last().3 == safe {
            1nat
        } else {
            0nat
        }
    }
}

impl FixEngine {
    /// The fixes a preview of `lines` shows for `violations`: one entry per
    /// violation whose line exists, in order, with the counts of safe and
    /// unsafe entries.
    pub fn plan_preview(&self, lines: &[String], violations: &[RuleViolation]) -> (r: FixPlan)
        ensures
            r.entries@.map_values(|e: PreviewLine| preview_view(e)) == preview_spec(
                string_views(lines@),
                views(violations@),
                violations@.len() as int,
            ),
            r.safe_fixes == count_safety(
                preview_spec(string_views(lines@), views(violations@), violations@.len() as int),
                true,
            ),
            r.unsafe_fixes == count_safety(
                preview_spec(string_views(lines@), views(violations@), violations@.len() as int),
                false,
            ),
    {
        let ghost lv = string_views(lines@);
        let ghost vs = views(violations@);
        let mut entries: Vec<PreviewLine> = Vec::new();
        let mut safe_count: usize = 0;
        let mut unsafe_count: usize = 0;
        let mut i: usize = 0;
        while i < violations.len()
            invariant
                lv == string_views(lines@),
                vs == views(violations@),
                i <= violations@.len(),
                entries@.len() <= i,
                entries@.map_values(|e: PreviewLine| preview_view(e)) == preview_spec(lv, vs, i as int),
                safe_count == count_safety(preview_spec(lv, vs, i as int), true),
                unsafe_count == count_safety(preview_spec(lv, vs, i as int), false),
                safe_count + unsafe_count == entries@.len(),
            decreases violations.len() - i,
        {
            let v = &violations[i];
            let line_idx = if v.line_number == 0 {
                0
            } else {
                v.line_number - 1
            };
            let ghost before = entries@.map_values(|e: PreviewLine| preview_view(e));
            if line_idx < lines.len() {
                let is_safe = self.is_safe_fix(v);
                let original_line = lines[line_idx].clone();
                let suggested_line = self.generate_suggested_line(original_line.as_str(), v);
                let e = PreviewLine { violation_index: i, original_line, suggested_line, is_safe };
                entries.push(e);
                if is_safe {
                    safe_count += 1;
                } else {
                    unsafe_count += 1;
                }
                proof {
                    assert(lv[line_idx as int] == lines@[line_idx as int]@);
                    assert(entries@.map_values(|e: PreviewLine| preview_view(e)) =~= before.push(
                        preview_view(e),
                    ));
                    let ps = preview_spec(lv, vs, i + 1);
                    assert(ps.drop_last() =~= preview_spec(lv, vs, i as int));
                }
            } else {
                proof {
                    assert(entries@.map_values(|e: PreviewLine| preview_view(e)) =~= preview_spec(
                        lv,
                        vs,
                        i + 1,
                    ));
                    assert(preview_spec(lv, vs, i + 1) =~= preview_spec(lv, vs, i as int));
                }
            }
            i += 1;
        }
        FixPlan { entries, safe_fixes: safe_count, unsafe_fixes: unsafe_count }
    }
}


proof fn lemma_safe_ones(g: Seq<ViolationView>)
    ensures
        forall|k: int|
            #![trigger safe_ones(g)[k]]
            0 <= k < safe_ones(g).len() ==> is_safe_rule(safe_ones(g)[k].rule_name) && g.contains(
                safe_ones(g)[k],
            ),
    decreases g.len(),
{
    if g.len() > 0 {
        lemma_safe_ones(g.drop_last());
        let s = safe_ones(g);
        let s0 = safe_ones(g.drop_last());
        assert forall|k: int| #![trigger s[k]] 0 <= k < s.len() implies is_safe_rule(s[k].rule_name) && g.contains(s[k]) by {
            if k < s0.len() {
                assert(s[k] == s0[k]);
                assert(g.drop_last().contains(s0[k]));
                let j = choose|j: int| 0 <= j < g.drop_last().len() && g.drop_last()[j] == s0[k];
                assert(g[j] == s0[k]);
            } else {
                assert(s[k] == g.last());
                assert(g[g.len() - 1] == g.last());
            }
        }
    }
}

proof fn lemma_on_line(vs: Seq<ViolationView>, line: int)
    ensures
        forall|k: int|
            #![trigger on_line(vs, line)[k]]
            0 <= k < on_line(vs, line).len() ==> vs.contains(on_line(vs, line)[k])
                && on_line(vs, line)[k].line_number == line,
    decreases vs.len(),
{
    if vs.len() > 0 {
        lemma_on_line(vs.drop_last(), line);
        let s = on_line(vs, line);
        let s0 = on_line(vs.drop_last(), line);
        assert forall|k: int| #![trigger s[k]] 0 <= k < s.len() implies vs.contains(s[k]) && s[k].line_number == line by {
            if k < s0.len() {
                assert(s[k] == s0[k]);
                assert(vs.drop_last().contains(s0[k]));
                let j = choose|j: int| 0 <= j < vs.drop_last().len() && vs.drop_last()[j] == s0[k];
                assert(vs[j] == s0[k]);
            } else {
                assert(s[k] == vs.last());
                assert(vs[vs.len() - 1] == vs.last());
            }
        }
    }
}

proof fn lemma_kept_fixes(vs: Seq<ViolationView>, ls: Seq<int>, n: int)
    requires
        0 <= n <= ls.len(),
    ensures
        forall|k: int| 0 <= k < kept_fixes(vs, ls, n).len() ==> {
            &&& is_safe_rule((#[trigger] kept_fixes(vs, ls, n)[k]).rule_name)
            &&& vs.contains(kept_fixes(vs, ls, n)[k])
            &&& !has_conflict(on_line(vs, kept_fixes(vs, ls, n)[k].line_number))
        },
    decreases n,
{
    if n > 0 {
        lemma_kept_fixes(vs, ls, n - 1);
        let g = on_line(vs, ls[n - 1]);
        lemma_on_line(vs, ls[n - 1]);
        lemma_safe_ones(g);
        let s = kept_fixes(vs, ls, n);
        let s0 = kept_fixes(vs, ls, n - 1);
        assert forall|k: int| 0 <= k < s.len() implies {
            &&& is_safe_rule((#[trigger] s[k]).rule_name)
            &&& vs.contains(s[k])
            &&& !has_conflict(on_line(vs, s[k].line_number))
        } by {
            if k < s0.len() {
                assert(s[k] == s0[k]);
            } else {
                assert(!has_conflict(g));
                let x = safe_ones(g)[k - s0.len()];
                assert(s[k] == x);
                assert(is_safe_rule(x.rule_name) && g.contains(x));
                let j = choose|j: int| 0 <= j < g.len() && g[j] == x;
                assert(g[j].line_number == ls[n - 1]);
            }
        }
    }
}

/// Law: screening keeps only fixes that are safe, that were among the
/// violations given, and whose line carries no conflicting pair of fixes.
pub proof fn law_filtered_fixes_are_safe(vs: Seq<ViolationView>)
    ensures
        forall|k: int| 0 <= k < filtered_fixes(vs).len() ==> {
            &&& is_safe_rule((#[trigger] filtered_fixes(vs)[k]).rule_name)
            &&& vs.contains(filtered_fixes(vs)[k])
            &&& !has_conflict(on_line(vs, filtered_fixes(vs)[k].line_number))
        },
{
    lemma_kept_fixes(vs, distinct_lines(vs), distinct_lines(vs).len() as int);
}

proof fn lemma_trail_ws_keeps(s: Seq<char>, k: int)
    requires
        0 <= k < s.len(),
        !crate::text::is_ws(s[k]),
    ensures
        crate::text::trail_ws(s) <= s.len() - 1 - k,
    decreases s.len(),
{
    if s.len() > 0 && crate::text::is_ws(s.last()) {
        assert(k < s.len() - 1);
        assert(s.drop_last()[k] == s[k]);
        lemma_trail_ws_keeps(s.drop_last(), k);
    }
}

/// Law: commenting out a line twice is the same as once; a line the fix
/// already commented out is left alone.
pub proof fn law_comment_out_idempotent(line: Seq<char>)
    ensures
        commented(commented(line)) == commented(line),
{
    let c = commented(line);
    if !starts_with(trim(line), "//"@) {
        reveal_strlit("// [GasGuard Auto-Fix] ");
        reveal_strlit("//");
        assert(c[0] == '/' && c[1] == '/');
        assert(!crate::text::is_ws(c[0]));
        assert(crate::text::lead_ws(c) == 0);
        assert(crate::text::trim_start(c) =~= c);
        lemma_trail_ws_keeps(c, 1);
        let t = trim(c);
        assert(t.len() >= 2);
        assert(t[0] == '/' && t[1] == '/');
        assert(t.subrange(0, 2) =~= "//"@);
    }
}

proof fn lemma_first_occurrence_exists(hay: Seq<char>, needle: Seq<char>, j: int)
    requires
        occurs_at(hay, j, needle),
    ensures
        exists|i: int| first_occurrence_from(hay, needle, 0, i),
    decreases j,
{
    if exists|k: int| 0 <= k < j && occurs_at(hay, k, needle) {
        let k = choose|k: int| 0 <= k < j && occurs_at(hay, k, needle);
        lemma_first_occurrence_exists(hay, needle, k);
    } else {
        assert(first_occurrence_from(hay, needle, 0, j));
    }
}

/// After every `@external` is replaced by `@internal`, none is left.
proof fn lemma_replace_external_clears(s: Seq<char>)
    ensures
        !has_sub(replace_all(s, "@external"@, "@internal"@), "@external"@),
    decreases s.len(),
{
    reveal_strlit("@external");
    reveal_strlit("@internal");
    let p = "@external"@;
    let q = "@internal"@;
    if has_sub(s, p) {
        let j = choose|j: int| occurs_at(s, j, p);
        lemma_first_occurrence_exists(s, p, j);
    }
    match find_sub(s, p) {
        Some(i) => {
            assert(first_occurrence_from(s, p, 0, i));
            let rest = s.skip(i + 9);
            lemma_replace_external_clears(rest);
            let rr = replace_all(rest, p, q);
            let out = s.take(i) + q + rr;
            assert(replace_all(s, p, q) == out);
            assert forall|k: int| !occurs_at(out, k, p) by {
                if occurs_at(out, k, p) {
                    let w = out.subrange(k, k + 9);
                    assert(w == p);
                    assert forall|m: int| 0 <= m < 9 implies out[k + m] == p[m] by {
                        assert(w[m] == out[k + m]);
                    }
                    if k + 9 <= i {
                        assert(s.subrange(k, k + 9) =~= w);
                        assert(occurs_at(s, k, p));
                    } else if k < i {
                        assert(out[i] == q[0]);
                        assert(out[k + (i - k)] == p[i - k]);
                    } else if k == i {
                        assert(out[i + 1] == q[1]);
                        assert(out[k + 1] == p[1]);
                    } else if k < i + 9 {
                        assert(out[k] == q[k - i]);
                        assert(out[k + 0] == p[0]);
                    } else {
                        assert(rr.subrange(k - i - 9, k - i) =~= w);
                        assert(occurs_at(rr, k - i - 9, p));
                    }
                }
            }
        },
        None => {},
    }
}

/// Applying a fix's line rewrite a second time changes nothing.
proof fn lemma_fixed_line_idempotent(line: Seq<char>, rule: Seq<char>)
    ensures
        fixed_line(fixed_line(line, rule), rule) == fixed_line(line, rule),
{
    if is_comment_out_rule(rule) {
        law_comment_out_idempotent(line);
    } else if rule == "redundant-external"@ {
        let t = replace_all(line, "@external"@, "@internal"@);
        lemma_replace_external_clears(line);
        reveal_strlit("@external");
        assert(find_sub(t, "@external"@) is None);
    }
}

/// Law: applying the same fix twice leaves the lines as applying it once.
pub proof fn law_fix_twice_same_as_once(lines: Seq<Seq<char>>, v: ViolationView)
    ensures
        apply_one(lines, v) matches Ok(once) ==> apply_one(once, v) == Ok::<Seq<Seq<char>>, Seq<char>>(once),
{
    if let Ok(once) = apply_one(lines, v) {
        let idx = fix_index(v.line_number);
        lemma_fixed_line_idempotent(lines[idx], v.rule_name);
        assert(once.update(idx, fixed_line(once[idx], v.rule_name)) =~= once);
    }
}

/// Law: a fix changes at most its own line and never the number of lines.
pub proof fn law_fix_touches_one_line(lines: Seq<Seq<char>>, v: ViolationView)
    ensures
        match apply_one(lines, v) {
            Ok(next) => next.len() == lines.len() && forall|k: int|
                0 <= k < lines.len() && k != fix_index(v.line_number) ==> next[k] == lines[k],
            Err(_) => fix_index(v.line_number) >= lines.len(),
        },
{
}

/// Law: when no fix is selected, applying fixes leaves the lines as they are.
pub proof fn law_nothing_selected_unchanged(lines: Seq<Seq<char>>, ps: Seq<(ViolationView, bool)>)
    requires
        forall|k: int| 0 <= k < ps.len() ==> !(#[trigger] ps[k]).1,
    ensures
        apply_selected(lines, ps) == Ok::<Seq<Seq<char>>, Seq<char>>(lines),
    decreases ps.len(),
{
    if ps.len() > 0 {
        assert(!ps[0].1);
        assert forall|k: int| 0 <= k < ps.drop_first().len() implies !(#[trigger] ps.drop_first()[k]).1 by {
            assert(ps.drop_first()[k] == ps[k + 1]);
        }
        law_nothing_selected_unchanged(lines, ps.drop_first());
    }
}

proof fn lemma_insert_pos(s: Seq<(ViolationView, bool)>, line: int)
    requires
        forall|i: int, j: int| 0 <= i < j < s.len() ==> (#[trigger] s[i]).0.line_number >= (#[trigger] s[j]).0.line_number,
    ensures
        0 <= insert_pos(s, line) <= s.len(),
        forall|i: int| 0 <= i < insert_pos(s, line) ==> (#[trigger] s[i]).0.line_number >= line,
        forall|i: int| insert_pos(s, line) <= i < s.len() ==> (#[trigger] s[i]).0.line_number < line,
    decreases s.len(),
{
    if s.len() > 0 && s[0].0.line_number >= line {
        let t = s.drop_first();
        assert forall|i: int, j: int| 0 <= i < j < t.len() implies (#[trigger] t[i]).0.line_number >= (#[trigger] t[j]).0.line_number by {
            assert(t[i] == s[i + 1] && t[j] == s[j + 1]);
        }
        lemma_insert_pos(t, line);
        assert forall|i: int| 0 <= i < insert_pos(s, line) implies (#[trigger] s[i]).0.line_number >= line by {
            if i > 0 {
                assert(s[i] == t[i - 1]);
            }
        }
        assert forall|i: int| insert_pos(s, line) <= i < s.len() implies (#[trigger] s[i]).0.line_number < line by {
            assert(s[i] == t[i - 1]);
        }
    } else if s.len() > 0 {
        assert forall|i: int| 0 <= i < s.len() implies (#[trigger] s[i]).0.line_number < line by {
            if i > 0 {
                assert(s[0].0.line_number >= s[i].0.line_number);
            }
        }
    }
}

/// Law: fixes are applied from the highest line down: the sorted list has
/// every fix of the input and is in descending order of line number.
pub proof fn law_sort_by_line_desc(ps: Seq<(ViolationView, bool)>)
    ensures
        sort_by_line_desc(ps).len() == ps.len(),
        forall|i: int, j: int|
            0 <= i < j < ps.len() ==> (#[trigger] sort_by_line_desc(ps)[i]).0.line_number >= (
            #[trigger] sort_by_line_desc(ps)[j]).0.line_number,
        sort_by_line_desc(ps).to_multiset() == ps.to_multiset(),
    decreases ps.len(),
{
    if ps.len() > 0 {
        let t = sort_by_line_desc(ps.drop_last());
        law_sort_by_line_desc(ps.drop_last());
        let x = ps.last();
        let line = x.0.line_number;
        lemma_insert_pos(t, line);
        let k = insert_pos(t, line);
        let s = t.insert(k, x);
        assert(s == sort_by_line_desc(ps));
        assert forall|i: int, j: int| 0 <= i < j < s.len() implies (#[trigger] s[i]).0.line_number >= (#[trigger] s[j]).0.line_number by {
            if j < k {
                assert(s[i] == t[i] && s[j] == t[j]);
            } else if j == k {
                assert(s[j] == x);
                assert(s[i] == t[i]);
            } else if i < k {
                assert(s[i] == t[i] && s[j] == t[j - 1]);
            } else if i == k {
                assert(s[i] == x && s[j] == t[j - 1]);
            } else {
                assert(s[i] == t[i - 1] && s[j] == t[j - 1]);
            }
        }
        vstd::seq_lib::lemma_multiset_commutative(ps.drop_last(), seq![x]);
        assert(ps =~= ps.drop_last() + seq![x]);
        t.insert_ensures(k, x);
        assert(s.to_multiset() =~= t.to_multiset().insert(x)) by {
            broadcast use vstd::seq_lib::group_to_multiset_ensures;
            vstd::seq_lib::to_multiset_insert(t, k, x);
        }
        assert((seq![x]).to_multiset() =~= vstd::multiset::Multiset::empty().insert(x)) by {
            broadcast use vstd::seq_lib::group_to_multiset_ensures;
            assert(seq![x] =~= Seq::<(ViolationView, bool)>::empty().push(x));
        }
        assert(ps.to_multiset() =~= ps.drop_last().to_multiset().insert(x)) by {
            broadcast use vstd::seq_lib::group_to_multiset_ensures;
            assert(ps =~= ps.drop_last().push(x));
        }
    }
}


/// Law: the fixes of the two unused-state rules, `unused-state-variable` and
/// `soroban-unused-state-variables`, are both safe and both comment the
/// flagged line out with the auto-fix marker, in a fix and in a preview
/// alike; `redundant-external` is safe too and turns `@external` into
/// `@internal`. Every other rule is unsafe and leaves its line as it is.
pub proof fn law_fix_of_each_rule(line: Seq<char>, rule: Seq<char>, v: ViolationView)
    ensures
        !starts_with(trim(line), "//"@) ==> fixed_line(line, "unused-state-variable"@)
            == "// [GasGuard Auto-Fix] "@ + line,
        !starts_with(trim(line), "//"@) ==> fixed_line(line, "soroban-unused-state-variables"@)
            == "// [GasGuard Auto-Fix] "@ + line,
        starts_with(trim(line), "//"@) ==> fixed_line(line, "unused-state-variable"@) == line
            && fixed_line(line, "soroban-unused-state-variables"@) == line,
        (v.rule_name == "unused-state-variable"@ || v.rule_name == "soroban-unused-state-variables"@)
            ==> suggested_line_spec(line, v) == fixed_line(line, v.rule_name),
        is_safe_rule("unused-state-variable"@),
        is_safe_rule("soroban-unused-state-variables"@),
        is_safe_rule("redundant-external"@),
        fixed_line(line, "redundant-external"@) == replace_all(line, "@external"@, "@internal"@),
        rule != "unused-state-variable"@ && rule != "soroban-unused-state-variables"@ && rule
            != "redundant-external"@ ==> !is_safe_rule(rule) && fixed_line(line, rule) == line,
{
    reveal_strlit("unused-state-variable");
    reveal_strlit("soroban-unused-state-variables");
    reveal_strlit("redundant-external");
    reveal_strlit("// [GasGuard Auto-Fix] ");
    assert("unused-state-variable"@[0] != "redundant-external"@[0]);
    assert("soroban-unused-state-variables"@[0] != "redundant-external"@[0]);
    assert("unused-state-variable"@ != "redundant-external"@);
    assert("soroban-unused-state-variables"@ != "redundant-external"@);
    assert(AUTO_FIX_PREFIX@ == "// [GasGuard Auto-Fix] "@);
}

} // verus!
