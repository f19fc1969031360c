//! Detect constructor visibility issues.
//!
//! Solidity >= 0.7.0 removed visibility modifiers (`public` / `internal`) on
//! constructors. Their presence is a compile error. In earlier versions the
//! modifiers were redundant (`public`) or used to mark abstract contracts
//! (`internal`). This rule flags both patterns and suggests the correct fix.

use vstd::prelude::*;
use crate::text::{
    chars_of, contains, has_sub, is_ascii_alnum, is_ascii_alphanumeric, line_views,
    lines, lines_exec, occurs_at, occurs_at_exec, push_str, starts_with, starts_with_exec,
    string_of, trim, trim_exec, word_after, word_after_exec,
};

use crate::rules::syntax::{debug_texts, item_debug_text};
use crate::violation::{
    RuleViolation, ViolationSeverity, ViolationView, append_all, concat_over, make_violation, views,
    vview,
};

verus! {

/// Flags constructors that carry a visibility modifier.
pub struct ConstructorVisibilityRule;

/// The kind of constructor finding.
#[derive(Debug, Clone, Copy, PartialEq, Eq, Structural)]
pub enum CtorKind {
    ModernPublic,
    ModernInternal,
    LegacyPublic,
    LegacyInternal,
}

/// The contract name that a line declares, if it declares one.
pub open spec fn contract_name_of(line: Seq<char>) -> Seq<Seq<char>> {
    let t = trim(line);
    if starts_with(t, "contract "@) || has_sub(t, " contract "@) {
        match word_after(t, "contract"@) {
            Some(n) => seq![n],
            None => seq![],
        }
    } else {
        seq![]
    }
}

/// Contract names declared in the first `n` lines of `ls`, in order.
pub open spec fn contract_names_upto(ls: Seq<Seq<char>>, n: int) -> Seq<Seq<char>>
    decreases n,
{
    if n <= 0 {
        seq![]
    } else {
        contract_names_upto(ls, n - 1) + contract_name_of(ls[n - 1])
    }
}

/// `w` occurs in `s` at `i` between non-alphanumeric ASCII neighbours (or
/// the ends of `s`).
pub open spec fn word_at(s: Seq<char>, w: Seq<char>, i: int) -> bool {
    &&& occurs_at(s, i, w)
    &&& (i == 0 || !is_ascii_alnum(s[i - 1]))
    &&& (i + w.len() >= s.len() || !is_ascii_alnum(s[i + w.len()]))
}

/// Some occurrence of `w` in `s` is a whole word.
pub open spec fn contains_word_spec(s: Seq<char>, w: Seq<char>) -> bool {
    exists|i: int| #[trigger] word_at(s, w, i)
}

/// The modern-constructor finding of a trimmed line.
pub open spec fn modern_finding(t: Seq<char>, lineno: int) -> Seq<(CtorKind, int, Seq<char>)> {
    if starts_with(t, "constructor"@) {
        if contains_word_spec(t, "public"@) {
            seq![(CtorKind::ModernPublic, lineno, t)]
        } else if contains_word_spec(t, "internal"@) {
            seq![(CtorKind::ModernInternal, lineno, t)]
        } else {
            seq![]
        }
    } else {
        seq![]
    }
}

/// The legacy-constructor finding of a trimmed line for one contract name.
pub open spec fn legacy_finding(t: Seq<char>, name: Seq<char>, lineno: int) -> Seq<
    (CtorKind, int, Seq<char>),
> {
    if has_sub(t, "function "@ + name + "("@) || has_sub(t, "function "@ + name + " ("@) {
        if contains_word_spec(t, "public"@) {
            seq![(CtorKind::LegacyPublic, lineno, t)]
        } else if contains_word_spec(t, "internal"@) {
            seq![(CtorKind::LegacyInternal, lineno, t)]
        } else {
            seq![]
        }
    } else {
        seq![]
    }
}

/// Legacy findings of a trimmed line for the first `k` contract names.
pub open spec fn legacy_findings(t: Seq<char>, names: Seq<Seq<char>>, k: int, lineno: int) -> Seq<
    (CtorKind, int, Seq<char>),
>
    decreases k,
{
    if k <= 0 {
        seq![]
    } else {
        legacy_findings(t, names, k - 1, lineno) + legacy_finding(t, names[k - 1], lineno)
    }
}

/// All findings on the first `n` lines of `ls`, given the contract names.
pub open spec fn scan_upto(ls: Seq<Seq<char>>, names: Seq<Seq<char>>, n: int) -> Seq<
    (CtorKind, int, Seq<char>),
>
    decreases n,
{
    if n <= 0 {
        seq![]
    } else {
        scan_upto(ls, names, n - 1) + modern_finding(trim(ls[n - 1]), n) + legacy_findings(
            trim(ls[n - 1]),
            names,
            names.len() as int,
            n,
        )
    }
}

/// Every constructor finding of `source`, in line order.
pub open spec fn scan_spec(source: Seq<char>) -> Seq<(CtorKind, int, Seq<char>)> {
    let ls = lines(source);
    scan_upto(ls, contract_names_upto(ls, ls.len() as int), ls.len() as int)
}

/// The label that `check_constructor_visibility` reports for a kind.
pub open spec fn kind_label(k: CtorKind) -> Seq<char> {
    match k {
        CtorKind::ModernPublic => "constructor-public"@,
        CtorKind::ModernInternal => "constructor-internal"@,
        CtorKind::LegacyPublic => "legacy-constructor-public"@,
        CtorKind::LegacyInternal => "legacy-constructor-internal"@,
    }
}

/// The view of scan results.
pub open spec fn finding_views(v: Seq<(CtorKind, usize, String)>) -> Seq<(CtorKind, int, Seq<char>)> {
    v.map_values(|f: (CtorKind, usize, String)| (f.0, f.1 as int, f.2@))
}

/// The labelled findings of `source`.
pub open spec fn labelled(fs: Seq<(CtorKind, int, Seq<char>)>) -> Seq<(Seq<char>, int)> {
    fs.map_values(|f: (CtorKind, int, Seq<char>)| (kind_label(f.0), f.1))
}

/// The view of a list of `(label, line)` pairs.
pub open spec fn label_lines(v: Seq<(String, usize)>) -> Seq<(Seq<char>, int)> {
    v.map_values(|p: (String, usize)| (p.0@, p.1 as int))
}

impl ConstructorVisibilityRule {
    /// The contract names declared in `ls`, in order.
    fn contract_names(ls: &Vec<Vec<char>>) -> (r: Vec<Vec<char>>)
        ensures
            line_views(r@) == contract_names_upto(line_views(ls@), ls@.len() as int),
    {
        let mut names: Vec<Vec<char>> = Vec::new();
        let mut i: usize = 0;
        while i < ls.len()
            invariant
                i <= ls@.len(),
                line_views(names@) == contract_names_upto(line_views(ls@), i as int),
            decreases ls.len() - i,
        {
            let t = trim_exec(&ls[i]);
            assert(line_views(ls@)[i as int] == ls@[i as int]@);
            let ghost before = names@;
            let c1 = chars_of("contract ");
            let c2 = chars_of(" contract ");
            if starts_with_exec(&t, &c1) || contains(&t, &c2) {
                if let Some(name) = Self::extract_word_after(&t, "contract") {
                    names.push(name);
                    proof {
                        assert(line_views(names@) =~= line_views(before).push(name@));
                    }
                }
            }
            i += 1;
            proof {
                assert(line_views(names@) =~= contract_names_upto(line_views(ls@), i as int));
            }
        }
        names
    }

    /// Every constructor finding of `source`: its kind, 1-based line and
    /// trimmed text.
    pub fn scan(source: &str) -> (r: Vec<(CtorKind, usize, String)>)
        ensures
            finding_views(r@) == scan_spec(source@),
    {
        let cs = chars_of(source);
        let ls = lines_exec(&cs);
        let names = Self::contract_names(&ls);
        let ghost lsv = line_views(ls@);
        let ghost nv = line_views(names@);
        let mut findings: Vec<(CtorKind, usize, String)> = Vec::new();
        let mut i: usize = 0;
        while i < ls.len()
            invariant
                i <= ls@.len(),
                lsv == line_views(ls@),
                lsv == lines(source@),
                nv == line_views(names@),
                nv == contract_names_upto(lsv, lsv.len() as int),
                finding_views(findings@) == scan_upto(lsv, nv, i as int),
            decreases ls.len() - i,
        {
            let lineno = i + 1;
            let t = trim_exec(&ls[i]);
            assert(lsv[i as int] == ls@[i as int]@);
            let ghost t_v = t@;
            let ghost start = finding_views(findings@);
            let ctor = chars_of("constructor");
            if starts_with_exec(&t, &ctor) {
                if Self::contains_word(&t, "public") {
                    findings.push((CtorKind::ModernPublic, lineno, string_of(&t)));
                } else if Self::contains_word(&t, "internal") {
                    findings.push((CtorKind::ModernInternal, lineno, string_of(&t)));
                }
            }
            proof {
                assert(finding_views(findings@) =~= start + modern_finding(t_v, lineno as int));
            }
            let ghost mid = finding_views(findings@);
            let mut k: usize = 0;
            while k < names.len()
                invariant
                    k <= names@.len(),
                    nv == line_views(names@),
                    t@ == t_v,
                    finding_views(findings@) == mid + legacy_findings(
                        t_v,
                        nv,
                        k as int,
                        lineno as int,
                    ),
                decreases names.len() - k,
            {
                let name = &names[k];
                assert(nv[k as int] == name@);
                let ghost before = finding_views(findings@);
                let mut sig1 = chars_of("function ");
                push_chars_vec(&mut sig1, name);
                let mut sig2 = sig1.clone();
                push_str(&mut sig1, "(");
                push_str(&mut sig2, " (");
                if contains(&t, &sig1) || contains(&t, &sig2) {
                    if Self::contains_word(&t, "public") {
                        findings.push((CtorKind::LegacyPublic, lineno, string_of(&t)));
                    } else if Self::contains_word(&t, "internal") {
                        findings.push((CtorKind::LegacyInternal, lineno, string_of(&t)));
                    }
                }
                k += 1;
                proof {
                    assert(finding_views(findings@) =~= before + legacy_finding(
                        t_v,
                        nv[k - 1],
                        lineno as int,
                    ));
                    assert(finding_views(findings@) =~= mid + legacy_findings(
                        t_v,
                        nv,
                        k as int,
                        lineno as int,
                    ));
                }
            }
            i += 1;
            proof {
                assert(finding_views(findings@) =~= scan_upto(lsv, nv, i as int));
            }
        }
        findings
    }

    /// Whether some occurrence of `word` in `s` is a whole word.
    pub fn contains_word(s: &[char], word: &str) -> (r: bool)
        ensures
            r == contains_word_spec(s@, word@),
    {
        let w = chars_of(word);
        let n = s.len();
        let mut idx: usize = 0;
        loop
            invariant
                w@ == word@,
                n == s@.len(),
                idx <= n,
                forall|j: int| 0 <= j < idx ==> !#[trigger] word_at(s@, word@, j),
            ensures
                forall|j: int| 0 <= j <= n ==> !#[trigger] word_at(s@, word@, j),
            decreases n - idx,
        {
            if occurs_at_exec(s, idx, w.as_slice()) {
                assert(idx + w@.len() <= n);
                let before = idx == 0 || !is_ascii_alphanumeric(s[idx - 1]);
                let after_idx = idx + w.len();
                let after = after_idx >= n || !is_ascii_alphanumeric(s[after_idx]);
                if before && after {
                    assert(word_at(s@, word@, idx as int));
                    return true;
                }
            }
            assert(!word_at(s@, word@, idx as int));
            if idx == n {
                break;
            }
            idx += 1;
        }
        assert forall|j: int| !#[trigger] word_at(s@, word@, j) by {
            if word_at(s@, word@, j) {
                assert(occurs_at(s@, j, word@));
                assert(0 <= j <= n);
            }
        }
        false
    }

    /// The identifier after the first occurrence of `keyword` in `s`.
    pub fn extract_word_after(s: &[char], keyword: &str) -> (r: Option<Vec<char>>)
        ensures
            match r {
                Some(w) => word_after(s@, keyword@) == Some(w@),
                None => word_after(s@, keyword@) is None,
            },
    {
        word_after_exec(s, keyword)
    }
}

/// Appends the characters of `s` to `v`.
fn push_chars_vec(v: &mut Vec<char>, s: &Vec<char>)
    ensures
        final(v)@ == old(v)@ + s@,
{
    crate::text::push_chars(v, s.as_slice());
}

/// Standalone checker over raw Solidity source: each constructor finding as
/// its label and 1-based line.
pub fn check_constructor_visibility(source: &str) -> (r: Vec<(String, usize)>)
    ensures
        label_lines(r@) == labelled(scan_spec(source@)),
{
    let found = ConstructorVisibilityRule::scan(source);
    let mut out: Vec<(String, usize)> = Vec::new();
    let mut i: usize = 0;
    while i < found.len()
        invariant
            i <= found@.len(),
            finding_views(found@) == scan_spec(source@),
            label_lines(out@) == labelled(finding_views(found@).take(i as int)),
        decreases found.len() - i,
    {
        let kind = found[i].0;
        let line = found[i].1;
        let label = match kind {
            CtorKind::ModernPublic => "constructor-public",
            CtorKind::ModernInternal => "constructor-internal",
            CtorKind::LegacyPublic => "legacy-constructor-public",
            CtorKind::LegacyInternal => "legacy-constructor-internal",
        };
        assert(label@ == kind_label(kind));
        assert(finding_views(found@)[i as int] == (kind, line as int, found@[i as int].2@));
        let ghost before = label_lines(out@);
        out.push((crate::text::owned(label), line));
        proof {
            assert(finding_views(found@).take(i + 1) =~= finding_views(found@).take(i as int).push(
                finding_views(found@)[i as int],
            ));
            assert(label_lines(out@) =~= before.push((label@, line as int)));
            assert(labelled(finding_views(found@).take(i + 1)) =~= labelled(
                finding_views(found@).take(i as int),
            ).push((kind_label(kind), line as int)));
            assert(label_lines(out@) =~= labelled(finding_views(found@).take(i + 1)));
        }
        i += 1;
    }
    proof {
        assert(finding_views(found@).take(i as int) =~= finding_views(found@));
    }
    out
}


/// The description, suggestion and severity reported for a kind.
pub open spec fn kind_report(k: CtorKind) -> (Seq<char>, Seq<char>, ViolationSeverity) {
    match k {
        CtorKind::ModernPublic => (
            "Constructor declares `public` visibility — redundant and illegal in Solidity ≥ 0.7.0."@,
            "Remove the `public` modifier from the constructor."@,
            ViolationSeverity::Medium,
        ),
        CtorKind::ModernInternal => (
            "Constructor declares `internal` visibility — illegal in Solidity ≥ 0.7.0."@,
            "Remove `internal` and declare the contract `abstract` instead."@,
            ViolationSeverity::High,
        ),
        CtorKind::LegacyPublic => (
            "Legacy function-style constructor with `public` modifier is outdated."@,
            "Migrate to `constructor(...)` syntax and remove the visibility modifier."@,
            ViolationSeverity::Medium,
        ),
        CtorKind::LegacyInternal => (
            "Legacy function-style constructor with `internal` modifier is outdated."@,
            "Migrate to `abstract contract` with `constructor(...)` syntax."@,
            ViolationSeverity::High,
        ),
    }
}

/// The violation for one finding.
pub open spec fn ctor_view(f: (CtorKind, int, Seq<char>)) -> ViolationView {
    vview(
        "constructor-visibility"@,
        kind_report(f.0).0,
        kind_report(f.0).2,
        f.1,
        0,
        f.2,
        kind_report(f.0).1,
    )
}

/// The violations for the text of one item.
pub open spec fn ctor_findings(code: Seq<char>) -> Seq<ViolationView> {
    scan_spec(code).map_values(|f: (CtorKind, int, Seq<char>)| ctor_view(f))
}

/// `ctor_findings` as a function value.
pub open spec fn ctor_findings_fn() -> spec_fn(Seq<char>) -> Seq<ViolationView> {
    |t: Seq<char>| ctor_findings(t)
}

impl ConstructorVisibilityRule {
    /// The violations for the printed text of one item.
    pub fn check_item_text(&self, code: &str) -> (r: Vec<RuleViolation>)
        ensures
            views(r@) == ctor_findings(code@),
    {
        let found = Self::scan(code);
        let ghost fv = finding_views(found@);
        let mut out: Vec<RuleViolation> = Vec::new();
        let mut i: usize = 0;
        while i < found.len()
            invariant
                i <= found@.len(),
                fv == finding_views(found@),
                fv == scan_spec(code@),
                views(out@) == fv.take(i as int).map_values(
                    |f: (CtorKind, int, Seq<char>)| ctor_view(f),
                ),
            decreases found.len() - i,
        {
            let kind = found[i].0;
            let (description, suggestion, severity) = match kind {
                CtorKind::ModernPublic => (
                    "Constructor declares `public` visibility — redundant and illegal in Solidity ≥ 0.7.0.",
                    "Remove the `public` modifier from the constructor.",
                    ViolationSeverity::Medium,
                ),
                CtorKind::ModernInternal => (
                    "Constructor declares `internal` visibility — illegal in Solidity ≥ 0.7.0.",
                    "Remove `internal` and declare the contract `abstract` instead.",
                    ViolationSeverity::High,
                ),
                CtorKind::LegacyPublic => (
                    "Legacy function-style constructor with `public` modifier is outdated.",
                    "Migrate to `constructor(...)` syntax and remove the visibility modifier.",
                    ViolationSeverity::Medium,
                ),
                CtorKind::LegacyInternal => (
                    "Legacy function-style constructor with `internal` modifier is outdated.",
                    "Migrate to `abstract contract` with `constructor(...)` syntax.",
                    ViolationSeverity::High,
                ),
            };
            let ghost before = views(out@);
            out.push(
                make_violation(
                    "constructor-visibility",
                    description,
                    severity,
                    found[i].1,
                    0,
                    found[i].2.as_str(),
                    suggestion,
                ),
            );
            proof {
                let f = fv[i as int];
                assert(f == (kind, found@[i as int].1 as int, found@[i as int].2@));
                assert(views(out@) =~= before.push(ctor_view(f)));
                assert(fv.take(i + 1) =~= fv.take(i as int).push(f));
                assert(views(out@) =~= fv.take(i + 1).map_values(
                    |f: (CtorKind, int, Seq<char>)| ctor_view(f),
                ));
            }
            i += 1;
        }
        proof {
            assert(fv.take(i as int) =~= fv);
        }
        out
    }
}

impl crate::rules::Rule for ConstructorVisibilityRule {
    fn name(&self) -> (r: &str)
        ensures
            r@ == "constructor-visibility"@,
    {
        "constructor-visibility"
    }

    fn description(&self) -> (r: &str)
        ensures
            r@ == "Detects constructors with visibility modifiers (`public` or `internal`). These modifiers are a compile error in Solidity ≥ 0.7.0. For abstract contracts use the `abstract` keyword instead."@,
    {
        "Detects constructors with visibility modifiers (`public` or `internal`). These modifiers are a compile error in Solidity ≥ 0.7.0. For abstract contracts use the `abstract` keyword instead."
    }

    /// Scans the `Debug` text of each item; the findings are those of
    /// `check_item_text` over the items' `Debug` texts, in item order.
    fn check(&self, ast: &[syn::Item]) -> (r: Vec<RuleViolation>)
        ensures
            views(r@) == concat_over(debug_texts(ast@), ctor_findings_fn()),
    {
        let mut violations: Vec<RuleViolation> = Vec::new();
        let mut i: usize = 0;
        while i < ast.len()
            invariant
                i <= ast@.len(),
                views(violations@) == concat_over(debug_texts(ast@.take(i as int)), ctor_findings_fn()),
            decreases ast.len() - i,
        {
            let code = item_debug_text(&ast[i]);
            let more = self.check_item_text(code.as_str());
            append_all(&mut violations, more);
            proof {
                let ts = debug_texts(ast@.take(i as int + 1));
                assert(ts.drop_last() =~= debug_texts(ast@.take(i as int)));
                assert(ts.last() == code@);
            }
            i += 1;
        }
        assert(ast@.take(ast@.len() as int) =~= ast@);
        violations
    }
}

} // verus!
