//! Detect unnecessary public functions.
//!
//! Flags Solidity `public` functions that are never called internally within
//! the same contract. Changing them to `external` allows the EVM to read
//! arguments directly from calldata instead of copying to memory, saving gas.

use vstd::prelude::*;
use crate::text::{
    chars_of, contains, contains_str, has_sub, line_views, lines, lines_exec, push_str,
    string_of, word_after, word_after_exec,
};

use crate::rules::syntax::{debug_texts, item_debug_text};
use crate::text::{concat3, owned};
use crate::violation::{
    RuleViolation, ViolationSeverity, ViolationView, append_all, concat_over, views, vview,
};

verus! {

/// Finds `public` Solidity functions that nothing in the same source calls.
pub struct UnnecessaryPublicFunctionRule;

/// The `(name, line)` entry that one source line contributes, if it declares
/// a public function.
pub open spec fn public_fn_entry(line: Seq<char>, lineno: int) -> Seq<(Seq<char>, int)> {
    if has_sub(line, "function"@) && has_sub(line, "public"@) {
        match word_after(line, "function"@) {
            Some(n) => seq![(n, lineno)],
            None => seq![],
        }
    } else {
        seq![]
    }
}

/// The public-function entries of the first `n` lines of `ls`.
pub open spec fn public_fn_entries(ls: Seq<Seq<char>>, n: int) -> Seq<(Seq<char>, int)>
    decreases n,
{
    if n <= 0 {
        seq![]
    } else {
        public_fn_entries(ls, n - 1) + public_fn_entry(ls[n - 1], n)
    }
}

/// Every public function of `code` with its 1-based declaration line, in
/// source order.
pub open spec fn public_function_names_spec(code: Seq<char>) -> Seq<(Seq<char>, int)> {
    public_fn_entries(lines(code), lines(code).len() as int)
}

/// `name(` occurs on some line of `code` other than line `decl_line`.
pub open spec fn called_internally(name: Seq<char>, code: Seq<char>, decl_line: int) -> bool {
    exists|j: int|
        0 <= j < lines(code).len() && j + 1 != decl_line && #[trigger] has_sub(
            lines(code)[j],
            name + "("@,
        )
}

/// The entries of `es` whose function is not called internally in `code`.
pub open spec fn uncalled(es: Seq<(Seq<char>, int)>, code: Seq<char>) -> Seq<(Seq<char>, int)>
    decreases es.len(),
{
    if es.len() == 0 {
        seq![]
    } else if called_internally(es.last().0, code, es.last().1) {
        uncalled(es.drop_last(), code)
    } else {
        uncalled(es.drop_last(), code).push(es.last())
    }
}

/// Public functions of `code` that are never called internally.
pub open spec fn unnecessary_public_spec(code: Seq<char>) -> Seq<(Seq<char>, int)> {
    uncalled(public_function_names_spec(code), code)
}

/// The view of a list of `(name, line)` pairs.
pub open spec fn name_lines(v: Seq<(String, usize)>) -> Seq<(Seq<char>, int)> {
    v.map_values(|p: (String, usize)| (p.0@, p.1 as int))
}

impl UnnecessaryPublicFunctionRule {
    /// Every `public` function declared in `code`, with its 1-based line.
    pub fn public_function_names(code: &str) -> (r: Vec<(String, usize)>)
        ensures
            name_lines(r@) == public_function_names_spec(code@),
    {
        let cs = chars_of(code);
        let ls = lines_exec(&cs);
        let mut result: Vec<(String, usize)> = Vec::new();
        let mut i: usize = 0;
        while i < ls.len()
            invariant
                i <= ls@.len(),
                line_views(ls@) == lines(code@),
                name_lines(result@) == public_fn_entries(lines(code@), i as int),
            decreases ls.len() - i,
        {
            let line = &ls[i];
            let ghost lv = lines(code@)[i as int];
            assert(line@ == lv);
            let ghost before = result@;
            if contains_str(line, "function") && contains_str(line, "public") {
                if let Some(name) = Self::extract_function_name(line) {
                    result.push((string_of(&name), i + 1));
                    proof {
                        assert(name_lines(result@) =~= name_lines(before).push((name@, i + 1)));
                    }
                }
            }
            i += 1;
            proof {
                assert(name_lines(result@) =~= public_fn_entries(lines(code@), i as int));
            }
        }
        result
    }

    /// The identifier after `function` on `line`, if any.
    pub fn extract_function_name(line: &[char]) -> (r: Option<Vec<char>>)
        ensures
            match r {
                Some(w) => word_after(line@, "function"@) == Some(w@),
                None => word_after(line@, "function"@) is None,
            },
    {
        word_after_exec(line, "function")
    }

    /// Whether `name(` appears on a line of `code` other than `decl_line`.
    pub fn is_called_internally(name: &str, code: &str, decl_line: usize) -> (r: bool)
        ensures
            r == called_internally(name@, code@, decl_line as int),
    {
        let mut pat = chars_of(name);
        push_str(&mut pat, "(");
        let cs = chars_of(code);
        let ls = lines_exec(&cs);
        let mut i: usize = 0;
        while i < ls.len()
            invariant
                i <= ls@.len(),
                line_views(ls@) == lines(code@),
                pat@ == name@ + "("@,
                forall|j: int|
                    0 <= j < i ==> !(j + 1 != decl_line && #[trigger] has_sub(
                        lines(code@)[j],
                        name@ + "("@,
                    )),
            decreases ls.len() - i,
        {
            assert(ls@[i as int]@ == lines(code@)[i as int]);
            if i + 1 != decl_line && contains(&ls[i], &pat) {
                return true;
            }
            i += 1;
        }
        false
    }
}

/// Standalone checker over raw Solidity source: the public functions that
/// are never called internally, with their declaration lines.
pub fn check_unnecessary_public_functions(source: &str) -> (r: Vec<(String, usize)>)
    ensures
        name_lines(r@) == unnecessary_public_spec(source@),
{
    let mut flagged: Vec<(String, usize)> = Vec::new();
    let functions = UnnecessaryPublicFunctionRule::public_function_names(source);
    let ghost es = public_function_names_spec(source@);
    let mut i: usize = 0;
    while i < functions.len()
        invariant
            i <= functions@.len(),
            name_lines(functions@) == es,
            es == public_function_names_spec(source@),
            name_lines(flagged@) == uncalled(es.take(i as int), source@),
        decreases functions.len() - i,
    {
        let name = &functions[i].0;
        let line = functions[i].1;
        let ghost before = flagged@;
        proof {
            assert(es.take(i + 1).drop_last() =~= es.take(i as int));
            assert(es.take(i + 1).last() == es[i as int]);
            assert(es[i as int] == (name@, line as int));
        }
        if !UnnecessaryPublicFunctionRule::is_called_internally(name.as_str(), source, line) {
            flagged.push((name.clone(), line));
            proof {
                assert(name_lines(flagged@) =~= name_lines(before).push((name@, line as int)));
            }
        }
        i += 1;
    }
    proof {
        assert(es.take(i as int) =~= es);
    }
    flagged
}


pub const PUBLIC_RULE_NAME: &'static str = "unnecessary-public-function";

/// The violation for a public function `name` declared on line `line` that
/// is never called internally.
pub open spec fn public_view(e: (Seq<char>, int)) -> ViolationView {
    vview(
        PUBLIC_RULE_NAME@,
        "Function `"@ + e.0 + "` is declared `public` but is never called internally — it can be changed to `external`."@,
        ViolationSeverity::Low,
        e.1,
        0,
        e.0,
        "Replace `public` with `external` on `"@ + e.0 + "`. External functions read calldata directly, avoiding the memory-copy overhead of `public`."@,
    )
}

/// The violations for the text of one item.
pub open spec fn public_findings(code: Seq<char>) -> Seq<ViolationView> {
    unnecessary_public_spec(code).map_values(|e: (Seq<char>, int)| public_view(e))
}

/// `public_findings` as a function value.
pub open spec fn public_findings_fn() -> spec_fn(Seq<char>) -> Seq<ViolationView> {
    |t: Seq<char>| public_findings(t)
}

impl UnnecessaryPublicFunctionRule {
    /// The violations for the printed text of one item.
    pub fn check_item_text(&self, code: &str) -> (r: Vec<RuleViolation>)
        ensures
            views(r@) == public_findings(code@),
    {
        let flagged = check_unnecessary_public_functions(code);
        let ghost fv = name_lines(flagged@);
        let mut out: Vec<RuleViolation> = Vec::new();
        let mut i: usize = 0;
        while i < flagged.len()
            invariant
                i <= flagged@.len(),
                fv == name_lines(flagged@),
                fv == unnecessary_public_spec(code@),
                views(out@) == fv.take(i as int).map_values(|e: (Seq<char>, int)| public_view(e)),
            decreases flagged.len() - i,
        {
            let name = chars_of(flagged[i].0.as_str());
            let description = concat3(
                "Function `",
                &name,
                "` is declared `public` but is never called internally — it can be changed to `external`.",
            );
            let suggestion = concat3(
                "Replace `public` with `external` on `",
                &name,
                "`. External functions read calldata directly, avoiding the memory-copy overhead of `public`.",
            );
            let ghost before = views(out@);
            out.push(
                RuleViolation {
                    rule_name: owned(PUBLIC_RULE_NAME),
                    description,
                    severity: ViolationSeverity::Low,
                    line_number: flagged[i].1,
                    column_number: 0,
                    variable_name: string_of(&name),
                    suggestion,
                },
            );
            proof {
                let e = fv[i as int];
                assert(e == (flagged@[i as int].0@, flagged@[i as int].1 as int));
                assert(views(out@) =~= before.push(public_view(e)));
                assert(fv.take(i + 1) =~= fv.take(i as int).push(e));
                assert(views(out@) =~= fv.take(i + 1).map_values(
                    |e: (Seq<char>, int)| public_view(e),
                ));
            }
            i += 1;
        }
        proof {
            assert(fv.take(i as int) =~= fv);
        }
        out
    }
}

impl crate::rules::Rule for UnnecessaryPublicFunctionRule {
    fn name(&self) -> (r: &str)
        ensures
            r@ == PUBLIC_RULE_NAME@,
    {
        PUBLIC_RULE_NAME
    }

    fn description(&self) -> (r: &str)
        ensures
            r@ == "Detects public functions that are never called internally. Changing them to `external` saves gas because arguments are read directly from calldata instead of being copied to memory."@,
    {
        "Detects public functions that are never called internally. Changing them to `external` saves gas because arguments are read directly from calldata instead of being copied to memory."
    }

    /// Scans the `Debug` text of each item; the findings are those of
    /// `check_item_text` over the items' `Debug` texts, in item order.
    fn check(&self, ast: &[syn::Item]) -> (r: Vec<RuleViolation>)
        ensures
            views(r@) == concat_over(debug_texts(ast@), public_findings_fn()),
    {
        let mut violations: Vec<RuleViolation> = Vec::new();
        let mut i: usize = 0;
        while i < ast.len()
            invariant
                i <= ast@.len(),
                views(violations@) == concat_over(debug_texts(ast@.take(i as int)), public_findings_fn()),
            decreases ast.len() - i,
        {
            let code = item_debug_text(&ast[i]);
            let more = self.check_item_text(code.as_str());
            append_all(&mut violations, more);
            proof {
                let ts = debug_texts(ast@.take(i as int + 1));
                assert(ts.drop_last() =~= debug_texts(ast@.take(i as int)));
                assert(ts.last() == code@);
            }
            i += 1;
        }
        assert(ast@.take(ast@.len() as int) =~= ast@);
        violations
    }
}


proof fn lemma_uncalled(es: Seq<(Seq<char>, int)>, code: Seq<char>)
    ensures
        forall|k: int|
            #![trigger uncalled(es, code)[k]]
            0 <= k < uncalled(es, code).len() ==> es.contains(uncalled(es, code)[k])
                && !called_internally(uncalled(es, code)[k].0, code, uncalled(es, code)[k].1),
    decreases es.len(),
{
    if es.len() > 0 {
        lemma_uncalled(es.drop_last(), code);
        let u = uncalled(es, code);
        let u0 = uncalled(es.drop_last(), code);
        assert forall|k: int| #![trigger u[k]] 0 <= k < u.len() implies es.contains(u[k])
            && !called_internally(u[k].0, code, u[k].1) by {
            if k < u0.len() {
                assert(u[k] == u0[k]);
                assert(es.drop_last().contains(u0[k]));
                let j = choose|j: int| 0 <= j < es.drop_last().len() && es.drop_last()[j] == u0[k];
                assert(es[j] == u0[k]);
            } else {
                assert(u[k] == es.last());
                assert(es[es.len() - 1] == es.last());
            }
        }
    }
}

/// Law: every function the standalone checker flags is a public function
/// of the source, declared on the line reported, that no other line calls.
pub proof fn law_flagged_functions_are_uncalled(code: Seq<char>)
    ensures
        forall|k: int|
            #![trigger unnecessary_public_spec(code)[k]]
            0 <= k < unnecessary_public_spec(code).len() ==> public_function_names_spec(
                code,
            ).contains(unnecessary_public_spec(code)[k]) && !called_internally(
                unnecessary_public_spec(code)[k].0,
                code,
                unnecessary_public_spec(code)[k].1,
            ),
{
    lemma_uncalled(public_function_names_spec(code), code);
}

} // verus!
