//! Detect missing calldata usage in external functions.
//!
//! Flags external functions whose parameters are declared `memory` when
//! `calldata` would avoid copying them, and estimates the gas saved.

use vstd::prelude::*;
use crate::rules::syntax::{item_token_text, token_texts};
use crate::text::{
    chars_of, contains_str, decimal, find, find_from, find_sub, occurs_at, occurs_at_exec, slice_chars, decimal_exec, eq_str, first_line, first_line_exec, has_sub,
    join_sp, join_words, line_views, lines, lines_exec, push_chars, push_str, split_char_exec,
    split_on, split_whitespace_exec, starts_with, starts_with_exec, string_of, string_views,
    to_lowercase, trim, trim_exec, unicode_lowercase, words,
};
use crate::violation::{
    RuleViolation, ViolationSeverity, ViolationView, append_all, concat_over, views, vview,
};

verus! {

pub const CALLDATA_RULE_NAME: &'static str = "missing-calldata-usage";

pub const CALLDATA_DESCRIPTION_START: &'static str = "External function parameter uses 'memory' for type '";

pub const CALLDATA_DESCRIPTION_END: &'static str = "'. Using 'calldata' would be more gas-efficient.";

pub const CALLDATA_SUGGESTION_START: &'static str = "Replace 'memory' with 'calldata' for this parameter. Estimated gas savings: ~";

pub const CALLDATA_SUGGESTION_MIDDLE: &'static str = " gas per call. Example: function foo(";

pub const CALLDATA_SUGGESTION_END: &'static str = "[] calldata data) external { ... }";

/// Flags `memory` parameters of external functions.
pub struct MissingCalldataUsageRule;

/// A fixed-size byte type such as `bytes1` or `bytes32`: `bytes` followed
/// by one or more ASCII digits.
pub open spec fn is_fixed_bytes(t: Seq<char>) -> bool {
    &&& starts_with(t, "bytes"@)
    &&& t.len() > 5
    &&& forall|k: int| 5 <= k < t.len() ==> '0' <= #[trigger] t[k] && t[k] <= '9'
}

/// A type that benefits from `calldata`: after trimming and lowercasing it
/// contains `[]`, is a dynamic byte array (starts with `bytes` but is not a
/// fixed-size `bytesN`), is `string`, or mentions `struct` or `mapping`.
pub open spec fn should_use_calldata_spec(type_text: Seq<char>) -> bool {
    calldata_type_lower(unicode_lowercase(trim(type_text)))
}

/// A trimmed, lowercased type that benefits from `calldata`: it contains
/// `[]`, is a dynamic byte array, is `string`, or mentions `struct` or
/// `mapping`.
pub open spec fn calldata_type_lower(t: Seq<char>) -> bool {
    ||| has_sub(t, "[]"@)
    ||| (starts_with(t, "bytes"@) && !is_fixed_bytes(t))
    ||| t == "string"@
    ||| has_sub(t, "struct"@)
    ||| has_sub(t, "mapping"@)
}

/// Estimated gas saved per call by `calldata` for a parameter of this type.
pub open spec fn gas_savings_spec(param_type: Seq<char>) -> int {
    if has_sub(param_type, "[]"@) {
        1000
    } else if has_sub(param_type, "string"@) {
        800
    } else if has_sub(param_type, "bytes"@) {
        600
    } else {
        500
    }
}

/// The signature that starts at a line: `sig` extended by the lines from
/// `j` on, each after a space, until it contains `)` or the lines run out.
pub open spec fn grow_signature(ls: Seq<Seq<char>>, sig: Seq<char>, j: int) -> Seq<char>
    decreases ls.len() - j,
{
    if 0 <= j < ls.len() && !has_sub(sig, ")"@) {
        grow_signature(ls, sig + " "@ + ls[j], j + 1)
    } else {
        sig
    }
}

/// The trimmed pieces of `ps` that mention ` memory `.
pub open spec fn memory_params(ps: Seq<Seq<char>>) -> Seq<Seq<char>>
    decreases ps.len(),
{
    if ps.len() == 0 {
        seq![]
    } else if has_sub(ps.last(), " memory "@) {
        memory_params(ps.drop_last()).push(trim(ps.last()))
    } else {
        memory_params(ps.drop_last())
    }
}

/// The last position before `e` where `function` begins in `line`, or 0
/// when there is none.
pub open spec fn last_function_before(line: Seq<char>, e: int) -> int
    decreases e,
{
    if e <= 0 {
        0
    } else if occurs_at(line, e - 1, "function"@) {
        e - 1
    } else {
        last_function_before(line, e - 1)
    }
}

/// `function` begins somewhere in `line` before position `k`.
pub open spec fn function_before(line: Seq<char>, k: int) -> bool {
    exists|j: int| 0 <= j < k && #[trigger] occurs_at(line, j, "function"@)
}

/// Where the external function's signature begins on `line`. When another
/// function declaration stands on the line before it, the signature begins
/// at the last `function` before the first `external`, so that the earlier
/// declarations are left out; otherwise the whole line is the signature.
pub open spec fn signature_start(line: Seq<char>) -> int {
    match find_sub(line, "external"@) {
        Some(e) => {
            let k = last_function_before(line, e);
            if occurs_at(line, k, "function"@) && function_before(line, k) {
                k
            } else {
                0
            }
        },
        None => 0,
    }
}

/// What line `i` of `ls` contributes: the first line of its signature with
/// the signature's `memory` parameters, when the line declares an external
/// function with at least one such parameter. The signature runs from
/// `signature_start` of the line on.
pub open spec fn memory_entry(ls: Seq<Seq<char>>, i: int) -> Seq<(Seq<char>, Seq<Seq<char>>)> {
    let line = ls[i];
    if has_sub(line, "external"@) && has_sub(line, "("@) {
        let head = line.subrange(signature_start(line), line.len() as int);
        let sig = grow_signature(ls, head, i + 1);
        let params = memory_params(split_on(sig, ','));
        if has_sub(sig, " memory "@) && params.len() > 0 {
            seq![(first_line(sig), params)]
        } else {
            seq![]
        }
    } else {
        seq![]
    }
}

/// The entries of the first `n` lines of `ls`.
pub open spec fn memory_entries(ls: Seq<Seq<char>>, n: int) -> Seq<(Seq<char>, Seq<Seq<char>>)>
    decreases n,
{
    if n <= 0 {
        seq![]
    } else {
        memory_entries(ls, n - 1) + memory_entry(ls, n - 1)
    }
}

/// Every external function of `code` that takes `memory` parameters, with
/// those parameters, in source order.
pub open spec fn memory_functions_spec(code: Seq<char>) -> Seq<(Seq<char>, Seq<Seq<char>>)> {
    memory_entries(lines(code), lines(code).len() as int)
}

/// The first index `i >= from` of a word equal to `memory`.
pub open spec fn memory_word_from(parts: Seq<Seq<char>>, from: int) -> Option<int>
    decreases parts.len() - from,
{
    if from < 0 || from >= parts.len() {
        None
    } else if parts[from] == "memory"@ {
        Some(from)
    } else {
        memory_word_from(parts, from + 1)
    }
}

/// The type of a parameter: its words before the first `memory` that is not
/// the first word, joined with spaces; empty when there is none.
pub open spec fn param_type(param: Seq<char>) -> Seq<char> {
    let parts = words(param);
    match memory_word_from(parts, 1) {
        Some(i) => join_sp(parts.take(i)),
        None => seq![],
    }
}

/// The finding for a parameter of type `t`.
pub open spec fn calldata_view(t: Seq<char>) -> ViolationView {
    vview(
        CALLDATA_RULE_NAME@,
        CALLDATA_DESCRIPTION_START@ + t + CALLDATA_DESCRIPTION_END@,
        ViolationSeverity::Medium,
        0,
        0,
        t,
        CALLDATA_SUGGESTION_START@ + decimal(gas_savings_spec(t) as nat) + CALLDATA_SUGGESTION_MIDDLE@
            + t + CALLDATA_SUGGESTION_END@,
    )
}

/// The finding for one `memory` parameter, if its type should use calldata.
pub open spec fn param_finding(p: Seq<char>) -> Seq<ViolationView> {
    let t = param_type(p);
    if t.len() > 0 && should_use_calldata_spec(t) {
        seq![calldata_view(t)]
    } else {
        seq![]
    }
}

/// The findings for the first `n` parameters of `ps`.
pub open spec fn params_findings(ps: Seq<Seq<char>>, n: int) -> Seq<ViolationView>
    decreases n,
{
    if n <= 0 {
        seq![]
    } else {
        params_findings(ps, n - 1) + param_finding(ps[n - 1])
    }
}

/// The findings for the first `n` functions of `es`.
pub open spec fn entries_findings(es: Seq<(Seq<char>, Seq<Seq<char>>)>, n: int) -> Seq<
    ViolationView,
>
    decreases n,
{
    if n <= 0 {
        seq![]
    } else {
        entries_findings(es, n - 1) + params_findings(es[n - 1].1, es[n - 1].1.len() as int)
    }
}

/// The findings for the printed text of one item.
pub open spec fn calldata_findings(code: Seq<char>) -> Seq<ViolationView> {
    if !has_sub(code, "external"@) || !has_sub(code, " memory "@) {
        seq![]
    } else {
        let es = memory_functions_spec(code);
        entries_findings(es, es.len() as int)
    }
}

/// `calldata_findings` as a function value.
pub open spec fn calldata_findings_fn() -> spec_fn(Seq<char>) -> Seq<ViolationView> {
    |t: Seq<char>| calldata_findings(t)
}

/// The view of a list of `(signature, parameters)` entries.
pub open spec fn entry_views(v: Seq<(String, Vec<String>)>) -> Seq<(Seq<char>, Seq<Seq<char>>)> {
    v.map_values(|e: (String, Vec<String>)| (e.0@, string_views(e.1@)))
}

fn memory_params_exec(pieces: &Vec<Vec<char>>) -> (r: Vec<String>)
    ensures
        string_views(r@) == memory_params(line_views(pieces@)),
{
    let mut out: Vec<String> = Vec::new();
    let mut k: usize = 0;
    while k < pieces.len()
        invariant
            k <= pieces@.len(),
            string_views(out@) == memory_params(line_views(pieces@).take(k as int)),
        decreases pieces.len() - k,
    {
        let ghost prev = line_views(pieces@).take(k as int);
        let ghost cur = line_views(pieces@).take(k + 1);
        proof {
            assert(cur.drop_last() =~= prev);
            assert(cur.last() == pieces@[k as int]@);
        }
        let ghost before = string_views(out@);
        if contains_str(&pieces[k], " memory ") {
            let t = trim_exec(&pieces[k]);
            out.push(string_of(&t));
            proof {
                assert(string_views(out@) =~= before.push(trim(pieces@[k as int]@)));
            }
        }
        k += 1;
    }
    proof {
        assert(line_views(pieces@).take(k as int) =~= line_views(pieces@));
    }
    out
}

impl MissingCalldataUsageRule {
    /// Whether `code` mentions `external`.
    pub fn has_external_functions(code: &str) -> (r: bool)
        ensures
            r == has_sub(code@, "external"@),
    {
        let cs = chars_of(code);
        contains_str(&cs, "external")
    }

    /// Whether `code` mentions ` memory `.
    pub fn has_memory_parameters(code: &str) -> (r: bool)
        ensures
            r == has_sub(code@, " memory "@),
    {
        let cs = chars_of(code);
        contains_str(&cs, " memory ")
    }

    /// Whether a parameter of this type should be declared `calldata`.
    pub fn should_use_calldata(type_text: &str) -> (r: bool)
        ensures
            r == should_use_calldata_spec(type_text@),
    {
        let cs = chars_of(type_text);
        let trimmed = trim_exec(&cs);
        let trimmed_s = string_of(&trimmed);
        let lower = to_lowercase(trimmed_s.as_str());
        Self::is_calldata_type_lower(lower.as_str())
    }

    /// Whether a type, already trimmed and lowercased, should be declared
    /// `calldata`.
    pub fn is_calldata_type_lower(lower: &str) -> (r: bool)
        ensures
            r == calldata_type_lower(lower@),
    {
        let t = chars_of(lower);
        let bytes = chars_of("bytes");
        contains_str(&t, "[]") || (starts_with_exec(&t, &bytes) && !Self::fixed_bytes(&t))
            || eq_str(&t, "string") || contains_str(&t, "struct") || contains_str(&t, "mapping")
    }

    /// Whether `t` is a fixed-size byte type `bytesN`, given that it starts
    /// with `bytes`.
    fn fixed_bytes(t: &Vec<char>) -> (r: bool)
        requires
            starts_with(t@, "bytes"@),
        ensures
            r == is_fixed_bytes(t@),
    {
        if t.len() <= 5 {
            return false;
        }
        let mut k: usize = 5;
        while k < t.len()
            invariant
                5 <= k <= t@.len(),
                forall|j: int| 5 <= j < k ==> '0' <= #[trigger] t@[j] && t@[j] <= '9',
            decreases t.len() - k,
        {
            if !('0' <= t[k] && t[k] <= '9') {
                return false;
            }
            k += 1;
        }
        true
    }

    /// External functions of `code` with `memory` parameters: the first line
    /// of each signature (the whole line, or from the last `function` before
    /// `external` where an earlier declaration shares the line, joined across
    /// lines until `)`), with the trimmed
    /// comma-separated pieces that mention ` memory `.
    pub fn find_memory_in_external_functions(code: &str) -> (r: Vec<(String, Vec<String>)>)
        ensures
            entry_views(r@) == memory_functions_spec(code@),
    {
        let cs = chars_of(code);
        let ls = lines_exec(&cs);
        let ghost lv = lines(code@);
        let mut functions_with_memory: Vec<(String, Vec<String>)> = Vec::new();
        let mut i: usize = 0;
        while i < ls.len()
            invariant
                i <= ls@.len(),
                line_views(ls@) == lv,
                lv == lines(code@),
                entry_views(functions_with_memory@) == memory_entries(lv, i as int),
            decreases ls.len() - i,
        {
            let ghost before = entry_views(functions_with_memory@);
            let line = &ls[i];
            assert(line@ == lv[i as int]);
            if contains_str(line, "external") && contains_str(line, "(") {
                let start = Self::signature_start_exec(line.as_slice());
                let mut sig: Vec<char> = slice_chars(line.as_slice(), start, line.len());
                let ghost head = lv[i as int].subrange(start as int, lv[i as int].len() as int);
                assert(sig@ =~= head);
                let mut j = i + 1;
                while j < ls.len() && !contains_str(&sig, ")")
                    invariant
                        i < j <= ls@.len(),
                        line_views(ls@) == lv,
                        grow_signature(lv, sig@, j as int) == grow_signature(
                            lv,
                            head,
                            i + 1,
                        ),
                    decreases ls.len() - j,
                {
                    let ghost s0 = sig@;
                    push_str(&mut sig, " ");
                    push_chars(&mut sig, ls[j].as_slice());
                    proof {
                        assert(ls@[j as int]@ == lv[j as int]);
                        assert(sig@ =~= s0 + " "@ + lv[j as int]);
                    }
                    j += 1;
                }
                let ghost gsig = grow_signature(lv, head, i + 1);
                assert(sig@ == gsig);
                if contains_str(&sig, " memory ") {
                    let pieces = split_char_exec(&sig, ',');
                    let memory_params = memory_params_exec(&pieces);
                    if memory_params.len() > 0 {
                        let first = first_line_exec(&sig);
                        functions_with_memory.push((string_of(&first), memory_params));
                        proof {
                            assert(entry_views(functions_with_memory@) =~= before + memory_entry(
                                lv,
                                i as int,
                            ));
                        }
                    } else {
                        assert(entry_views(functions_with_memory@) =~= before + memory_entry(
                            lv,
                            i as int,
                        ));
                    }
                } else {
                    assert(entry_views(functions_with_memory@) =~= before + memory_entry(
                        lv,
                        i as int,
                    ));
                }
            } else {
                assert(entry_views(functions_with_memory@) =~= before + memory_entry(
                    lv,
                    i as int,
                ));
            }
            i += 1;
        }
        functions_with_memory
    }

    /// Where the external function's signature begins on `line`.
    fn signature_start_exec(line: &[char]) -> (r: usize)
        ensures
            r as int == signature_start(line@),
            r <= line@.len(),
    {
        let ext = chars_of("external");
        let fun = chars_of("function");
        match find(line, &ext) {
            None => 0,
            Some(e) => {
                let mut k: usize = e;
                while k > 0
                    invariant
                        k <= e <= line@.len(),
                        find_sub(line@, "external"@) == Some(e as int),
                        fun@ == "function"@,
                        last_function_before(line@, k as int) == last_function_before(
                            line@,
                            e as int,
                        ),
                    decreases k,
                {
                    if occurs_at_exec(line, k - 1, &fun) {
                        let last = k - 1;
                        assert(last_function_before(line@, k as int) == last as int);
                        return match find_from(line, &fun, 0) {
                            Some(f) => {
                                if f < last {
                                    assert(occurs_at(line@, f as int, "function"@));
                                    assert(function_before(line@, last as int));
                                    last
                                } else {
                                    assert(!function_before(line@, last as int));
                                    0
                                }
                            },
                            None => {
                                assert(!function_before(line@, last as int));
                                0
                            },
                        };
                    }
                    k -= 1;
                }
                assert(last_function_before(line@, 0) == 0);
                assert(!function_before(line@, 0));
                0
            },
        }
    }

    /// Estimated gas saved per call by using `calldata` for a parameter of
    /// this type.
    pub fn estimate_gas_savings(param_type: &str) -> (r: usize)
        ensures
            r == gas_savings_spec(param_type@),
    {
        let cs = chars_of(param_type);
        if contains_str(&cs, "[]") {
            return 1000;
        }
        if contains_str(&cs, "string") {
            return 800;
        }
        if contains_str(&cs, "bytes") {
            return 600;
        }
        500
    }

    /// The type of a `memory` parameter (see `param_type`).
    fn memory_param_type(param: &str) -> (r: Vec<char>)
        ensures
            r@ == param_type(param@),
    {
        let cs = chars_of(param);
        let parts = split_whitespace_exec(&cs);
        let ghost pv = words(param@);
        let mut i: usize = 1;
        while i < parts.len()
            invariant
                1 <= i,
                pv == words(param@),
                line_views(parts@) == pv,
                memory_word_from(pv, 1) == memory_word_from(pv, i as int),
            decreases parts.len() - i,
        {
            assert(parts@[i as int]@ == pv[i as int]);
            if eq_str(&parts[i], "memory") {
                let t = join_words(&parts, i);
                proof {
                    assert(pv.len() == parts@.len());
                    assert(pv[i as int] == "memory"@);
                    assert(memory_word_from(pv, i as int) == Some(i as int));
                    assert(line_views(parts@).take(i as int) =~= pv.take(i as int));
                }
                return t;
            }
            i += 1;
        }
        Vec::new()
    }

    /// The findings for the printed text of one item.
    pub fn check_item_text(&self, token_str: &str) -> (r: Vec<RuleViolation>)
        ensures
            views(r@) == calldata_findings(token_str@),
    {
        let mut violations: Vec<RuleViolation> = Vec::new();
        if !Self::has_external_functions(token_str) || !Self::has_memory_parameters(token_str) {
            return violations;
        }
        let functions_with_memory = Self::find_memory_in_external_functions(token_str);
        let ghost es = memory_functions_spec(token_str@);
        let mut k: usize = 0;
        while k < functions_with_memory.len()
            invariant
                k <= functions_with_memory@.len(),
                entry_views(functions_with_memory@) == es,
                views(violations@) == entries_findings(es, k as int),
            decreases functions_with_memory.len() - k,
        {
            let params = &functions_with_memory[k].1;
            let ghost pv = es[k as int].1;
            assert(string_views(params@) == pv);
            let ghost start = views(violations@);
            let mut m: usize = 0;
            while m < params.len()
                invariant
                    m <= params@.len(),
                    string_views(params@) == pv,
                    views(violations@) == start + params_findings(pv, m as int),
                decreases params.len() - m,
            {
                assert(params@[m as int]@ == pv[m as int]);
                let ghost before = views(violations@);
                let t = Self::memory_param_type(params[m].as_str());
                let type_text = string_of(&t);
                if t.len() > 0 && Self::should_use_calldata(type_text.as_str()) {
                    let gas = Self::estimate_gas_savings(type_text.as_str());
                    let mut d: Vec<char> = Vec::new();
                    push_str(&mut d, CALLDATA_DESCRIPTION_START);
                    push_chars(&mut d, &t);
                    push_str(&mut d, CALLDATA_DESCRIPTION_END);
                    let mut s: Vec<char> = Vec::new();
                    push_str(&mut s, CALLDATA_SUGGESTION_START);
                    let digits = decimal_exec(gas);
                    push_chars(&mut s, &digits);
                    push_str(&mut s, CALLDATA_SUGGESTION_MIDDLE);
                    push_chars(&mut s, &t);
                    push_str(&mut s, CALLDATA_SUGGESTION_END);
                    violations.push(
                        RuleViolation {
                            rule_name: crate::text::owned(CALLDATA_RULE_NAME),
                            description: string_of(&d),
                            severity: ViolationSeverity::Medium,
                            line_number: 0,
                            column_number: 0,
                            variable_name: type_text,
                            suggestion: string_of(&s),
                        },
                    );
                    proof {
                        assert(views(violations@) =~= before + param_finding(pv[m as int]));
                    }
                } else {
                    assert(views(violations@) =~= before + param_finding(pv[m as int]));
                }
                m += 1;
                assert(views(violations@) =~= start + params_findings(pv, m as int));
            }
            k += 1;
        }
        violations
    }
}

impl crate::rules::Rule for MissingCalldataUsageRule {
    fn name(&self) -> (r: &str)
        ensures
            r@ == CALLDATA_RULE_NAME@,
    {
        CALLDATA_RULE_NAME
    }

    fn description(&self) -> (r: &str)
        ensures
            r@ == "Detects external functions using memory for parameters when calldata would be more gas-efficient. Using memory unnecessarily copies data from calldata to memory, wasting gas."@,
    {
        "Detects external functions using memory for parameters when calldata would be more gas-efficient. Using memory unnecessarily copies data from calldata to memory, wasting gas."
    }

    /// Checks the printed tokens of each item; the findings are those of
    /// `check_item_text` over the items' token texts, in item order.
    fn check(&self, ast: &[syn::Item]) -> (r: Vec<RuleViolation>)
        ensures
            views(r@) == concat_over(token_texts(ast@), calldata_findings_fn()),
    {
        let mut violations: Vec<RuleViolation> = Vec::new();
        let mut i: usize = 0;
        while i < ast.len()
            invariant
                i <= ast@.len(),
                views(violations@) == concat_over(token_texts(ast@.take(i as int)), calldata_findings_fn()),
            decreases ast.len() - i,
        {
            let token_str = item_token_text(&ast[i]);
            let more = self.check_item_text(token_str.as_str());
            append_all(&mut violations, more);
            proof {
                let ts = token_texts(ast@.take(i as int + 1));
                assert(ts.drop_last() =~= token_texts(ast@.take(i as int)));
                assert(ts.last() == token_str@);
            }
            i += 1;
        }
        assert(ast@.take(ast@.len() as int) =~= ast@);
        violations
    }
}


/// Law: a text without `external`, or without a ` memory ` parameter, gets
/// no finding; every finding concerns a type that should use calldata.
pub proof fn law_only_external_memory_params(code: Seq<char>)
    ensures
        !has_sub(code, "external"@) || !has_sub(code, " memory "@) ==> calldata_findings(code).len()
            == 0,
{
}

} // verus!
