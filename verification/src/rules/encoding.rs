//! AST-level Solidity gas rules: `abi.encode` that could be packed, and
//! iteration over a helper array to reach mapping entries.

use vstd::prelude::*;
use crate::ast::{ContractNode, FunctionNode, Language, UnifiedAST, VariableNode};
use crate::text::{
    chars_of, contains, contains_str, ends_with, ends_with_exec, find_from, find_sub, has_sub,
    is_whitespace, is_ws, occurs_at, push_chars, push_str, starts_with, starts_with_exec,
    string_of,
};
use crate::violation::{
    RuleViolation, ViolationSeverity, ViolationView, append_all, make_violation, views, vview,
};

verus! {

pub const ABI_SUGGESTION: &'static str = "Consider using abi.encodePacked to save gas, unless you require 32-byte padding (e.g., to prevent hash collisions with multiple dynamic types or interfacing with standard ABI requirements).";

pub const MAPPING_SUGGESTION: &'static str = "Mappings are not iterable. On-chain iteration over unbounded arrays can lead to out-of-gas errors. Consider using off-chain indexing via events or a pagination pattern.";

/// The first non-whitespace character of `s`, if any.
pub open spec fn first_non_ws(s: Seq<char>) -> Option<char>
    decreases s.len(),
{
    if s.len() == 0 {
        None
    } else if !is_ws(s[0]) {
        Some(s[0])
    } else {
        first_non_ws(s.drop_first())
    }
}

/// How many times `abi.encode` appears in `s` directly followed (after any
/// whitespace) by `(`, counting occurrences left to right without overlap.
pub open spec fn abi_hits(s: Seq<char>) -> nat
    decreases s.len(),
{
    match find_sub(s, "abi.encode"@) {
        Some(i) => if 0 <= i && i + 10 <= s.len() {
            (if first_non_ws(s.skip(i + 10)) == Some('(') {
                1nat
            } else {
                0nat
            }) + abi_hits(s.skip(i + 10))
        } else {
            0
        },
        None => 0,
    }
}

/// The finding reported for one `abi.encode(` in a function.
pub open spec fn abi_violation(f: FunctionNode) -> ViolationView {
    vview(
        "abi-encoding-inefficiency"@,
        "Detected potentially inefficient use of abi.encode"@,
        ViolationSeverity::Medium,
        f.line_number as int,
        1,
        "abi.encode"@,
        ABI_SUGGESTION@,
    )
}

/// The findings for the first `n` functions of `fs`.
pub open spec fn abi_functions(fs: Seq<FunctionNode>, n: int) -> Seq<ViolationView>
    decreases n,
{
    if n <= 0 {
        seq![]
    } else {
        abi_functions(fs, n - 1) + Seq::new(
            abi_hits(fs[n - 1].body_raw@),
            |_i: int| abi_violation(fs[n - 1]),
        )
    }
}

/// The findings for the first `n` contracts of `cs`.
pub open spec fn abi_contracts(cs: Seq<ContractNode>, n: int) -> Seq<ViolationView>
    decreases n,
{
    if n <= 0 {
        seq![]
    } else {
        abi_contracts(cs, n - 1) + abi_functions(
            cs[n - 1].functions@,
            cs[n - 1].functions@.len() as int,
        )
    }
}

/// Every `abi.encode` finding of a syntax tree (none unless it is Solidity).
pub open spec fn abi_findings(ast: UnifiedAST) -> Seq<ViolationView> {
    if ast.language != Language::Solidity {
        seq![]
    } else {
        abi_contracts(ast.contracts@, ast.contracts@.len() as int)
    }
}

/// The first non-whitespace character of `s` from position `from` on.
fn first_non_ws_exec(s: &[char], from: usize) -> (r: Option<char>)
    requires
        from <= s@.len(),
    ensures
        r == first_non_ws(s@.skip(from as int)),
{
    let mut k = from;
    while k < s.len() && is_whitespace(s[k])
        invariant
            from <= k <= s@.len(),
            first_non_ws(s@.skip(from as int)) == first_non_ws(s@.skip(k as int)),
        decreases s.len() - k,
    {
        assert(s@.skip(k as int).drop_first() =~= s@.skip(k + 1));
        k += 1;
    }
    if k < s.len() {
        Some(s[k])
    } else {
        assert(s@.skip(k as int).len() == 0);
        None
    }
}

/// How many `abi.encode(` calls `body` holds (see `abi_hits`).
fn count_abi_hits(body: &[char]) -> (r: usize)
    ensures
        r == abi_hits(body@),
{
    let pat = chars_of("abi.encode");
    proof {
        reveal_strlit("abi.encode");
    }
    let mut count: usize = 0;
    let mut pos: usize = 0;
    proof {
        assert(body@.skip(0) =~= body@);
    }
    while pos <= body.len()
        invariant
            pos <= body@.len(),
            pat@ == "abi.encode"@,
            pat@.len() == 10,
            count + abi_hits(body@.skip(pos as int)) == abi_hits(body@),
            count <= pos,
        decreases body.len() + 1 - pos,
    {
        let r = find_from(body, &pat, pos);
        proof {
            crate::text::lemma_find_from_skip(
                body@,
                pat@,
                pos as int,
                match r {
                    Some(i) => Some(i as int),
                    None => None,
                },
            );
        }
        match r {
            Some(i) => {
                assert(occurs_at(body@, i as int, pat@));
                let after = i + 10;
                proof {
                    assert(body@.skip(pos as int).skip(i - pos + 10) =~= body@.skip(after as int));
                }
                let c = first_non_ws_exec(body, after);
                if c == Some('(') {
                    count += 1;
                }
                pos = after;
            },
            None => {
                return count;
            },
        }
    }
    count
}

/// Detects inefficient use of `abi.encode` that could be replaced with
/// `abi.encodePacked`: one finding per call, at the function's line.
pub fn detect_abi_encoding_inefficiencies(ast: &UnifiedAST) -> (r: Vec<RuleViolation>)
    ensures
        views(r@) == abi_findings(*ast),
{
    let mut violations: Vec<RuleViolation> = Vec::new();
    if ast.language != Language::Solidity {
        return violations;
    }
    let mut c: usize = 0;
    while c < ast.contracts.len()
        invariant
            c <= ast.contracts@.len(),
            views(violations@) == abi_contracts(ast.contracts@, c as int),
        decreases ast.contracts.len() - c,
    {
        let contract = &ast.contracts[c];
        let ghost before_c = views(violations@);
        let mut f: usize = 0;
        while f < contract.functions.len()
            invariant
                f <= contract.functions@.len(),
                views(violations@) == before_c + abi_functions(contract.functions@, f as int),
            decreases contract.functions.len() - f,
        {
            let func = &contract.functions[f];
            let body = chars_of(func.body_raw.as_str());
            let hits = count_abi_hits(&body);
            let ghost before_f = views(violations@);
            let mut k: usize = 0;
            while k < hits
                invariant
                    k <= hits,
                    views(violations@) == before_f + Seq::new(
                        k as nat,
                        |_i: int| abi_violation(*func),
                    ),
                decreases hits - k,
            {
                let ghost prev = views(violations@);
                violations.push(
                    make_violation(
                        "abi-encoding-inefficiency",
                        "Detected potentially inefficient use of abi.encode",
                        ViolationSeverity::Medium,
                        func.line_number,
                        1,
                        "abi.encode",
                        ABI_SUGGESTION,
                    ),
                );
                assert(views(violations@) =~= prev.push(abi_violation(*func)));
                k += 1;
                assert(views(violations@) =~= before_f + Seq::new(
                    k as nat,
                    |_i: int| abi_violation(*func),
                ));
            }
            f += 1;
            assert(views(violations@) =~= before_c + abi_functions(contract.functions@, f as int));
        }
        c += 1;
    }
    violations
}

/// The mapping names among the first `n` state variables.
pub open spec fn mapping_names(vs: Seq<VariableNode>, n: int) -> Seq<Seq<char>>
    decreases n,
{
    if n <= 0 {
        seq![]
    } else {
        mapping_names(vs, n - 1) + if starts_with(vs[n - 1].type_str@, "mapping"@) {
            seq![vs[n - 1].name@]
        } else {
            seq![]
        }
    }
}

/// The dynamic-array names among the first `n` state variables.
pub open spec fn array_names(vs: Seq<VariableNode>, n: int) -> Seq<Seq<char>>
    decreases n,
{
    if n <= 0 {
        seq![]
    } else {
        array_names(vs, n - 1) + if !starts_with(vs[n - 1].type_str@, "mapping"@) && ends_with(
            vs[n - 1].type_str@,
            "[]"@,
        ) {
            seq![vs[n - 1].name@]
        } else {
            seq![]
        }
    }
}

/// The body holds a loop keyword.
pub open spec fn has_loop(body: Seq<char>) -> bool {
    has_sub(body, "for "@) || has_sub(body, "for("@) || has_sub(body, "while "@) || has_sub(
        body,
        "while("@,
    )
}

/// The body indexes mapping `m` with an element of array `a`.
pub open spec fn indexes_through(body: Seq<char>, m: Seq<char>, a: Seq<char>) -> bool {
    has_sub(body, m + "["@ + a + "["@) || has_sub(body, m + "[ "@ + a + "["@) || has_sub(
        body,
        m + " ["@ + a + "["@,
    )
}

/// The finding for mapping `m` reached through array `a` in function `f`.
pub open spec fn mapping_violation(f: FunctionNode, m: Seq<char>, a: Seq<char>) -> ViolationView {
    vview(
        "mapping-iteration-workaround"@,
        "Detected gas-heavy iteration over helper array '"@ + a + "' to access mapping '"@ + m
            + "'"@,
        ViolationSeverity::High,
        f.line_number as int,
        1,
        m,
        MAPPING_SUGGESTION@,
    )
}

/// Findings for mapping `m` and the first `k` arrays.
pub open spec fn per_array(f: FunctionNode, m: Seq<char>, arrays: Seq<Seq<char>>, k: int) -> Seq<
    ViolationView,
>
    decreases k,
{
    if k <= 0 {
        seq![]
    } else {
        per_array(f, m, arrays, k - 1) + if indexes_through(f.body_raw@, m, arrays[k - 1]) {
            seq![mapping_violation(f, m, arrays[k - 1])]
        } else {
            seq![]
        }
    }
}

/// Findings for the first `k` mappings.
pub open spec fn per_mapping(
    f: FunctionNode,
    mappings: Seq<Seq<char>>,
    arrays: Seq<Seq<char>>,
    k: int,
) -> Seq<ViolationView>
    decreases k,
{
    if k <= 0 {
        seq![]
    } else {
        per_mapping(f, mappings, arrays, k - 1) + per_array(
            f,
            mappings[k - 1],
            arrays,
            arrays.len() as int,
        )
    }
}

/// Findings for one function of a contract with the given mappings and arrays.
pub open spec fn mapping_function(f: FunctionNode, mappings: Seq<Seq<char>>, arrays: Seq<Seq<char>>) -> Seq<
    ViolationView,
> {
    if has_loop(f.body_raw@) {
        per_mapping(f, mappings, arrays, mappings.len() as int)
    } else {
        seq![]
    }
}

/// Findings for the first `n` functions of contract `c`.
pub open spec fn mapping_functions(c: ContractNode, n: int) -> Seq<ViolationView>
    decreases n,
{
    if n <= 0 {
        seq![]
    } else {
        let vs = c.state_variables@;
        mapping_functions(c, n - 1) + mapping_function(
            c.functions@[n - 1],
            mapping_names(vs, vs.len() as int),
            array_names(vs, vs.len() as int),
        )
    }
}

/// Findings for the first `n` contracts.
pub open spec fn mapping_contracts(cs: Seq<ContractNode>, n: int) -> Seq<ViolationView>
    decreases n,
{
    if n <= 0 {
        seq![]
    } else {
        mapping_contracts(cs, n - 1) + mapping_functions(
            cs[n - 1],
            cs[n - 1].functions@.len() as int,
        )
    }
}

/// Every mapping-iteration finding of a syntax tree (none unless Solidity).
pub open spec fn mapping_findings(ast: UnifiedAST) -> Seq<ViolationView> {
    if ast.language != Language::Solidity {
        seq![]
    } else {
        mapping_contracts(ast.contracts@, ast.contracts@.len() as int)
    }
}

/// The view of a list of names.
pub open spec fn name_views(v: Seq<Vec<char>>) -> Seq<Seq<char>> {
    v.map_values(|x: Vec<char>| x@)
}

/// Splits the state variables of `c` into mapping and array names.
fn collect_names(c: &ContractNode) -> (r: (Vec<Vec<char>>, Vec<Vec<char>>))
    ensures
        name_views(r.0@) == mapping_names(
            c.state_variables@,
            c.state_variables@.len() as int,
        ),
        name_views(r.1@) == array_names(c.state_variables@, c.state_variables@.len() as int),
{
    let mut mappings: Vec<Vec<char>> = Vec::new();
    let mut arrays: Vec<Vec<char>> = Vec::new();
    let map_kw = chars_of("mapping");
    let arr_kw = chars_of("[]");
    let mut i: usize = 0;
    while i < c.state_variables.len()
        invariant
            i <= c.state_variables@.len(),
            map_kw@ == "mapping"@,
            arr_kw@ == "[]"@,
            name_views(mappings@) == mapping_names(c.state_variables@, i as int),
            name_views(arrays@) == array_names(c.state_variables@, i as int),
        decreases c.state_variables.len() - i,
    {
        let var = &c.state_variables[i];
        let t = chars_of(var.type_str.as_str());
        let ghost bm = name_views(mappings@);
        let ghost ba = name_views(arrays@);
        if starts_with_exec(&t, &map_kw) {
            mappings.push(chars_of(var.name.as_str()));
            assert(name_views(mappings@) =~= bm.push(var.name@));
        } else if ends_with_exec(&t, &arr_kw) {
            arrays.push(chars_of(var.name.as_str()));
            assert(name_views(arrays@) =~= ba.push(var.name@));
        }
        i += 1;
        assert(name_views(mappings@) =~= mapping_names(c.state_variables@, i as int));
        assert(name_views(arrays@) =~= array_names(c.state_variables@, i as int));
    }
    (mappings, arrays)
}

/// `m` then `mid`, `a` and `[` as one pattern.
fn pattern(m: &Vec<char>, mid: &str, a: &Vec<char>) -> (r: Vec<char>)
    ensures
        r@ == m@ + mid@ + a@ + "["@,
{
    let mut p: Vec<char> = Vec::new();
    push_chars(&mut p, m.as_slice());
    push_str(&mut p, mid);
    push_chars(&mut p, a.as_slice());
    push_str(&mut p, "[");
    p
}

/// The findings for one function given the contract's mappings and arrays.
fn mapping_function_findings(
    func: &FunctionNode,
    mappings: &Vec<Vec<char>>,
    arrays: &Vec<Vec<char>>,
) -> (r: Vec<RuleViolation>)
    ensures
        views(r@) == mapping_function(*func, name_views(mappings@), name_views(arrays@)),
{
    let mut violations: Vec<RuleViolation> = Vec::new();
    let body = chars_of(func.body_raw.as_str());
    if !(contains_str(&body, "for ") || contains_str(&body, "for(") || contains_str(&body, "while ")
        || contains_str(&body, "while(")) {
        return violations;
    }
    let ghost mv = name_views(mappings@);
    let ghost av = name_views(arrays@);
    let mut i: usize = 0;
    while i < mappings.len()
        invariant
            i <= mappings@.len(),
            mv == name_views(mappings@),
            av == name_views(arrays@),
            body@ == func.body_raw@,
            views(violations@) == per_mapping(*func, mv, av, i as int),
        decreases mappings.len() - i,
    {
        let m = &mappings[i];
        assert(mv[i as int] == m@);
        let ghost before_m = views(violations@);
        let mut j: usize = 0;
        while j < arrays.len()
            invariant
                j <= arrays@.len(),
                av == name_views(arrays@),
                body@ == func.body_raw@,
                views(violations@) == before_m + per_array(*func, m@, av, j as int),
            decreases arrays.len() - j,
        {
            let a = &arrays[j];
            assert(av[j as int] == a@);
            let p1 = pattern(m, "[", a);
            let p2 = pattern(m, "[ ", a);
            let p3 = pattern(m, " [", a);
            let ghost before_a = views(violations@);
            if contains(&body, &p1) || contains(&body, &p2) || contains(&body, &p3) {
                let mut d: Vec<char> = Vec::new();
                push_str(&mut d, "Detected gas-heavy iteration over helper array '");
                push_chars(&mut d, a.as_slice());
                push_str(&mut d, "' to access mapping '");
                push_chars(&mut d, m.as_slice());
                push_str(&mut d, "'");
                violations.push(
                    RuleViolation {
                        rule_name: crate::text::owned("mapping-iteration-workaround"),
                        description: string_of(&d),
                        severity: ViolationSeverity::High,
                        line_number: func.line_number,
                        column_number: 1,
                        variable_name: string_of(m.as_slice()),
                        suggestion: crate::text::owned(MAPPING_SUGGESTION),
                    },
                );
                assert(views(violations@) =~= before_a.push(mapping_violation(*func, m@, a@)));
            }
            j += 1;
            assert(views(violations@) =~= before_m + per_array(*func, m@, av, j as int));
        }
        i += 1;
        assert(views(violations@) =~= per_mapping(*func, mv, av, i as int));
    }
    violations
}

/// Detects inefficient mapping iteration workarounds: a loop in a function
/// that indexes a mapping with an element of a state array.
pub fn detect_mapping_iteration(ast: &UnifiedAST) -> (r: Vec<RuleViolation>)
    ensures
        views(r@) == mapping_findings(*ast),
{
    let mut violations: Vec<RuleViolation> = Vec::new();
    if ast.language != Language::Solidity {
        return violations;
    }
    let mut c: usize = 0;
    while c < ast.contracts.len()
        invariant
            c <= ast.contracts@.len(),
            views(violations@) == mapping_contracts(ast.contracts@, c as int),
        decreases ast.contracts.len() - c,
    {
        let contract = &ast.contracts[c];
        let (mappings, arrays) = collect_names(contract);
        let ghost before_c = views(violations@);
        let mut f: usize = 0;
        while f < contract.functions.len()
            invariant
                f <= contract.functions@.len(),
                name_views(mappings@) == mapping_names(
                    contract.state_variables@,
                    contract.state_variables@.len() as int,
                ),
                name_views(arrays@) == array_names(
                    contract.state_variables@,
                    contract.state_variables@.len() as int,
                ),
                views(violations@) == before_c + mapping_functions(*contract, f as int),
            decreases contract.functions.len() - f,
        {
            let more = mapping_function_findings(&contract.functions[f], &mappings, &arrays);
            append_all(&mut violations, more);
            f += 1;
            assert(views(violations@) =~= before_c + mapping_functions(*contract, f as int));
        }
        c += 1;
    }
    violations
}

/// Detects `abi.encode` that could be `abi.encodePacked`.
pub struct AbiEncodingRule;

impl crate::rules::Rule for AbiEncodingRule {
    fn name(&self) -> (r: &str)
        ensures
            r@ == "abi-encoding-inefficiency"@,
    {
        "abi-encoding-inefficiency"
    }

    fn description(&self) -> (r: &str)
        ensures
            r@ == "Detects inefficient use of abi.encode that could be replaced with abi.encodePacked"@,
    {
        "Detects inefficient use of abi.encode that could be replaced with abi.encodePacked"
    }

    /// Item-level checking finds nothing: the rule works on syntax trees
    /// through `analyze`.
    fn check(&self, ast: &[syn::Item]) -> (r: Vec<RuleViolation>)
        ensures
            r@.len() == 0,
    {
        Vec::new()
    }
}

impl AbiEncodingRule {
    /// The findings for a Solidity syntax tree.
    pub fn analyze(&self, ast: &UnifiedAST) -> (r: Vec<RuleViolation>)
        ensures
            views(r@) == abi_findings(*ast),
    {
        if ast.language != Language::Solidity {
            return Vec::new();
        }
        detect_abi_encoding_inefficiencies(ast)
    }
}

/// Detects iteration over a helper array used as keys for mapping access.
pub struct MappingIterationRule;

impl crate::rules::Rule for MappingIterationRule {
    fn name(&self) -> (r: &str)
        ensures
            r@ == "mapping-iteration-workaround"@,
    {
        "mapping-iteration-workaround"
    }

    fn description(&self) -> (r: &str)
        ensures
            r@ == "Detects iteration over a helper array used as keys for mapping access, which is highly gas-inefficient."@,
    {
        "Detects iteration over a helper array used as keys for mapping access, which is highly gas-inefficient."
    }

    /// Item-level checking finds nothing: the rule works on syntax trees
    /// through `analyze`.
    fn check(&self, ast: &[syn::Item]) -> (r: Vec<RuleViolation>)
        ensures
            r@.len() == 0,
    {
        Vec::new()
    }
}

impl MappingIterationRule {
    /// The findings for a syntax tree.
    pub fn analyze(&self, ast: &UnifiedAST) -> (r: Vec<RuleViolation>)
        ensures
            views(r@) == mapping_findings(*ast),
    {
        detect_mapping_iteration(ast)
    }
}


proof fn lemma_per_array_has(f: FunctionNode, m: Seq<char>, arrays: Seq<Seq<char>>, k: int, j: int)
    requires
        0 <= j < k <= arrays.len(),
        indexes_through(f.body_raw@, m, arrays[j]),
    ensures
        per_array(f, m, arrays, k).contains(mapping_violation(f, m, arrays[j])),
    decreases k,
{
    let prev = per_array(f, m, arrays, k - 1);
    let x = mapping_violation(f, m, arrays[j]);
    if j < k - 1 {
        lemma_per_array_has(f, m, arrays, k - 1, j);
        let p = choose|p: int| 0 <= p < prev.len() && prev[p] == x;
        assert(per_array(f, m, arrays, k)[p] == x);
    } else {
        assert(per_array(f, m, arrays, k)[prev.len() as int] == x);
    }
}

proof fn lemma_per_mapping_has(
    f: FunctionNode,
    mappings: Seq<Seq<char>>,
    arrays: Seq<Seq<char>>,
    k: int,
    i: int,
    x: ViolationView,
)
    requires
        0 <= i < k <= mappings.len(),
        per_array(f, mappings[i], arrays, arrays.len() as int).contains(x),
    ensures
        per_mapping(f, mappings, arrays, k).contains(x),
    decreases k,
{
    let prev = per_mapping(f, mappings, arrays, k - 1);
    let whole = per_mapping(f, mappings, arrays, k);
    if i < k - 1 {
        lemma_per_mapping_has(f, mappings, arrays, k - 1, i, x);
        let p = choose|p: int| 0 <= p < prev.len() && prev[p] == x;
        assert(whole[p] == x);
    } else {
        let here = per_array(f, mappings[i], arrays, arrays.len() as int);
        let p = choose|p: int| 0 <= p < here.len() && here[p] == x;
        assert(whole[prev.len() + p] == x);
    }
}

/// Law: a function whose body holds a loop, written with `for` or with
/// `while` (`for `, `for(`, `while `, `while(`), and indexes a mapping `m`
/// with an element of a helper array `a` (`m[a[`) gets the high-severity
/// mapping-iteration finding for `m` and `a` on the function's line; a body
/// with no loop gets no finding at all.
pub proof fn law_loop_through_helper_array_found(
    f: FunctionNode,
    mappings: Seq<Seq<char>>,
    arrays: Seq<Seq<char>>,
    i: int,
    j: int,
)
    requires
        0 <= i < mappings.len(),
        0 <= j < arrays.len(),
    ensures
        (has_sub(f.body_raw@, "for "@) || has_sub(f.body_raw@, "for("@) || has_sub(
            f.body_raw@,
            "while "@,
        ) || has_sub(f.body_raw@, "while("@)) && has_sub(
            f.body_raw@,
            mappings[i] + "["@ + arrays[j] + "["@,
        ) ==> mapping_function(f, mappings, arrays).contains(
            mapping_violation(f, mappings[i], arrays[j]),
        ),
        !(has_sub(f.body_raw@, "for "@) || has_sub(f.body_raw@, "for("@) || has_sub(
            f.body_raw@,
            "while "@,
        ) || has_sub(f.body_raw@, "while("@)) ==> mapping_function(f, mappings, arrays).len() == 0,
        mapping_violation(f, mappings[i], arrays[j]).rule_name == "mapping-iteration-workaround"@,
        mapping_violation(f, mappings[i], arrays[j]).severity == ViolationSeverity::High,
        mapping_violation(f, mappings[i], arrays[j]).line_number == f.line_number as int,
        mapping_violation(f, mappings[i], arrays[j]).description
            == "Detected gas-heavy iteration over helper array '"@ + arrays[j]
            + "' to access mapping '"@ + mappings[i] + "'"@,
{
    let body = f.body_raw@;
    if has_loop(body) && has_sub(body, mappings[i] + "["@ + arrays[j] + "["@) {
        lemma_per_array_has(f, mappings[i], arrays, arrays.len() as int, j);
        lemma_per_mapping_has(
            f,
            mappings,
            arrays,
            mappings.len() as int,
            i,
            mapping_violation(f, mappings[i], arrays[j]),
        );
    }
}

} // verus!
