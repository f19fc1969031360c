//! Detect inefficient `Bytes` allocation in Soroban contracts.
//!
//! Repeated construction of `Bytes` objects (e.g. `Bytes::from_array`,
//! `Bytes::from_slice`, `bytes!`) inside functions or loops adds unnecessary
//! allocation overhead on every invocation. In Soroban, host-object
//! allocations are metered; each redundant construction burns CPU and memory
//! budget that could be avoided by hoisting the value to a constant or
//! reusing a previously constructed instance.

use vstd::prelude::*;
use crate::soroban::{SorobanContract, SorobanFunction, SorobanImpl, SorobanRule};
use crate::text::{
    chars_of, contains_str, count_matches, count_sub, decimal, decimal_exec, find_from, find_sub,
    has_sub, lemma_find_from_skip, slice_chars,
    line_views, lines, lines_exec, occurs_at, owned, push_chars, push_str, starts_with, string_of,
    trim, trim_exec,
};
use crate::violation::{RuleViolation, ViolationSeverity, ViolationView, append_all, views, vview};

verus! {

/// Detects unnecessary `Bytes` / `BytesN` allocations.
pub struct InefficientBytesAllocationRule {
    enabled: bool,
}

pub const BYTES_RULE_ID: &'static str = "soroban-inefficient-bytes-allocation";

pub const REPEATED_SUGGESTION: &'static str = "Construct the Bytes value once, store it in a local variable, and reuse it throughout the function. Example: `let data = Bytes::from_array(&env, &[1, 2, 3]); // reuse `data` instead of re-constructing`";

pub const LOOP_SUGGESTION: &'static str = "Hoist the Bytes construction above the loop. If the content varies per iteration, consider building a single buffer and mutating it, or pre-allocating with `Bytes::new(&env)` and appending only the changing parts.";

/// The source patterns that construct a new `Bytes` host object, in order.
pub open spec fn ctor_patterns() -> Seq<Seq<char>> {
    seq![
        "Bytes::from_array("@,
        "Bytes::from_slice("@,
        "Bytes::new("@,
        "bytes!("@,
        "BytesN::from_array("@,
        "BytesN::new("@,
    ]
}

/// The argument text of a `bytes!` invocation whose text after `bytes!(`
/// is `rest`: up to the next `)`, or all of `rest` when none follows.
pub open spec fn macro_content(rest: Seq<char>) -> Seq<char> {
    match find_sub(rest, ")"@) {
        Some(j) => rest.take(j),
        None => rest,
    }
}

/// The argument texts of the `bytes!` invocations of `s`, left to right.
pub open spec fn macro_contents(s: Seq<char>) -> Seq<Seq<char>>
    decreases s.len(),
{
    match find_sub(s, "bytes!("@) {
        Some(i) => if 0 <= i && i + 7 <= s.len() {
            let rest = s.skip(i + 7);
            seq![macro_content(rest)] + macro_contents(rest)
        } else {
            seq![]
        },
        None => seq![],
    }
}

/// The `k`-th invocation has the same argument text as another one.
pub open spec fn is_repeated(cs: Seq<Seq<char>>, k: int) -> bool {
    exists|j: int| 0 <= j < cs.len() && j != k && #[trigger] cs[j] == cs[k]
}

/// How many of the first `n` invocations repeat the argument text of
/// another one.
pub open spec fn repeated_upto(cs: Seq<Seq<char>>, n: int) -> nat
    decreases n,
{
    if n <= 0 {
        0
    } else {
        repeated_upto(cs, n - 1) + if is_repeated(cs, n - 1) {
            1nat
        } else {
            0nat
        }
    }
}

/// The `bytes!` invocations of `s` that construct the same byte sequence as
/// another one.
pub open spec fn repeated_macro_calls(s: Seq<char>) -> nat {
    repeated_upto(macro_contents(s), macro_contents(s).len() as int)
}

/// How many constructions `s` holds: the calls of each `Bytes`/`BytesN`
/// constructor (non-overlapping, per pattern), and the `bytes!`
/// invocations whose literal content is repeated.
pub open spec fn total_ctor_calls(s: Seq<char>) -> nat {
    count_sub(s, ctor_patterns()[0]) + count_sub(s, ctor_patterns()[1]) + count_sub(
        s,
        ctor_patterns()[2],
    ) + repeated_macro_calls(s) + count_sub(s, ctor_patterns()[4]) + count_sub(
        s,
        ctor_patterns()[5],
    )
}

/// `s` contains some constructor pattern.
pub open spec fn has_ctor(s: Seq<char>) -> bool {
    exists|k: int| 0 <= k < 6 && has_sub(s, #[trigger] ctor_patterns()[k])
}

/// A trimmed line that opens a loop.
pub open spec fn starts_loop(t: Seq<char>) -> bool {
    ||| starts_with(t, "for "@) || has_sub(t, "for "@)
    ||| starts_with(t, "while "@) || has_sub(t, "while "@)
    ||| starts_with(t, "loop {"@) || has_sub(t, "loop {"@)
}

/// How many times `c` occurs in `s`.
pub open spec fn count_char(s: Seq<char>, c: char) -> int
    decreases s.len(),
{
    if s.len() == 0 {
        0
    } else {
        count_char(s.drop_last(), c) + if s.last() == c {
            1int
        } else {
            0int
        }
    }
}

/// The state of the line-by-line loop scan.
pub struct LoopScan {
    pub found: bool,
    pub loop_depth: int,
    pub depth: int,
    pub inside: bool,
}

/// One line of the loop scan; a constructor counts on a line on which a
/// loop body is open (the line that opens the loop included, also when it
/// closes on that line). Once one is found the state stays put.
pub open spec fn scan_step(s: LoopScan, t: Seq<char>) -> LoopScan {
    if s.found {
        s
    } else {
        let open = count_char(t, '{');
        let close = count_char(t, '}');
        let entering = starts_loop(t) && !s.inside;
        let inside1 = if entering { true } else { s.inside };
        let ld = if entering { s.depth + open } else { s.loop_depth };
        let d = s.depth + open - close;
        let inside2 = if inside1 && d < ld { false } else { inside1 };
        LoopScan { found: inside1 && has_ctor(t), loop_depth: ld, depth: d, inside: inside2 }
    }
}

/// The loop scan after the first `n` lines of `ls` (each trimmed).
pub open spec fn scan_lines(ls: Seq<Seq<char>>, n: int) -> LoopScan
    decreases n,
{
    if n <= 0 {
        LoopScan { found: false, loop_depth: 0, depth: 0, inside: false }
    } else {
        scan_step(scan_lines(ls, n - 1), trim(ls[n - 1]))
    }
}

/// A constructor pattern appears on a line inside a loop body.
pub open spec fn bytes_in_loop(s: Seq<char>) -> bool {
    scan_lines(lines(s), lines(s).len() as int).found
}

/// The findings for one function.
pub open spec fn function_findings(f: SorobanFunction) -> Seq<ViolationView> {
    let src = f.raw_definition@;
    let n = total_ctor_calls(src);
    (if n >= 2 {
        seq![
            vview(
                BYTES_RULE_ID@,
                "Function '"@ + f.name@ + "' constructs Bytes/BytesN "@ + decimal(n)
                    + " time(s). Repeated allocation increases execution overhead."@,
                ViolationSeverity::Medium,
                f.line_number as int,
                0,
                f.name@,
                REPEATED_SUGGESTION@,
            ),
        ]
    } else {
        seq![]
    }) + (if bytes_in_loop(src) {
        seq![
            vview(
                BYTES_RULE_ID@,
                "Function '"@ + f.name@
                    + "' constructs Bytes/BytesN inside a loop. Each iteration allocates a new host object, multiplying overhead."@,
                ViolationSeverity::High,
                f.line_number as int,
                0,
                f.name@,
                LOOP_SUGGESTION@,
            ),
        ]
    } else {
        seq![]
    })
}

/// The findings for the first `n` functions of `fs`.
pub open spec fn functions_findings(fs: Seq<SorobanFunction>, n: int) -> Seq<ViolationView>
    decreases n,
{
    if n <= 0 {
        seq![]
    } else {
        functions_findings(fs, n - 1) + function_findings(fs[n - 1])
    }
}

/// The findings for the first `n` impl blocks of `is`.
pub open spec fn impls_findings(is: Seq<SorobanImpl>, n: int) -> Seq<ViolationView>
    decreases n,
{
    if n <= 0 {
        seq![]
    } else {
        impls_findings(is, n - 1) + functions_findings(
            is[n - 1].functions@,
            is[n - 1].functions@.len() as int,
        )
    }
}

/// Every finding of the rule for `c`.
pub open spec fn contract_findings(c: SorobanContract) -> Seq<ViolationView> {
    impls_findings(c.implementations@, c.implementations@.len() as int)
}

proof fn lemma_count_sub_bound(h: Seq<char>, n: Seq<char>)
    requires
        n.len() > 0,
    ensures
        count_sub(h, n) * n.len() <= h.len(),
    decreases h.len(),
{
    match crate::text::find_sub(h, n) {
        Some(i) => {
            if 0 <= i && i + n.len() <= h.len() {
                lemma_count_sub_bound(h.skip(i + n.len()), n);
                let c = count_sub(h, n) as int;
                let c1 = count_sub(h.skip(i + n.len()), n) as int;
                let m = n.len() as int;
                assert(c == 1 + c1);
                assert(h.skip(i + n.len()).len() == h.len() - i - m);
                assert(c1 * m <= h.len() - i - m);
                assert(c * m == m + c1 * m) by (nonlinear_arith)
                    requires
                        c == 1 + c1,
                ;
                assert(c * m <= h.len());
            } else {
                assert(count_sub(h, n) == 0);
            }
        },
        None => {
            assert(count_sub(h, n) == 0);
        },
    }
}

/// The summed lengths of the first `n` lines of `ls`.
pub open spec fn lines_total(ls: Seq<Seq<char>>, n: int) -> int
    decreases n,
{
    if n <= 0 {
        0
    } else {
        lines_total(ls, n - 1) + ls[n - 1].len()
    }
}

proof fn lemma_lines_total_mono(ls: Seq<Seq<char>>, n: int, m: int)
    requires
        0 <= n <= m,
    ensures
        lines_total(ls, n) <= lines_total(ls, m),
    decreases m,
{
    if n < m {
        lemma_lines_total_mono(ls, n, m - 1);
    }
}

proof fn lemma_lines_total_cons(a: Seq<char>, rest: Seq<Seq<char>>, n: int)
    requires
        0 <= n <= rest.len(),
    ensures
        lines_total(seq![a] + rest, n + 1) == a.len() + lines_total(rest, n),
    decreases n,
{
    let x = seq![a] + rest;
    if n > 0 {
        lemma_lines_total_cons(a, rest, n - 1);
        assert(x[n] == rest[n - 1]);
        assert(lines_total(x, n + 1) == lines_total(x, n) + x[n].len());
        assert(lines_total(rest, n) == lines_total(rest, n - 1) + rest[n - 1].len());
    } else {
        assert(x[0] == a);
        assert(lines_total(x, 0) == 0);
        assert(lines_total(x, 1) == lines_total(x, 0) + x[0].len());
        assert(lines_total(rest, 0) == 0);
    }
}

proof fn lemma_lines_total_bound(s: Seq<char>)
    ensures
        lines_total(lines(s), lines(s).len() as int) <= s.len(),
    decreases s.len(),
{
    if s.len() > 0 {
        match s.index_of_first('\n') {
            Some(k) => {
                s.index_of_first_ensures('\n');
                if 0 <= k < s.len() {
                    let rest = s.skip(k + 1);
                    lemma_lines_total_bound(rest);
                    let a = crate::text::strip_cr(s.take(k));
                    lemma_lines_total_cons(a, lines(rest), lines(rest).len() as int);
                    assert(lines(s) == seq![a] + lines(rest));
                    assert(a.len() <= k);
                    assert(rest.len() == s.len() - k - 1);
                }
            },
            None => {
                assert(lines(s) == seq![s]);
                let x = seq![s];
                assert(lines_total(x, 0) == 0);
                assert(lines_total(x, 1) == lines_total(x, 0) + x[0].len());
            },
        }
    }
}

proof fn lemma_count_char_bound(s: Seq<char>, c: char)
    ensures
        0 <= count_char(s, c) <= s.len(),
    decreases s.len(),
{
    if s.len() > 0 {
        lemma_count_char_bound(s.drop_last(), c);
    }
}

proof fn lemma_scan_found_stays(ls: Seq<Seq<char>>, n: int, m: int)
    requires
        0 <= n <= m,
        scan_lines(ls, n).found,
    ensures
        scan_lines(ls, m).found,
    decreases m,
{
    if n < m {
        lemma_scan_found_stays(ls, n, m - 1);
    }
}

/// Counts the `{` or `}` characters of a line.
fn count_char_exec(s: &[char], c: char) -> (r: usize)
    ensures
        r as int == count_char(s@, c),
{
    let mut n: usize = 0;
    let mut i: usize = 0;
    while i < s.len()
        invariant
            i <= s@.len(),
            n <= i,
            n as int == count_char(s@.take(i as int), c),
        decreases s.len() - i,
    {
        assert(s@.take(i + 1).drop_last() =~= s@.take(i as int));
        if s[i] == c {
            n += 1;
        }
        i += 1;
    }
    assert(s@.take(i as int) =~= s@);
    n
}

proof fn lemma_macro_contents_len(s: Seq<char>)
    ensures
        macro_contents(s).len() == count_sub(s, "bytes!("@),
    decreases s.len(),
{
    reveal_strlit("bytes!(");
    match find_sub(s, "bytes!("@) {
        Some(i) => {
            if 0 <= i && i + 7 <= s.len() {
                lemma_macro_contents_len(s.skip(i + 7));
            }
        },
        None => {},
    }
}

proof fn lemma_repeated_bound(cs: Seq<Seq<char>>, n: int)
    requires
        0 <= n,
    ensures
        repeated_upto(cs, n) <= n,
    decreases n,
{
    if n > 0 {
        lemma_repeated_bound(cs, n - 1);
    }
}

/// Whether two texts are the same.
fn same_chars(a: &[char], b: &[char]) -> (r: bool)
    ensures
        r == (a@ == b@),
{
    if a.len() != b.len() {
        return false;
    }
    let r = crate::text::occurs_at_exec(a, 0, b);
    assert(a@.subrange(0, b@.len() as int) =~= a@);
    r
}

/// The argument texts of the `bytes!` invocations of `src`.
fn macro_contents_exec(src: &[char]) -> (r: Vec<Vec<char>>)
    ensures
        line_views(r@) == macro_contents(src@),
{
    let pat = chars_of("bytes!(");
    let close = chars_of(")");
    proof {
        reveal_strlit("bytes!(");
        reveal_strlit(")");
        assert(src@.skip(0) =~= src@);
    }
    let mut out: Vec<Vec<char>> = Vec::new();
    let mut pos: usize = 0;
    while pos <= src.len()
        invariant
            pos <= src@.len(),
            pat@ == "bytes!("@,
            close@ == ")"@,
            pat@.len() == 7,
            close@.len() == 1,
            line_views(out@) + macro_contents(src@.skip(pos as int)) == macro_contents(src@),
        decreases src.len() + 1 - pos,
    {
        let r = find_from(src, &pat, pos);
        proof {
            lemma_find_from_skip(
                src@,
                pat@,
                pos as int,
                match r {
                    Some(i) => Some(i as int),
                    None => None,
                },
            );
        }
        match r {
            Some(i) => {
                assert(occurs_at(src@, i as int, pat@));
                let start = i + pat.len();
                let rj = find_from(src, &close, start);
                proof {
                    lemma_find_from_skip(
                        src@,
                        close@,
                        start as int,
                        match rj {
                            Some(j) => Some(j as int),
                            None => None,
                        },
                    );
                }
                let end = match rj {
                    Some(j) => {
                        assert(occurs_at(src@, j as int, close@));
                        j
                    },
                    None => src.len(),
                };
                let content = slice_chars(src, start, end);
                let ghost before = line_views(out@);
                proof {
                    let t = src@.skip(pos as int);
                    assert(t.skip(i - pos + 7) =~= src@.skip(start as int));
                    let rest = src@.skip(start as int);
                    assert(macro_content(rest) =~= content@);
                    assert(macro_contents(t) == seq![content@] + macro_contents(rest));
                }
                out.push(content);
                proof {
                    assert(line_views(out@) =~= before.push(content@));
                    assert(line_views(out@) + macro_contents(src@.skip(start as int)) =~= before
                        + macro_contents(src@.skip(pos as int)));
                }
                pos = start;
            },
            None => {
                proof {
                    assert(macro_contents(src@.skip(pos as int)) =~= seq![]);
                    assert(line_views(out@) =~= macro_contents(src@));
                }
                return out;
            },
        }
    }
    out
}

/// How many of the argument texts repeat another one.
fn repeated_count(cs: &Vec<Vec<char>>) -> (r: usize)
    ensures
        r as nat == repeated_upto(line_views(cs@), cs@.len() as int),
{
    let ghost cv = line_views(cs@);
    let mut count: usize = 0;
    let mut k: usize = 0;
    while k < cs.len()
        invariant
            k <= cs@.len(),
            cv == line_views(cs@),
            count <= k,
            count as nat == repeated_upto(cv, k as int),
        decreases cs.len() - k,
    {
        let mut j: usize = 0;
        let mut found = false;
        while j < cs.len() && !found
            invariant
                j <= cs@.len(),
                k < cs@.len(),
                cv == line_views(cs@),
                found ==> is_repeated(cv, k as int),
                !found ==> forall|m: int| 0 <= m < j && m != k ==> cv[m] != cv[k as int],
            decreases cs.len() - j,
        {
            if j != k && same_chars(&cs[j], &cs[k]) {
                assert(cv[j as int] == cv[k as int]);
                found = true;
            }
            j += 1;
        }
        if found {
            count += 1;
        }
        k += 1;
    }
    count
}

impl InefficientBytesAllocationRule {
    /// Whether the rule is currently on (as a field read for contracts).
    pub closed spec fn enabled_spec(&self) -> bool {
        self.enabled
    }

    /// The number of constructor calls in `src`.
    fn ctor_calls(src: &[char]) -> (r: usize)
        ensures
            r as nat == total_ctor_calls(src@),
    {
        let p0 = chars_of("Bytes::from_array(");
        let p1 = chars_of("Bytes::from_slice(");
        let p2 = chars_of("Bytes::new(");
        let p3 = chars_of("bytes!(");
        let p4 = chars_of("BytesN::from_array(");
        let p5 = chars_of("BytesN::new(");
        proof {
            reveal_strlit("Bytes::from_array(");
            reveal_strlit("Bytes::from_slice(");
            reveal_strlit("Bytes::new(");
            reveal_strlit("bytes!(");
            reveal_strlit("BytesN::from_array(");
            reveal_strlit("BytesN::new(");
            lemma_count_sub_bound(src@, p0@);
            lemma_count_sub_bound(src@, p1@);
            lemma_count_sub_bound(src@, p2@);
            lemma_count_sub_bound(src@, p3@);
            lemma_count_sub_bound(src@, p4@);
            lemma_count_sub_bound(src@, p5@);
        }
        let c0 = count_matches(src, &p0);
        let c1 = count_matches(src, &p1);
        let c2 = count_matches(src, &p2);
        let c3 = count_matches(src, &p3);
        let contents = macro_contents_exec(src);
        let r3 = repeated_count(&contents);
        let c4 = count_matches(src, &p4);
        let c5 = count_matches(src, &p5);
        proof {
            lemma_macro_contents_len(src@);
            lemma_repeated_bound(line_views(contents@), contents@.len() as int);
            assert(line_views(contents@).len() == contents@.len());
            assert(r3 <= c3);
        }
        assert(c0 * 18 <= src@.len() && c1 * 18 <= src@.len() && c2 * 11 <= src@.len() && c3 * 7
            <= src@.len() && c4 * 19 <= src@.len() && c5 * 12 <= src@.len());
        assert(c0 + c1 + c2 + c3 + c4 + c5 <= src@.len()) by (nonlinear_arith)
            requires
                c0 * 18 <= src@.len() && c1 * 18 <= src@.len() && c2 * 11 <= src@.len() && c3 * 7
                    <= src@.len() && c4 * 19 <= src@.len() && c5 * 12 <= src@.len(),
        ;
        let n = src.len();
        c0 + c1 + c2 + r3 + c4 + c5
    }

    /// Whether `s` holds a constructor pattern.
    fn line_has_ctor(s: &[char]) -> (r: bool)
        ensures
            r == has_ctor(s@),
    {
        let r = contains_str(s, "Bytes::from_array(") || contains_str(s, "Bytes::from_slice(")
            || contains_str(s, "Bytes::new(") || contains_str(s, "bytes!(") || contains_str(
            s,
            "BytesN::from_array(",
        ) || contains_str(s, "BytesN::new(");
        proof {
            if r {
                if has_sub(s@, "Bytes::from_array("@) {
                    assert(has_sub(s@, ctor_patterns()[0]));
                } else if has_sub(s@, "Bytes::from_slice("@) {
                    assert(has_sub(s@, ctor_patterns()[1]));
                } else if has_sub(s@, "Bytes::new("@) {
                    assert(has_sub(s@, ctor_patterns()[2]));
                } else if has_sub(s@, "bytes!("@) {
                    assert(has_sub(s@, ctor_patterns()[3]));
                } else if has_sub(s@, "BytesN::from_array("@) {
                    assert(has_sub(s@, ctor_patterns()[4]));
                } else {
                    assert(has_sub(s@, ctor_patterns()[5]));
                }
            } else {
                assert forall|k: int| 0 <= k < 6 implies !has_sub(s@, #[trigger] ctor_patterns()[k]) by {
                }
            }
        }
        r
    }

    /// Analyse every function of an `impl` block.
    fn check_implementation(&self, implementation: &SorobanImpl) -> (r: Vec<RuleViolation>)
        ensures
            views(r@) == functions_findings(
                implementation.functions@,
                implementation.functions@.len() as int,
            ),
    {
        let mut violations: Vec<RuleViolation> = Vec::new();
        let mut i: usize = 0;
        while i < implementation.functions.len()
            invariant
                i <= implementation.functions@.len(),
                views(violations@) == functions_findings(implementation.functions@, i as int),
            decreases implementation.functions.len() - i,
        {
            let more = self.check_function(&implementation.functions[i]);
            append_all(&mut violations, more);
            i += 1;
        }
        violations
    }

    /// Analyse one function for repeated and in-loop `Bytes` construction.
    fn check_function(&self, function: &SorobanFunction) -> (r: Vec<RuleViolation>)
        ensures
            views(r@) == function_findings(*function),
    {
        let mut violations: Vec<RuleViolation> = Vec::new();
        let src = chars_of(function.raw_definition.as_str());
        let name = chars_of(function.name.as_str());
        let total = Self::ctor_calls(&src);
        if total >= 2 {
            let mut d: Vec<char> = Vec::new();
            push_str(&mut d, "Function '");
            push_chars(&mut d, &name);
            push_str(&mut d, "' constructs Bytes/BytesN ");
            let num = decimal_exec(total);
            push_chars(&mut d, &num);
            push_str(&mut d, " time(s). Repeated allocation increases execution overhead.");
            violations.push(
                RuleViolation {
                    rule_name: owned(BYTES_RULE_ID),
                    description: string_of(&d),
                    suggestion: owned(REPEATED_SUGGESTION),
                    line_number: function.line_number,
                    column_number: 0,
                    variable_name: string_of(&name),
                    severity: self.severity(),
                },
            );
        }
        if self.has_bytes_in_loop(&src) {
            let mut d: Vec<char> = Vec::new();
            push_str(&mut d, "Function '");
            push_chars(&mut d, &name);
            push_str(
                &mut d,
                "' constructs Bytes/BytesN inside a loop. Each iteration allocates a new host object, multiplying overhead.",
            );
            violations.push(
                RuleViolation {
                    rule_name: owned(BYTES_RULE_ID),
                    description: string_of(&d),
                    suggestion: owned(LOOP_SUGGESTION),
                    line_number: function.line_number,
                    column_number: 0,
                    variable_name: string_of(&name),
                    severity: ViolationSeverity::High,
                },
            );
        }
        proof {
            assert(views(violations@) =~= function_findings(*function));
        }
        violations
    }

    /// Whether a constructor call appears inside a loop body of `src`: lines
    /// are scanned in order, tracking brace depth from the line that opened
    /// the loop.
    fn has_bytes_in_loop(&self, src: &[char]) -> (r: bool)
        ensures
            r == bytes_in_loop(src@),
    {
        let src_len = src.len();
        let ls = lines_exec(src);
        let ghost lv = line_views(ls@);
        proof {
            lemma_lines_total_bound(src@);
        }
        let mut loop_brace_depth: i128 = 0;
        let mut current_depth: i128 = 0;
        let mut inside_loop = false;
        let mut i: usize = 0;
        while i < ls.len()
            invariant
                i <= ls@.len(),
                lv == line_views(ls@),
                lv == lines(src@),
                src_len == src@.len(),
                lines_total(lv, lv.len() as int) <= src_len,
                !scan_lines(lv, i as int).found,
                scan_lines(lv, i as int).loop_depth == loop_brace_depth as int,
                scan_lines(lv, i as int).depth == current_depth as int,
                scan_lines(lv, i as int).inside == inside_loop,
                -lines_total(lv, i as int) <= current_depth <= lines_total(lv, i as int),
                -lines_total(lv, i as int) <= loop_brace_depth <= lines_total(lv, i as int),
            decreases ls.len() - i,
        {
            let trimmed = trim_exec(&ls[i]);
            assert(lv[i as int] == ls@[i as int]@);
            proof {
                lemma_lines_total_mono(lv, i + 1, lv.len() as int);
                crate::text::lemma_trim_len(lv[i as int]);
                lemma_count_char_bound(trimmed@, '{');
                lemma_count_char_bound(trimmed@, '}');
            }
            let starts = crate::text::starts_with_exec(&trimmed, &chars_of("for "))
                || contains_str(&trimmed, "for ") || crate::text::starts_with_exec(
                &trimmed,
                &chars_of("while "),
            ) || contains_str(&trimmed, "while ") || crate::text::starts_with_exec(
                &trimmed,
                &chars_of("loop {"),
            ) || contains_str(&trimmed, "loop {");
            let open = count_char_exec(&trimmed, '{') as i128;
            let close = count_char_exec(&trimmed, '}') as i128;
            if starts && !inside_loop {
                inside_loop = true;
                loop_brace_depth = current_depth + open;
            }
            let in_loop_on_line = inside_loop;
            current_depth = current_depth + open - close;
            if inside_loop && current_depth < loop_brace_depth {
                inside_loop = false;
            }
            if in_loop_on_line {
                if Self::line_has_ctor(&trimmed) {
                    proof {
                        lemma_scan_found_stays(lv, i + 1, lv.len() as int);
                    }
                    return true;
                }
            }
            i += 1;
        }
        false
    }
}

impl Default for InefficientBytesAllocationRule {
    fn default() -> (r: Self)
        ensures
            r.enabled_spec(),
    {
        InefficientBytesAllocationRule { enabled: true }
    }
}

impl SorobanRule for InefficientBytesAllocationRule {
    fn id(&self) -> (r: &str)
        ensures
            r@ == BYTES_RULE_ID@,
    {
        BYTES_RULE_ID
    }

    fn name(&self) -> (r: &str)
        ensures
            r@ == "Inefficient Bytes Allocation"@,
    {
        "Inefficient Bytes Allocation"
    }

    fn description(&self) -> (r: &str)
        ensures
            r@ == "Detects repeated Bytes/BytesN construction that increases execution overhead. Each host-object allocation is metered in Soroban; constructing the same byte sequence multiple times wastes CPU and memory budget."@,
    {
        "Detects repeated Bytes/BytesN construction that increases execution overhead. Each host-object allocation is metered in Soroban; constructing the same byte sequence multiple times wastes CPU and memory budget."
    }

    fn severity(&self) -> (r: ViolationSeverity)
        ensures
            r == ViolationSeverity::Medium,
    {
        ViolationSeverity::Medium
    }

    fn is_enabled(&self) -> (r: bool)
        ensures
            r == self.enabled_spec(),
    {
        self.enabled
    }

    fn set_enabled(&mut self, enabled: bool)
        ensures
            final(self).enabled_spec() == enabled,
    {
        self.enabled = enabled;
    }

    fn apply(&self, contract: &SorobanContract) -> (r: Vec<RuleViolation>)
        ensures
            views(r@) == contract_findings(*contract),
    {
        let mut violations: Vec<RuleViolation> = Vec::new();
        let mut i: usize = 0;
        while i < contract.implementations.len()
            invariant
                i <= contract.implementations@.len(),
                views(violations@) == impls_findings(contract.implementations@, i as int),
            decreases contract.implementations.len() - i,
        {
            let more = self.check_implementation(&contract.implementations[i]);
            append_all(&mut violations, more);
            i += 1;
        }
        violations
    }
}

} // verus!
