//! Redundant boolean comparisons (`x == true`, `false != x`, ...) in
//! Solidity source, with the simplified expression to use instead.
//!
//! A line is scanned byte by byte. Each byte is viewed as the character with
//! the same code (`latin1`), so positions are byte offsets; every token the
//! scan extracts consists of ASCII bytes only, so its characters are exactly
//! the text of the line at those bytes.

use vstd::prelude::*;
use crate::ast::{Language, UnifiedAST};
use crate::text::{
    chars_of, eq_str, line_views, lines, lines_exec, push_chars, push_str,
    slice_chars, string_of, trim, trim_exec,
};
use crate::violation::{RuleViolation, ViolationSeverity, ViolationView, views, vview};

verus! {

pub const BOOLEAN_RULE_ID: &'static str = "solidity-redundant-boolean-comparisons";

/// Finds comparisons of an expression with a boolean literal.
pub struct RedundantBooleanComparisonsRule;

impl Default for RedundantBooleanComparisonsRule {
    fn default() -> (r: Self)
        ensures
            r == RedundantBooleanComparisonsRule,
    {
        RedundantBooleanComparisonsRule
    }
}

/// Each byte as the character with the same code.
pub open spec fn latin1(b: Seq<u8>) -> Seq<char> {
    b.map_values(|x: u8| x as char)
}

/// `u8::is_ascii_whitespace`: space, tab, line feed, form feed, carriage return.
pub open spec fn is_ascii_ws(c: char) -> bool {
    c == ' ' || c == '\t' || c == '\n' || c == '\x0C' || c == '\r'
}

/// A byte that can be part of a compared expression: ASCII letters and
/// digits, `_`, `.`, `!`, parentheses and brackets.
pub open spec fn is_token_char(c: char) -> bool {
    ||| ('a' <= c && c <= 'z')
    ||| ('A' <= c && c <= 'Z')
    ||| ('0' <= c && c <= '9')
    ||| c == '_'
    ||| c == '.'
    ||| c == '!'
    ||| c == ')'
    ||| c == '('
    ||| c == ']'
    ||| c == '['
}

/// The first position at or after `k` that is not ASCII whitespace.
pub open spec fn skip_ws_fwd(s: Seq<char>, k: int) -> int
    decreases s.len() - k,
{
    if 0 <= k < s.len() && is_ascii_ws(s[k]) {
        skip_ws_fwd(s, k + 1)
    } else {
        k
    }
}

/// The position at or before `k` where the ASCII whitespace ending at `k`
/// starts.
pub open spec fn skip_ws_back(s: Seq<char>, k: int) -> int
    decreases k,
{
    if 0 < k <= s.len() && is_ascii_ws(s[k - 1]) {
        skip_ws_back(s, k - 1)
    } else {
        k
    }
}

/// Where the run of token characters that ends at `k` starts.
pub open spec fn token_start(s: Seq<char>, k: int) -> int
    decreases k,
{
    if 0 < k <= s.len() && is_token_char(s[k - 1]) {
        token_start(s, k - 1)
    } else {
        k
    }
}

/// Where the run of token characters that starts at `k` ends.
pub open spec fn token_end(s: Seq<char>, k: int) -> int
    decreases s.len() - k,
{
    if 0 <= k < s.len() && is_token_char(s[k]) {
        token_end(s, k + 1)
    } else {
        k
    }
}

/// `(` or `)`.
pub open spec fn is_paren(c: char) -> bool {
    c == '(' || c == ')'
}

/// `t` without its leading parentheses.
pub open spec fn strip_lead_parens(t: Seq<char>) -> Seq<char>
    decreases t.len(),
{
    if t.len() > 0 && is_paren(t[0]) {
        strip_lead_parens(t.drop_first())
    } else {
        t
    }
}

/// `t` without its trailing parentheses.
pub open spec fn strip_trail_parens(t: Seq<char>) -> Seq<char>
    decreases t.len(),
{
    if t.len() > 0 && is_paren(t.last()) {
        strip_trail_parens(t.drop_last())
    } else {
        t
    }
}

/// `str::trim_matches` with `(` and `)`.
pub open spec fn strip_parens(t: Seq<char>) -> Seq<char> {
    strip_trail_parens(strip_lead_parens(t))
}

/// The text `lit` occurs in `s` at position `k`.
pub open spec fn text_at(s: Seq<char>, k: int, lit: Seq<char>) -> bool {
    0 <= k && k + lit.len() <= s.len() && s.subrange(k, k + lit.len()) == lit
}

/// A character that can continue an identifier: an ASCII letter, digit or `_`.
pub open spec fn is_word_char(c: char) -> bool {
    ('a' <= c && c <= 'z') || ('A' <= c && c <= 'Z') || ('0' <= c && c <= '9') || c == '_'
}

/// The literal `lit` stands in `s` at position `k` as a whole word: it is
/// followed by the end of `s` or by a character that cannot continue an
/// identifier (so `trueValue` is no `true`).
pub open spec fn literal_at(s: Seq<char>, k: int, lit: Seq<char>) -> bool {
    text_at(s, k, lit) && (k + lit.len() == s.len() || !is_word_char(s[k + lit.len()]))
}

/// Whether comparing with `op` against `literal` tests that the expression
/// holds (`== true`, `!= false`) rather than that it does not.
pub open spec fn wants_truthy(op: Seq<char>, literal: Seq<char>) -> bool {
    if op == "=="@ && literal == "false"@ {
        false
    } else if op == "!="@ && literal == "true"@ {
        false
    } else {
        true
    }
}

/// The simplified form of comparing `expr` with `op` against `literal`:
/// the trimmed expression, or its negation (dropping a leading `!` rather
/// than adding a second one).
pub open spec fn simplify_spec(expr: Seq<char>, op: Seq<char>, literal: Seq<char>) -> Seq<char> {
    let t = trim(expr);
    if wants_truthy(op, literal) {
        t
    } else if t.len() > 0 && t[0] == '!' {
        trim(t.drop_first())
    } else {
        seq!['!'] + t
    }
}

/// `==` or `!=` starts at position `i`.
pub open spec fn is_bool_op(s: Seq<char>, i: int) -> bool {
    0 <= i && i + 1 < s.len() && (s[i] == '=' || s[i] == '!') && s[i + 1] == '='
}

/// The operator text at `i`.
pub open spec fn op_text(s: Seq<char>, i: int) -> Seq<char> {
    if s[i] == '=' {
        "=="@
    } else {
        "!="@
    }
}

/// The expression on the left of the operator at `i`.
pub open spec fn lhs_token(s: Seq<char>, i: int) -> Seq<char> {
    let le = skip_ws_back(s, i);
    strip_parens(s.subrange(token_start(s, le), le))
}

/// The expression on the right of the operator at `i`.
pub open spec fn rhs_token(s: Seq<char>, i: int) -> Seq<char> {
    let ts = skip_ws_fwd(s, i + 2);
    strip_parens(s.subrange(ts, token_end(s, ts)))
}

/// The finding for the operator at `i`: its 1-based column, the comparison
/// as written back (`expr op literal` or `literal op expr`), and the
/// simplified expression. `None` when neither side is a boolean literal or
/// the other side is empty.
pub open spec fn finding_at(s: Seq<char>, i: int) -> Option<(int, Seq<char>, Seq<char>)> {
    let op = op_text(s, i);
    let rs = skip_ws_fwd(s, i + 2);
    let rhs_true = literal_at(s, rs, "true"@);
    let rhs_false = literal_at(s, rs, "false"@);
    let lhs = lhs_token(s, i);
    let lhs_true = lhs == "true"@;
    let lhs_false = lhs == "false"@;
    if rhs_true || rhs_false {
        let lit = if rhs_true {
            "true"@
        } else {
            "false"@
        };
        if lhs.len() == 0 {
            None
        } else {
            Some((i + 1, lhs + " "@ + op + " "@ + lit, simplify_spec(lhs, op, lit)))
        }
    } else if lhs_true || lhs_false {
        let lit = if lhs_true {
            "true"@
        } else {
            "false"@
        };
        let rhs = rhs_token(s, i);
        if rhs.len() == 0 {
            None
        } else {
            Some((i + 1, lit + " "@ + op + " "@ + rhs, simplify_spec(rhs, op, lit)))
        }
    } else {
        None
    }
}

/// The findings of `s` from position `i` on, left to right; after a
/// comparison operator the scan resumes two positions later.
pub open spec fn scan_from(s: Seq<char>, i: int) -> Seq<(int, Seq<char>, Seq<char>)>
    decreases s.len() - i,
{
    if i < 0 || i + 1 >= s.len() {
        seq![]
    } else if !is_bool_op(s, i) {
        scan_from(s, i + 1)
    } else {
        match finding_at(s, i) {
            Some(f) => seq![f] + scan_from(s, i + 2),
            None => scan_from(s, i + 2),
        }
    }
}

/// The findings of one line of source.
pub open spec fn scan_line_spec(line: Seq<char>) -> Seq<(int, Seq<char>, Seq<char>)> {
    scan_from(latin1(vstd::utf8::encode_utf8(line)), 0)
}

/// The view of a list of findings.
pub open spec fn triple_views(v: Seq<(usize, String, String)>) -> Seq<(int, Seq<char>, Seq<char>)> {
    v.map_values(|t: (usize, String, String)| (t.0 as int, t.1@, t.2@))
}

/// The violation reported for one finding on line `line_number`.
pub open spec fn boolean_view(line_number: int, f: (int, Seq<char>, Seq<char>)) -> ViolationView {
    vview(
        BOOLEAN_RULE_ID@,
        "Redundant boolean comparison `"@ + f.1 + "` can be simplified"@,
        ViolationSeverity::Info,
        line_number,
        f.0,
        f.1,
        "Replace `"@ + f.1 + "` with `"@ + f.2 + "`."@,
    )
}

/// The violations of the first `n` lines of `ls`.
pub open spec fn boolean_lines(ls: Seq<Seq<char>>, n: int) -> Seq<ViolationView>
    decreases n,
{
    if n <= 0 {
        seq![]
    } else {
        boolean_lines(ls, n - 1) + scan_line_spec(ls[n - 1]).map_values(
            |f: (int, Seq<char>, Seq<char>)| boolean_view(n, f),
        )
    }
}

/// The violations for a syntax tree: none unless it is Solidity.
pub open spec fn boolean_findings(ast: UnifiedAST) -> Seq<ViolationView> {
    if ast.language != Language::Solidity {
        seq![]
    } else {
        boolean_lines(lines(ast.source@), lines(ast.source@).len() as int)
    }
}

fn is_ascii_ws_exec(c: char) -> (r: bool)
    ensures
        r == is_ascii_ws(c),
{
    c == ' ' || c == '\t' || c == '\n' || c == '\x0C' || c == '\r'
}

fn is_token_char_exec(c: char) -> (r: bool)
    ensures
        r == is_token_char(c),
{
    ('a' <= c && c <= 'z') || ('A' <= c && c <= 'Z') || ('0' <= c && c <= '9') || c == '_' || c
        == '.' || c == '!' || c == ')' || c == '(' || c == ']' || c == '['
}

fn latin1_exec(b: &[u8]) -> (r: Vec<char>)
    ensures
        r@ == latin1(b@),
{
    let mut out: Vec<char> = Vec::new();
    let mut k: usize = 0;
    while k < b.len()
        invariant
            k <= b@.len(),
            out@ == latin1(b@.take(k as int)),
        decreases b.len() - k,
    {
        out.push(b[k] as char);
        k += 1;
        assert(out@ =~= latin1(b@.take(k as int)));
    }
    assert(b@.take(k as int) =~= b@);
    out
}

fn skip_ws_fwd_exec(s: &Vec<char>, k: usize) -> (r: usize)
    requires
        k <= s@.len(),
    ensures
        r == skip_ws_fwd(s@, k as int),
        k <= r <= s@.len(),
{
    let mut j = k;
    while j < s.len() && is_ascii_ws_exec(s[j])
        invariant
            k <= j <= s@.len(),
            skip_ws_fwd(s@, k as int) == skip_ws_fwd(s@, j as int),
        decreases s.len() - j,
    {
        j += 1;
    }
    j
}

fn skip_ws_back_exec(s: &Vec<char>, k: usize) -> (r: usize)
    requires
        k <= s@.len(),
    ensures
        r == skip_ws_back(s@, k as int),
        r <= k,
{
    let mut j = k;
    while j > 0 && is_ascii_ws_exec(s[j - 1])
        invariant
            j <= k <= s@.len(),
            skip_ws_back(s@, k as int) == skip_ws_back(s@, j as int),
        decreases j,
    {
        j -= 1;
    }
    j
}

fn token_start_exec(s: &Vec<char>, k: usize) -> (r: usize)
    requires
        k <= s@.len(),
    ensures
        r == token_start(s@, k as int),
        r <= k,
{
    let mut j = k;
    while j > 0 && is_token_char_exec(s[j - 1])
        invariant
            j <= k <= s@.len(),
            token_start(s@, k as int) == token_start(s@, j as int),
        decreases j,
    {
        j -= 1;
    }
    j
}

fn token_end_exec(s: &Vec<char>, k: usize) -> (r: usize)
    requires
        k <= s@.len(),
    ensures
        r == token_end(s@, k as int),
        k <= r <= s@.len(),
{
    let mut j = k;
    while j < s.len() && is_token_char_exec(s[j])
        invariant
            k <= j <= s@.len(),
            token_end(s@, k as int) == token_end(s@, j as int),
        decreases s.len() - j,
    {
        j += 1;
    }
    j
}

fn strip_parens_exec(t: &[char]) -> (r: Vec<char>)
    ensures
        r@ == strip_parens(t@),
{
    let mut a: usize = 0;
    assert(t@.subrange(0, t@.len() as int) =~= t@);
    while a < t.len() && (t[a] == '(' || t[a] == ')')
        invariant
            a <= t@.len(),
            strip_lead_parens(t@) == strip_lead_parens(t@.subrange(a as int, t@.len() as int)),
        decreases t.len() - a,
    {
        proof {
            let u = t@.subrange(a as int, t@.len() as int);
            assert(u.drop_first() =~= t@.subrange(a + 1, t@.len() as int));
        }
        a += 1;
    }
    let mut e = t.len();
    while e > a && (t[e - 1] == '(' || t[e - 1] == ')')
        invariant
            a <= e <= t@.len(),
            strip_trail_parens(t@.subrange(a as int, t@.len() as int)) == strip_trail_parens(
                t@.subrange(a as int, e as int),
            ),
        decreases e,
    {
        proof {
            let u = t@.subrange(a as int, e as int);
            assert(u.drop_last() =~= t@.subrange(a as int, e - 1));
        }
        e -= 1;
    }
    proof {
        assert(t@.subrange(0, t@.len() as int) =~= t@);
    }
    slice_chars(t, a, e)
}

fn text_at_exec(s: &Vec<char>, k: usize, lit: &str) -> (r: bool)
    requires
        k <= s@.len(),
    ensures
        r == text_at(s@, k as int, lit@),
{
    let l = chars_of(lit);
    if l.len() > s.len() - k {
        return false;
    }
    let piece = slice_chars(s, k, k + l.len());
    eq_str(&piece, lit)
}

fn literal_at_exec(s: &Vec<char>, k: usize, lit: &str) -> (r: bool)
    requires
        k <= s@.len(),
    ensures
        r == literal_at(s@, k as int, lit@),
{
    if !text_at_exec(s, k, lit) {
        return false;
    }
    let l = chars_of(lit);
    if l.len() > s.len() - k {
        return false;
    }
    let e = k + l.len();
    if e == s.len() {
        return true;
    }
    let c = s[e];
    !(('a' <= c && c <= 'z') || ('A' <= c && c <= 'Z') || ('0' <= c && c <= '9') || c == '_')
}

fn triple(
    col: usize,
    first: &[char],
    op: &str,
    second: &[char],
    expr: &[char],
    literal: &str,
) -> (r: (usize, String, String))
    ensures
        r.0 == col,
        r.1@ == first@ + " "@ + op@ + " "@ + second@,
        r.2@ == simplify_spec(expr@, op@, literal@),
{
    let mut c: Vec<char> = Vec::new();
    push_chars(&mut c, first);
    push_str(&mut c, " ");
    push_str(&mut c, op);
    push_str(&mut c, " ");
    push_chars(&mut c, second);
    let e = string_of(expr);
    (col, string_of(&c), simplify(e.as_str(), op, literal))
}

fn finding_at_exec(s: &Vec<char>, i: usize) -> (r: Option<(usize, String, String)>)
    requires
        is_bool_op(s@, i as int),
    ensures
        match r {
            Some(t) => finding_at(s@, i as int) == Some((t.0 as int, t.1@, t.2@)),
            None => finding_at(s@, i as int) is None,
        },
{
    let n = s.len();
    assert(i + 2 <= n);
    let op: &str = if s[i] == '=' {
        "=="
    } else {
        "!="
    };
    let rs = skip_ws_fwd_exec(s, i + 2);
    let rhs_true = literal_at_exec(s, rs, "true");
    let rhs_false = literal_at_exec(s, rs, "false");
    let le = skip_ws_back_exec(s, i);
    let ls = token_start_exec(s, le);
    let raw = slice_chars(s, ls, le);
    let lhs = strip_parens_exec(&raw);
    let lhs_true = eq_str(&lhs, "true");
    let lhs_false = eq_str(&lhs, "false");
    if rhs_true || rhs_false {
        let lit: &str = if rhs_true {
            "true"
        } else {
            "false"
        };
        if lhs.len() == 0 {
            return None;
        }
        let lit_chars = chars_of(lit);
        Some(triple(i + 1, &lhs, op, &lit_chars, &lhs, lit))
    } else if lhs_true || lhs_false {
        let lit: &str = if lhs_true {
            "true"
        } else {
            "false"
        };
        let ts = skip_ws_fwd_exec(s, i + 2);
        let te = token_end_exec(s, ts);
        let raw_rhs = slice_chars(s, ts, te);
        let rhs = strip_parens_exec(&raw_rhs);
        if rhs.len() == 0 {
            return None;
        }
        let lit_chars = chars_of(lit);
        Some(triple(i + 1, &lit_chars, op, &rhs, &rhs, lit))
    } else {
        None
    }
}

/// The simplified form of comparing `expr` with `op` against `literal`.
pub fn simplify(expr: &str, op: &str, literal: &str) -> (r: String)
    ensures
        r@ == simplify_spec(expr@, op@, literal@),
{
    let e = chars_of(expr);
    let t = trim_exec(&e);
    let eq = eq_str(&chars_of(op), "==");
    let ne = eq_str(&chars_of(op), "!=");
    let is_true = eq_str(&chars_of(literal), "true");
    let is_false = eq_str(&chars_of(literal), "false");
    let want_truthy = if eq && is_false {
        false
    } else if ne && is_true {
        false
    } else {
        true
    };
    if want_truthy {
        string_of(&t)
    } else if t.len() > 0 && t[0] == '!' {
        let rest = slice_chars(&t, 1, t.len());
        let r = trim_exec(&rest);
        proof {
            assert(rest@ =~= t@.drop_first());
        }
        string_of(&r)
    } else {
        let mut out: Vec<char> = Vec::new();
        out.push('!');
        push_chars(&mut out, &t);
        proof {
            assert(out@ =~= seq!['!'] + t@);
        }
        string_of(&out)
    }
}

impl RedundantBooleanComparisonsRule {
    /// The findings of one line: the 1-based byte column of each comparison
    /// operator, the comparison, and its simplified form.
    pub fn scan_line(line: &str) -> (r: Vec<(usize, String, String)>)
        ensures
            triple_views(r@) == scan_line_spec(line@),
    {
        let bytes = line.as_bytes();
        let s = latin1_exec(bytes);
        let ghost sv = s@;
        let mut findings: Vec<(usize, String, String)> = Vec::new();
        let mut i: usize = 0;
        while i < s.len() && s.len() - i > 1
            invariant
                sv == s@,
                i <= s@.len() + 1,
                scan_from(sv, 0) == triple_views(findings@) + scan_from(sv, i as int),
            decreases s.len() + 1 - i,
        {
            let ghost before = triple_views(findings@);
            if !((s[i] == '=' || s[i] == '!') && s[i + 1] == '=') {
                i += 1;
            } else {
                match finding_at_exec(&s, i) {
                    Some(t) => {
                        findings.push(t);
                        proof {
                            assert(triple_views(findings@) =~= before.push((t.0 as int, t.1@, t.2@)));
                        }
                    },
                    None => {},
                }
                i += 2;
            }
        }
        proof {
            assert(scan_from(sv, i as int) == Seq::<(int, Seq<char>, Seq<char>)>::empty());
            assert(triple_views(findings@) + Seq::<(int, Seq<char>, Seq<char>)>::empty() =~= triple_views(findings@));
        }
        findings
    }

    /// Stable rule identifier.
    pub fn id(&self) -> (r: &'static str)
        ensures
            r@ == BOOLEAN_RULE_ID@,
    {
        BOOLEAN_RULE_ID
    }

    /// Short human-readable name.
    pub fn name(&self) -> (r: &'static str)
        ensures
            r@ == "Redundant Boolean Comparisons"@,
    {
        "Redundant Boolean Comparisons"
    }

    /// What the rule checks.
    pub fn description(&self) -> (r: &'static str)
        ensures
            r@ == "Detects unnecessary boolean comparisons like `== true` or `!= false` and suggests simplified expressions"@,
    {
        "Detects unnecessary boolean comparisons like `== true` or `!= false` and suggests simplified expressions"
    }

    /// The rule depends on no other rule.
    pub fn dependencies(&self) -> (r: Vec<String>)
        ensures
            r@.len() == 0,
    {
        Vec::new()
    }

    /// The findings for a Solidity syntax tree, line by line of its source.
    pub fn check(&self, ast: &UnifiedAST) -> (r: Vec<RuleViolation>)
        ensures
            views(r@) == boolean_findings(*ast),
    {
        let mut violations: Vec<RuleViolation> = Vec::new();
        if ast.language != Language::Solidity {
            return violations;
        }
        let src = chars_of(ast.source.as_str());
        let ls = lines_exec(&src);
        let ghost lv = lines(ast.source@);
        let mut idx: usize = 0;
        while idx < ls.len()
            invariant
                ast.language == Language::Solidity,
                line_views(ls@) == lv,
                lv == lines(ast.source@),
                idx <= ls@.len(),
                views(violations@) == boolean_lines(lv, idx as int),
            decreases ls.len() - idx,
        {
            let line = string_of(&ls[idx]);
            assert(line@ == lv[idx as int]);
            let found = Self::scan_line(line.as_str());
            let ghost fv = triple_views(found@);
            let ghost start = views(violations@);
            let line_number = idx + 1;
            let mut m: usize = 0;
            while m < found.len()
                invariant
                    m <= found@.len(),
                    fv == triple_views(found@),
                    fv == scan_line_spec(lv[idx as int]),
                    start == boolean_lines(lv, idx as int),
                    idx < lv.len(),
                    line_number == idx + 1,
                    views(violations@) == start + fv.take(m as int).map_values(
                        |f: (int, Seq<char>, Seq<char>)| boolean_view(line_number as int, f),
                    ),
                decreases found.len() - m,
            {
                let comparison = chars_of(found[m].1.as_str());
                let simplified = chars_of(found[m].2.as_str());
                let mut d: Vec<char> = Vec::new();
                push_str(&mut d, "Redundant boolean comparison `");
                push_chars(&mut d, &comparison);
                push_str(&mut d, "` can be simplified");
                let mut sg: Vec<char> = Vec::new();
                push_str(&mut sg, "Replace `");
                push_chars(&mut sg, &comparison);
                push_str(&mut sg, "` with `");
                push_chars(&mut sg, &simplified);
                push_str(&mut sg, "`.");
                let ghost before = views(violations@);
                violations.push(
                    RuleViolation {
                        rule_name: crate::text::owned(BOOLEAN_RULE_ID),
                        description: string_of(&d),
                        severity: ViolationSeverity::Info,
                        line_number,
                        column_number: found[m].0,
                        variable_name: string_of(&comparison),
                        suggestion: string_of(&sg),
                    },
                );
                proof {
                    let f = fv[m as int];
                    assert(f == (found@[m as int].0 as int, found@[m as int].1@, found@[m as int].2@));
                    assert(views(violations@) =~= before.push(boolean_view(line_number as int, f)));
                    assert(fv.take(m + 1) =~= fv.take(m as int).push(f));
                    assert(views(violations@) =~= start + fv.take(m + 1).map_values(
                        |f: (int, Seq<char>, Seq<char>)| boolean_view(line_number as int, f),
                    ));
                }
                m += 1;
            }
            proof {
                assert(fv.take(m as int) =~= fv);
                assert(views(violations@) =~= boolean_lines(lv, idx + 1));
            }
            idx += 1;
        }
        violations
    }
}


/// Law: `e == true` and `e != false` both simplify to the trimmed `e`, and
/// `e == false` and `e != true` simplify to the same negation.
pub proof fn law_simplify_pairs(e: Seq<char>)
    ensures
        simplify_spec(e, "=="@, "true"@) == trim(e),
        simplify_spec(e, "!="@, "false"@) == trim(e),
        simplify_spec(e, "=="@, "false"@) == simplify_spec(e, "!="@, "true"@),
{
    reveal_strlit("==");
    reveal_strlit("!=");
    reveal_strlit("true");
    reveal_strlit("false");
    assert("true"@.len() == 4 && "false"@.len() == 5);
    assert("true"@ != "false"@);
    assert("=="@[0] == '=' && "!="@[0] == '!');
    assert("=="@ != "!="@);
    assert(wants_truthy("=="@, "true"@));
    assert(wants_truthy("!="@, "false"@));
    assert(!wants_truthy("=="@, "false"@));
    assert(!wants_truthy("!="@, "true"@));
}

/// Law: every finding of a scan reports, as its column, the 1-based
/// position of a `==` or `!=` operator.
pub proof fn law_columns_point_at_operators(s: Seq<char>, i: int)
    ensures
        forall|k: int|
            0 <= k < scan_from(s, i).len() ==> is_bool_op(s, (#[trigger] scan_from(s, i)[k]).0 - 1),
    decreases s.len() - i,
{
    if i < 0 || i + 1 >= s.len() {
    } else if !is_bool_op(s, i) {
        law_columns_point_at_operators(s, i + 1);
        assert forall|k: int| 0 <= k < scan_from(s, i).len() implies is_bool_op(
            s,
            (#[trigger] scan_from(s, i)[k]).0 - 1,
        ) by {
            assert(scan_from(s, i)[k] == scan_from(s, i + 1)[k]);
        }
    } else {
        law_columns_point_at_operators(s, i + 2);
        let rest = scan_from(s, i + 2);
        assert forall|k: int| 0 <= k < scan_from(s, i).len() implies is_bool_op(
            s,
            (#[trigger] scan_from(s, i)[k]).0 - 1,
        ) by {
            match finding_at(s, i) {
                Some(f) => {
                    if k > 0 {
                        assert(scan_from(s, i)[k] == rest[k - 1]);
                    } else {
                        assert(scan_from(s, i)[k] == f);
                        assert(f.0 == i + 1);
                    }
                },
                None => {
                    assert(scan_from(s, i)[k] == rest[k]);
                },
            }
        }
    }
}


/// Law: a finding's simplified expression is the compared expression itself
/// when the comparison asks that it hold (`== true`, `!= false`) and its
/// negation when it asks that it fail (`== false`, `!= true`), whichever
/// side the literal stands on: `false == e` simplifies to `!e` exactly as
/// `e == false` does. The negation of an expression that starts with `!`
/// drops that `!`.
pub proof fn law_simplified_keeps_or_negates(s: Seq<char>, i: int)
    requires
        is_bool_op(s, i),
        finding_at(s, i) is Some,
    ensures
        ({
            let f = finding_at(s, i)->0;
            let rs = skip_ws_fwd(s, i + 2);
            let literal_right = literal_at(s, rs, "true"@) || literal_at(s, rs, "false"@);
            let e = trim(
                if literal_right {
                    lhs_token(s, i)
                } else {
                    rhs_token(s, i)
                },
            );
            let literal_true = if literal_right {
                literal_at(s, rs, "true"@)
            } else {
                lhs_token(s, i) == "true"@
            };
            let asks_true = literal_true == (s[i] == '=');
            f.2 == if asks_true {
                e
            } else if e.len() > 0 && e[0] == '!' {
                trim(e.drop_first())
            } else {
                seq!['!'] + e
            }
        }),
{
    reveal_strlit("true");
    reveal_strlit("false");
    reveal_strlit("==");
    reveal_strlit("!=");
    assert("true"@.len() == 4 && "false"@.len() == 5);
    assert("true"@ != "false"@);
    assert("=="@[0] == '=' && "!="@[0] == '!');
    assert("=="@ != "!="@);
    assert("true"@[0] == 't' && "false"@[0] == 'f');
    let rs = skip_ws_fwd(s, i + 2);
    if literal_at(s, rs, "true"@) && literal_at(s, rs, "false"@) {
        assert(s.subrange(rs, rs + 4)[0] == s[rs]);
        assert(s.subrange(rs, rs + 5)[0] == s[rs]);
    }
}

} // verus!
