//! Line-based Vyper parser: decorated functions of one contract per file.

use vstd::prelude::*;
use crate::ast::{
    AstView, ContractNode, ContractView, FunctionView, Language, UnifiedAST, scanned_fn,
    scanned_function,
};
use crate::parsers::{ParserError, Pattern, group_of, regex_compiles};
use crate::text::{
    chars_of, line_views, lines, lines_exec, owned, same_text, slice_chars, string_of,
    string_views, trim, trim_exec,
};

verus! {

/// A function definition: `def name(`.
pub const VYPER_DEF_PATTERN: &'static str = "def\\s+(\\w+)\\s*\\(";

/// Parses Vyper sources line by line.
pub struct VyperParser;

/// The functions found so far and the decorators waiting for the next one,
/// after reading one more line (`lineno` is 1-based). A `@decorator` line
/// is remembered; a `def` line becomes a function carrying the remembered
/// decorators, which are then forgotten.
pub open spec fn vy_step(
    st: (Seq<FunctionView>, Seq<Seq<char>>),
    line: Seq<char>,
    lineno: int,
) -> (Seq<FunctionView>, Seq<Seq<char>>) {
    let t = trim(line);
    if t.len() > 0 && t[0] == '@' {
        (st.0, st.1.push(t.drop_first()))
    } else {
        match group_of(VYPER_DEF_PATTERN@, t, 1) {
            Some(name) => (
                st.0.push(
                    scanned_fn(
                        name,
                        st.1,
                        st.1.contains("external"@),
                        st.1.contains("payable"@),
                        lineno,
                    ),
                ),
                seq![],
            ),
            None => st,
        }
    }
}

/// The state after the first `n` lines.
pub open spec fn vy_state(ls: Seq<Seq<char>>, n: int) -> (Seq<FunctionView>, Seq<Seq<char>>)
    decreases n,
{
    if n <= 0 {
        (seq![], seq![])
    } else {
        vy_step(vy_state(ls, n - 1), ls[n - 1], n)
    }
}

/// The last component of a path: what follows the last `/` or `\`.
pub open spec fn base_name(s: Seq<char>) -> Seq<char>
    decreases s.len(),
{
    if s.len() == 0 {
        s
    } else if s.last() == '/' || s.last() == '\\' {
        seq![]
    } else {
        base_name(s.drop_last()).push(s.last())
    }
}

/// What precedes the first `.`.
pub open spec fn before_dot(s: Seq<char>) -> Seq<char>
    decreases s.len(),
{
    if s.len() == 0 {
        s
    } else if s[0] == '.' {
        seq![]
    } else {
        seq![s[0]] + before_dot(s.drop_first())
    }
}

/// The syntax tree of a Vyper source whose pattern compiled: one contract,
/// named after the file, holding every function.
pub open spec fn vyper_ast(source: Seq<char>, file_path: Seq<char>) -> AstView {
    AstView {
        language: Language::Vyper,
        source,
        file_path,
        contracts: seq![
            ContractView {
                name: before_dot(base_name(file_path)),
                functions: vy_state(lines(source), lines(source).len() as int).0,
                state_variables: seq![],
                line_number: 1,
            },
        ],
        structs: seq![],
        enums: seq![],
    }
}

/// The views of a list of functions.
pub open spec fn function_views(fs: Seq<crate::ast::FunctionNode>) -> Seq<FunctionView> {
    fs.map_values(|f: crate::ast::FunctionNode| f@)
}

fn contract_name_of(file_path: &str) -> (r: String)
    ensures
        r@ == before_dot(base_name(file_path@)),
{
    let p = chars_of(file_path);
    let mut start = p.len();
    proof {
        assert(p@.take(p@.len() as int) =~= p@);
        assert(p@.subrange(p@.len() as int, p@.len() as int) =~= Seq::<char>::empty());
        assert(p@ + Seq::<char>::empty() =~= p@);
    }
    while start > 0 && p[start - 1] != '/' && p[start - 1] != '\\'
        invariant
            start <= p@.len(),
            base_name(p@) == base_name(p@.take(start as int)) + p@.subrange(
                start as int,
                p@.len() as int,
            ),
        decreases start,
    {
        proof {
            let t = p@.take(start as int);
            assert(t.drop_last() =~= p@.take(start - 1));
            assert(t.last() == p@[start - 1]);
            assert(p@.subrange(start - 1, p@.len() as int) =~= seq![p@[start - 1]] + p@.subrange(
                start as int,
                p@.len() as int,
            ));
        }
        start -= 1;
    }
    proof {
        assert(p@.take(p@.len() as int) =~= p@);
        assert(p@.subrange(p@.len() as int, p@.len() as int) =~= Seq::<char>::empty());
        assert(base_name(p@.take(start as int)) =~= Seq::<char>::empty());
    }
    let mut end = start;
    while end < p.len() && p[end] != '.'
        invariant
            start <= end <= p@.len(),
            before_dot(p@.subrange(start as int, p@.len() as int)) == p@.subrange(
                start as int,
                end as int,
            ) + before_dot(p@.subrange(end as int, p@.len() as int)),
        decreases p.len() - end,
    {
        proof {
            let u = p@.subrange(end as int, p@.len() as int);
            assert(u[0] == p@[end as int]);
            assert(u.drop_first() =~= p@.subrange(end + 1, p@.len() as int));
            assert(p@.subrange(start as int, end + 1) =~= p@.subrange(start as int, end as int).push(
                p@[end as int],
            ));
        }
        end += 1;
    }
    proof {
        let u = p@.subrange(end as int, p@.len() as int);
        if end < p@.len() {
            assert(u[0] == p@[end as int]);
        }
        assert(before_dot(u) =~= Seq::<char>::empty());
    }
    let name = slice_chars(&p, start, end);
    string_of(&name)
}

impl VyperParser {
    /// Parses `source` (read from `file_path`); fails only when its pattern
    /// does not compile.
    pub fn parse(source: &str, file_path: &str) -> (r: Result<UnifiedAST, ParserError>)
        ensures
            match r {
                Ok(ast) => ast@ == vyper_ast(source@, file_path@),
                Err(e) => e is RegexError && !regex_compiles(VYPER_DEF_PATTERN@),
            },
            regex_compiles(VYPER_DEF_PATTERN@) ==> r is Ok,
    {
        let function_re = match Pattern::compile(VYPER_DEF_PATTERN) {
            Ok(p) => p,
            Err(e) => {
                return Err(ParserError::RegexError(e));
            },
        };
        let cs = chars_of(source);
        let ls = lines_exec(&cs);
        let ghost lv = lines(source@);
        let mut functions: Vec<crate::ast::FunctionNode> = Vec::new();
        let mut current_decorators: Vec<String> = Vec::new();
        let mut i: usize = 0;
        proof {
            assert(function_views(functions@) =~= Seq::<FunctionView>::empty());
            assert(string_views(current_decorators@) =~= Seq::<Seq<char>>::empty());
        }
        while i < ls.len()
            invariant
                line_views(ls@) == lv,
                lv == lines(source@),
                function_re.source_view() == VYPER_DEF_PATTERN@,
                i <= ls@.len(),
                (function_views(functions@), string_views(current_decorators@)) == vy_state(
                    lv,
                    i as int,
                ),
            decreases ls.len() - i,
        {
            let t = trim_exec(&ls[i]);
            assert(ls@[i as int]@ == lv[i as int]);
            let line_number = i + 1;
            let ghost fv = function_views(functions@);
            let ghost dv = string_views(current_decorators@);
            if t.len() > 0 && t[0] == '@' {
                let rest = slice_chars(&t, 1, t.len());
                current_decorators.push(string_of(&rest));
                proof {
                    assert(rest@ =~= t@.drop_first());
                    assert(string_views(current_decorators@) =~= dv.push(t@.drop_first()));
                }
            } else {
                let ts = string_of(&t);
                if let Some(name) = function_re.group(ts.as_str(), 1) {
                    let mut is_external = false;
                    let mut is_payable = false;
                    let mut k: usize = 0;
                    while k < current_decorators.len()
                        invariant
                            dv == string_views(current_decorators@),
                            k <= current_decorators@.len(),
                            is_external <==> exists|j: int| 0 <= j < k && dv[j] == "external"@,
                            is_payable <==> exists|j: int| 0 <= j < k && dv[j] == "payable"@,
                        decreases current_decorators.len() - k,
                    {
                        assert(dv[k as int] == current_decorators@[k as int]@);
                        if same_text(current_decorators[k].as_str(), "external") {
                            is_external = true;
                        }
                        if same_text(current_decorators[k].as_str(), "payable") {
                            is_payable = true;
                        }
                        k += 1;
                    }
                    let decorators = current_decorators;
                    let f = scanned_function(name, decorators, is_external, is_payable, line_number);
                    proof {
                        assert(decorators@.map_values(|d: String| d@) =~= dv);
                        assert(is_external == dv.contains("external"@));
                        assert(is_payable == dv.contains("payable"@));
                    }
                    functions.push(f);
                    current_decorators = Vec::new();
                    proof {
                        assert(function_views(functions@) =~= fv.push(f@));
                        assert(string_views(current_decorators@) =~= Seq::<Seq<char>>::empty());
                    }
                }
            }
            i += 1;
        }
        let name = contract_name_of(file_path);
        let contract = ContractNode {
            name,
            functions,
            state_variables: Vec::new(),
            line_number: 1,
        };
        let mut contracts: Vec<ContractNode> = Vec::new();
        contracts.push(contract);
        let ast = UnifiedAST {
            language: Language::Vyper,
            source: owned(source),
            file_path: owned(file_path),
            contracts,
            structs: Vec::new(),
            enums: Vec::new(),
        };
        proof {
            assert(contract@.state_variables =~= Seq::<crate::ast::VariableView>::empty());
            assert(contract@.functions =~= vy_state(lv, lv.len() as int).0);
            assert(ast@.contracts =~= vyper_ast(source@, file_path@).contracts);
            assert(ast@.structs =~= Seq::<crate::ast::StructView>::empty());
            assert(ast@.enums =~= Seq::<crate::ast::EnumView>::empty());
            assert(ast@ =~= vyper_ast(source@, file_path@));
        }
        Ok(ast)
    }
}

} // verus!
