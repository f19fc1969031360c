//! Line-based Solidity parser: contracts and their functions.

use vstd::prelude::*;
use crate::ast::{
    AstView, ContractNode, ContractView, FunctionNode, Language, UnifiedAST, scanned_fn,
    scanned_function,
};
use crate::parsers::{ParserError, Pattern, group_of, regex_compiles};
use crate::text::{chars_of, contains_str, has_sub, line_views, lines, lines_exec, owned, string_of, trim, trim_exec};

verus! {

/// A contract declaration: `contract Name {`.
pub const SOL_CONTRACT_PATTERN: &'static str = "contract\\s+(\\w+)\\s*\\{";

/// A function declaration: `function name(`.
pub const SOL_FUNCTION_PATTERN: &'static str = "function\\s+(\\w+)\\s*\\(";

/// Parses Solidity sources line by line.
pub struct SolidityParser;

/// The views of a list of contracts.
pub open spec fn contract_views(cs: Seq<ContractNode>) -> Seq<ContractView> {
    cs.map_values(|c: ContractNode| c@)
}

/// The contracts after reading one more line (`lineno` is 1-based): a
/// contract declaration starts a new contract; a function declaration adds
/// a function to the last contract, if there is one. A match in which the
/// name group took no part counts as no match.
pub open spec fn sol_step(cs: Seq<ContractView>, line: Seq<char>, lineno: int) -> Seq<ContractView> {
    let t = trim(line);
    let cs1 = match group_of(SOL_CONTRACT_PATTERN@, t, 1) {
        Some(name) => cs.push(
            ContractView { name, functions: seq![], state_variables: seq![], line_number: lineno },
        ),
        None => cs,
    };
    match group_of(SOL_FUNCTION_PATTERN@, t, 1) {
        Some(fname) => if cs1.len() > 0 {
            let last = cs1.last();
            cs1.update(
                cs1.len() - 1,
                ContractView {
                    name: last.name,
                    functions: last.functions.push(
                        scanned_fn(
                            fname,
                            seq![],
                            has_sub(t, "external"@),
                            has_sub(t, "payable"@),
                            lineno,
                        ),
                    ),
                    state_variables: last.state_variables,
                    line_number: last.line_number,
                },
            )
        } else {
            cs1
        },
        None => cs1,
    }
}

/// The contracts of the first `n` lines.
pub open spec fn sol_contracts(ls: Seq<Seq<char>>, n: int) -> Seq<ContractView>
    decreases n,
{
    if n <= 0 {
        seq![]
    } else {
        sol_step(sol_contracts(ls, n - 1), ls[n - 1], n)
    }
}

/// The syntax tree of a Solidity source whose patterns compiled.
pub open spec fn solidity_ast(source: Seq<char>, file_path: Seq<char>) -> AstView {
    AstView {
        language: Language::Solidity,
        source,
        file_path,
        contracts: sol_contracts(lines(source), lines(source).len() as int),
        structs: seq![],
        enums: seq![],
    }
}

impl SolidityParser {
    /// Parses `source` (read from `file_path`); fails only when one of its
    /// patterns does not compile.
    pub fn parse(source: &str, file_path: &str) -> (r: Result<UnifiedAST, ParserError>)
        ensures
            match r {
                Ok(ast) => ast@ == solidity_ast(source@, file_path@),
                Err(e) => e is RegexError && !(regex_compiles(SOL_CONTRACT_PATTERN@)
                    && regex_compiles(SOL_FUNCTION_PATTERN@)),
            },
            regex_compiles(SOL_CONTRACT_PATTERN@) && regex_compiles(SOL_FUNCTION_PATTERN@)
                ==> r is Ok,
    {
        let contract_re = match Pattern::compile(SOL_CONTRACT_PATTERN) {
            Ok(p) => p,
            Err(e) => {
                return Err(ParserError::RegexError(e));
            },
        };
        let function_re = match Pattern::compile(SOL_FUNCTION_PATTERN) {
            Ok(p) => p,
            Err(e) => {
                return Err(ParserError::RegexError(e));
            },
        };
        let cs = chars_of(source);
        let ls = lines_exec(&cs);
        let ghost lv = lines(source@);
        let mut contracts: Vec<ContractNode> = Vec::new();
        let mut i: usize = 0;
        while i < ls.len()
            invariant
                line_views(ls@) == lv,
                lv == lines(source@),
                contract_re.source_view() == SOL_CONTRACT_PATTERN@,
                function_re.source_view() == SOL_FUNCTION_PATTERN@,
                i <= ls@.len(),
                contract_views(contracts@) == sol_contracts(lv, i as int),
            decreases ls.len() - i,
        {
            let t = trim_exec(&ls[i]);
            let ts = string_of(&t);
            assert(ls@[i as int]@ == lv[i as int]);
            let line_number = i + 1;
            let ghost before = contract_views(contracts@);
            if let Some(name) = contract_re.group(ts.as_str(), 1) {
                let node = ContractNode {
                    name,
                    functions: Vec::new(),
                    state_variables: Vec::new(),
                    line_number,
                };
                proof {
                    assert(node@.functions =~= Seq::<crate::ast::FunctionView>::empty());
                    assert(node@.state_variables =~= Seq::<crate::ast::VariableView>::empty());
                }
                contracts.push(node);
                proof {
                    assert(contract_views(contracts@) =~= before.push(node@));
                }
            }
            let ghost mid = contract_views(contracts@);
            proof {
                let t0 = trim(lv[i as int]);
                let expect = match group_of(SOL_CONTRACT_PATTERN@, t0, 1) {
                    Some(name) => before.push(
                        ContractView {
                            name,
                            functions: seq![],
                            state_variables: seq![],
                            line_number: line_number as int,
                        },
                    ),
                    None => before,
                };
                assert(mid =~= expect);
            }
            if let Some(fname) = function_re.group(ts.as_str(), 1) {
                if contracts.len() > 0 {
                    let is_external = contains_str(&t, "external");
                    let is_payable = contains_str(&t, "payable");
                    let decorators: Vec<String> = Vec::new();
                    proof {
                        assert(decorators@.map_values(|d: String| d@) =~= Seq::<Seq<char>>::empty());
                    }
                    let f = scanned_function(fname, decorators, is_external, is_payable, line_number);
                    let mut last = contracts.pop().unwrap();
                    let ghost last_v = last@;
                    last.functions.push(f);
                    contracts.push(last);
                    proof {
                        assert(last@.functions =~= last_v.functions.push(f@));
                        assert(contract_views(contracts@) =~= mid.update(mid.len() - 1, last@));
                    }
                }
            }
            i += 1;
            proof {
                assert(contract_views(contracts@) =~= sol_contracts(lv, i as int));
            }
        }
        let ast = UnifiedAST {
            language: Language::Solidity,
            source: owned(source),
            file_path: owned(file_path),
            contracts,
            structs: Vec::new(),
            enums: Vec::new(),
        };
        proof {
            assert(ast@.structs =~= Seq::<crate::ast::StructView>::empty());
            assert(ast@.enums =~= Seq::<crate::ast::EnumView>::empty());
            assert(ast@ =~= solidity_ast(source@, file_path@));
        }
        Ok(ast)
    }
}


/// Every function of `cs` was declared on one of the first `n` lines of `ls`
/// and is payable (external) exactly when that line, trimmed, mentions
/// `payable` (`external`).
pub open spec fn flags_from_lines(ls: Seq<Seq<char>>, cs: Seq<ContractView>, n: int) -> bool {
    forall|c: int, k: int|
        0 <= c < cs.len() && 0 <= k < cs[c].functions.len() ==> {
            let f = #[trigger] cs[c].functions[k];
            &&& 1 <= f.line_number <= n
            &&& f.is_payable == has_sub(trim(ls[f.line_number - 1]), "payable"@)
            &&& f.is_external == has_sub(trim(ls[f.line_number - 1]), "external"@)
        }
}

proof fn lemma_flags_from_lines(ls: Seq<Seq<char>>, n: int)
    requires
        0 <= n <= ls.len(),
    ensures
        flags_from_lines(ls, sol_contracts(ls, n), n),
    decreases n,
{
    if n > 0 {
        lemma_flags_from_lines(ls, n - 1);
        let prev = sol_contracts(ls, n - 1);
        let t = trim(ls[n - 1]);
        let cs1 = match group_of(SOL_CONTRACT_PATTERN@, t, 1) {
            Some(name) => prev.push(
                ContractView { name, functions: seq![], state_variables: seq![], line_number: n },
            ),
            None => prev,
        };
        assert(flags_from_lines(ls, cs1, n)) by {
            assert forall|c: int, k: int|
                0 <= c < cs1.len() && 0 <= k < cs1[c].functions.len() implies {
                let f = #[trigger] cs1[c].functions[k];
                &&& 1 <= f.line_number <= n
                &&& f.is_payable == has_sub(trim(ls[f.line_number - 1]), "payable"@)
                &&& f.is_external == has_sub(trim(ls[f.line_number - 1]), "external"@)
            } by {
                assert(c < prev.len());
                assert(cs1[c] == prev[c]);
                let f = prev[c].functions[k];
            }
        }
        let res = sol_contracts(ls, n);
        assert(res == sol_step(prev, ls[n - 1], n));
        match group_of(SOL_FUNCTION_PATTERN@, t, 1) {
            Some(fname) => {
                if cs1.len() > 0 {
                    let last = cs1.last();
                    let nf = scanned_fn(fname, seq![], has_sub(t, "external"@), has_sub(t, "payable"@), n);
                    assert(res == cs1.update(
                        cs1.len() - 1,
                        ContractView {
                            name: last.name,
                            functions: last.functions.push(nf),
                            state_variables: last.state_variables,
                            line_number: last.line_number,
                        },
                    ));
                    assert forall|c: int, k: int|
                        0 <= c < res.len() && 0 <= k < res[c].functions.len() implies {
                        let f = #[trigger] res[c].functions[k];
                        &&& 1 <= f.line_number <= n
                        &&& f.is_payable == has_sub(trim(ls[f.line_number - 1]), "payable"@)
                        &&& f.is_external == has_sub(trim(ls[f.line_number - 1]), "external"@)
                    } by {
                        if c < cs1.len() - 1 {
                            assert(res[c] == cs1[c]);
                            let f = cs1[c].functions[k];
                        } else if k < last.functions.len() {
                            assert(res[c].functions[k] == last.functions[k]);
                            let f = cs1[c].functions[k];
                        } else {
                            assert(res[c].functions[k] == nf);
                        }
                    }
                }
            },
            None => {},
        }
    }
}

/// Law: each function the Solidity parser records points, by its line
/// number, at its declaration line, and is payable exactly when that line
/// (trimmed) mentions `payable` and external exactly when it mentions
/// `external`; neither flag depends on the other.
pub proof fn law_function_flags_follow_declaration(
    source: Seq<char>,
    file_path: Seq<char>,
    c: int,
    k: int,
)
    requires
        0 <= c < solidity_ast(source, file_path).contracts.len(),
        0 <= k < solidity_ast(source, file_path).contracts[c].functions.len(),
    ensures
        ({
            let ls = lines(source);
            let f = solidity_ast(source, file_path).contracts[c].functions[k];
            &&& 1 <= f.line_number <= ls.len()
            &&& f.is_payable == has_sub(trim(ls[f.line_number - 1]), "payable"@)
            &&& f.is_external == has_sub(trim(ls[f.line_number - 1]), "external"@)
        }),
{
    let ls = lines(source);
    lemma_flags_from_lines(ls, ls.len() as int);
    let f = sol_contracts(ls, ls.len() as int)[c].functions[k];
}

} // verus!
