//! Line-based Soroban (Rust) parser: the contract name, `#[contracttype]`
//! structs and the public functions of `#[contractimpl]` blocks.

use vstd::prelude::*;
use crate::ast::{
    AstView, ContractNode, ContractView, FunctionNode, FunctionView, Language, StructNode,
    StructView, UnifiedAST, scanned_fn, scanned_function,
};
use crate::parsers::{ParserError, Pattern, group_of, parse_error_view, regex_compiles};
use crate::text::{
    chars_of, contains_str, has_sub, line_views, lines, lines_exec, owned, starts_with,
    starts_with_exec, string_of, trim, trim_exec,
};

verus! {

/// The contract attribute: `#[contract(Name)]`, spaces allowed.
pub const RUST_CONTRACT_PATTERN: &'static str = "#\\s*\\[\\s*contract\\s*\\(\\s*(.*?)\\s*\\)\\s*\\]";

/// A struct declaration: `struct Name`.
pub const RUST_STRUCT_PATTERN: &'static str = "struct\\s+(\\w+)";

/// A function declaration: `fn name`.
pub const RUST_FN_PATTERN: &'static str = "fn\\s+(\\w+)";

pub const STRUCT_NAME_ERROR: &'static str = "Could not parse struct name";

/// Parses Soroban contract sources line by line.
pub struct RustParser;

/// The contract name: the trimmed argument of the contract attribute, or
/// `UnknownContract` when there is none.
pub open spec fn contract_name_spec(source: Seq<char>) -> Result<Seq<char>, Option<Seq<char>>> {
    if !regex_compiles(RUST_CONTRACT_PATTERN@) {
        Err(None)
    } else {
        match group_of(RUST_CONTRACT_PATTERN@, source, 1) {
            Some(g) => Ok(trim(g)),
            None => Ok("UnknownContract"@),
        }
    }
}

/// The first line at or after `k` that mentions `struct` once trimmed.
pub open spec fn next_struct_line(ls: Seq<Seq<char>>, k: int) -> int
    decreases ls.len() - k,
{
    if 0 <= k < ls.len() && !has_sub(trim(ls[k]), "struct"@) {
        next_struct_line(ls, k + 1)
    } else {
        k
    }
}

/// The first line at or after `k` that starts with `impl` once trimmed.
pub open spec fn next_impl_line(ls: Seq<Seq<char>>, k: int) -> int
    decreases ls.len() - k,
{
    if 0 <= k < ls.len() && !starts_with(trim(ls[k]), "impl"@) {
        next_impl_line(ls, k + 1)
    } else {
        k
    }
}

pub proof fn lemma_next_struct_line(ls: Seq<Seq<char>>, k: int)
    ensures
        next_struct_line(ls, k) >= k,
        0 <= k ==> next_struct_line(ls, k) >= 0,
    decreases ls.len() - k,
{
    if 0 <= k < ls.len() && !has_sub(trim(ls[k]), "struct"@) {
        lemma_next_struct_line(ls, k + 1);
    }
}

pub proof fn lemma_next_impl_line(ls: Seq<Seq<char>>, k: int)
    ensures
        next_impl_line(ls, k) >= k,
    decreases ls.len() - k,
{
    if 0 <= k < ls.len() && !starts_with(trim(ls[k]), "impl"@) {
        lemma_next_impl_line(ls, k + 1);
    }
}

/// The struct declared on `line`, recorded with `start_line` (the line of
/// its `#[contracttype]` attribute).
pub open spec fn parse_struct_spec(line: Seq<char>, start_line: int) -> Result<
    StructView,
    Option<Seq<char>>,
> {
    if !regex_compiles(RUST_STRUCT_PATTERN@) {
        Err(None)
    } else {
        match group_of(RUST_STRUCT_PATTERN@, trim(line), 1) {
            Some(name) => Ok(StructView { name, fields: seq![], line_number: start_line }),
            None => Err(Some(STRUCT_NAME_ERROR@)),
        }
    }
}

/// `Ok(a + x)` for `Ok(x)`; errors pass through.
pub open spec fn prepend<T>(a: Seq<T>, r: Result<Seq<T>, Option<Seq<char>>>) -> Result<
    Seq<T>,
    Option<Seq<char>>,
> {
    match r {
        Ok(x) => Ok(a + x),
        Err(e) => Err(e),
    }
}

/// The structs from line `i` on: each `#[contracttype]` line is followed by
/// the first line mentioning `struct`, which must declare a named struct.
pub open spec fn structs_from(ls: Seq<Seq<char>>, i: int) -> Result<Seq<StructView>, Option<Seq<char>>>
    decreases ls.len() - i,
{
    if i < 0 || i >= ls.len() {
        Ok(seq![])
    } else if starts_with(trim(ls[i]), "#[contracttype]"@) {
        let j = next_struct_line(ls, i + 1);
        if j < ls.len() {
            match parse_struct_spec(ls[j], i + 1) {
                Err(e) => Err(e),
                Ok(s) => {
                    proof {
                        lemma_next_struct_line(ls, i + 1);
                    }
                    prepend(seq![s], structs_from(ls, j + 1))
                },
            }
        } else {
            Ok(seq![])
        }
    } else {
        structs_from(ls, i + 1)
    }
}

/// The public functions of an `impl` block, read from its line `k` on with
/// `brace` braces open; reading stops where the braces balance. Each
/// function is recorded at `start_line + k`.
pub open spec fn impl_walk(ls: Seq<Seq<char>>, k: int, brace: int, start_line: int) -> Result<
    Seq<FunctionView>,
    Option<Seq<char>>,
>
    decreases ls.len() - k,
{
    if k < 0 || k >= ls.len() {
        Ok(seq![])
    } else {
        let t = trim(ls[k]);
        let b1 = if has_sub(t, "{"@) {
            brace + 1
        } else {
            brace
        };
        if has_sub(t, "}"@) && b1 - 1 == 0 {
            Ok(seq![])
        } else {
            let b2 = if has_sub(t, "}"@) {
                b1 - 1
            } else {
                b1
            };
            if starts_with(t, "pub "@) && has_sub(t, "fn "@) {
                if !regex_compiles(RUST_FN_PATTERN@) {
                    Err(None)
                } else {
                    let here = match group_of(RUST_FN_PATTERN@, t, 1) {
                        Some(name) => seq![scanned_fn(name, seq![], true, false, start_line + k)],
                        None => seq![],
                    };
                    prepend(here, impl_walk(ls, k + 1, b2, start_line))
                }
            } else {
                impl_walk(ls, k + 1, b2, start_line)
            }
        }
    }
}

/// The public functions of the `impl` block whose first line is `ls[0]`.
pub open spec fn parse_impl_spec(ls: Seq<Seq<char>>, start_line: int) -> Result<
    Seq<FunctionView>,
    Option<Seq<char>>,
> {
    impl_walk(
        ls,
        1,
        if has_sub(ls[0], "{"@) {
            1
        } else {
            0
        },
        start_line,
    )
}

/// The functions from line `i` on: each `#[contractimpl]` line is followed
/// by the first line starting with `impl`, whose block is read.
pub open spec fn fns_from(ls: Seq<Seq<char>>, i: int) -> Result<Seq<FunctionView>, Option<Seq<char>>>
    decreases ls.len() - i,
{
    if i < 0 || i >= ls.len() {
        Ok(seq![])
    } else if starts_with(trim(ls[i]), "#[contractimpl]"@) {
        let j = next_impl_line(ls, i + 1);
        if j < ls.len() {
            match parse_impl_spec(ls.skip(j), i + 1) {
                Err(e) => Err(e),
                Ok(fs) => {
                    proof {
                        lemma_next_impl_line(ls, i + 1);
                    }
                    prepend(fs, fns_from(ls, j + 1))
                },
            }
        } else {
            Ok(seq![])
        }
    } else {
        fns_from(ls, i + 1)
    }
}

/// The syntax tree of a Soroban source, or the first error.
pub open spec fn rust_parse_spec(source: Seq<char>, file_path: Seq<char>) -> Result<
    AstView,
    Option<Seq<char>>,
> {
    let ls = lines(source);
    match contract_name_spec(source) {
        Err(e) => Err(e),
        Ok(name) => match structs_from(ls, 0) {
            Err(e) => Err(e),
            Ok(ss) => match fns_from(ls, 0) {
                Err(e) => Err(e),
                Ok(fs) => Ok(
                    AstView {
                        language: Language::Rust,
                        source,
                        file_path,
                        contracts: seq![
                            ContractView {
                                name,
                                functions: fs,
                                state_variables: seq![],
                                line_number: 1,
                            },
                        ],
                        structs: ss,
                        enums: seq![],
                    },
                ),
            },
        },
    }
}

/// The views of a list of functions.
pub open spec fn fn_views(fs: Seq<FunctionNode>) -> Seq<FunctionView> {
    fs.map_values(|f: FunctionNode| f@)
}

/// The views of a list of structs.
pub open spec fn struct_views(ss: Seq<StructNode>) -> Seq<StructView> {
    ss.map_values(|s: StructNode| s@)
}

impl RustParser {
    /// The contract name declared by the contract attribute.
    fn extract_contract_name(source: &str) -> (r: Result<String, ParserError>)
        ensures
            match r {
                Ok(n) => contract_name_spec(source@) == Ok::<Seq<char>, Option<Seq<char>>>(n@),
                Err(e) => contract_name_spec(source@) == Err::<Seq<char>, Option<Seq<char>>>(
                    parse_error_view(e),
                ),
            },
    {
        let contract_re = match Pattern::compile(RUST_CONTRACT_PATTERN) {
            Ok(p) => p,
            Err(e) => {
                return Err(ParserError::RegexError(e));
            },
        };
        match contract_re.group(source, 1) {
            Some(name) => {
                let cs = chars_of(name.as_str());
                let t = trim_exec(&cs);
                Ok(string_of(&t))
            },
            None => Ok(owned("UnknownContract")),
        }
    }

    /// The struct declared on line `at`, recorded with `start_line`.
    fn parse_struct(ls: &Vec<Vec<char>>, at: usize, start_line: usize) -> (r: Result<
        Option<StructNode>,
        ParserError,
    >)
        requires
            at < ls@.len(),
        ensures
            match r {
                Ok(Some(s)) => parse_struct_spec(ls@[at as int]@, start_line as int) == Ok::<
                    StructView,
                    Option<Seq<char>>,
                >(s@),
                Ok(None) => false,
                Err(e) => parse_struct_spec(ls@[at as int]@, start_line as int) == Err::<
                    StructView,
                    Option<Seq<char>>,
                >(parse_error_view(e)),
            },
    {
        let t = trim_exec(&ls[at]);
        let ts = string_of(&t);
        let name_re = match Pattern::compile(RUST_STRUCT_PATTERN) {
            Ok(p) => p,
            Err(e) => {
                return Err(ParserError::RegexError(e));
            },
        };
        match name_re.group(ts.as_str(), 1) {
            Some(name) => {
                let s = StructNode { name, fields: Vec::new(), line_number: start_line };
                proof {
                    assert(s@.fields =~= Seq::<(Seq<char>, Seq<char>)>::empty());
                }
                Ok(Some(s))
            },
            None => Err(ParserError::ParseError(owned(STRUCT_NAME_ERROR))),
        }
    }

    /// The public functions of the `impl` block starting at line `at`, and
    /// how many lines of it were read.
    fn parse_impl(ls: &Vec<Vec<char>>, at: usize, start_line: usize) -> (r: Result<
        (Vec<FunctionNode>, usize),
        ParserError,
    >)
        requires
            at < ls@.len(),
            start_line <= at,
        ensures
            match r {
                Ok((fs, _)) => parse_impl_spec(line_views(ls@).skip(at as int), start_line as int)
                    == Ok::<Seq<FunctionView>, Option<Seq<char>>>(fn_views(fs@)),
                Err(e) => parse_impl_spec(line_views(ls@).skip(at as int), start_line as int)
                    == Err::<Seq<FunctionView>, Option<Seq<char>>>(parse_error_view(e)),
            },
    {
        let ghost lv = line_views(ls@).skip(at as int);
        let mut functions: Vec<FunctionNode> = Vec::new();
        let mut brace_count: i128 = 0;
        assert(ls@[at as int]@ == lv[0]);
        if contains_str(&ls[at], "{") {
            brace_count = 1;
        }
        let ghost total = parse_impl_spec(lv, start_line as int);
        let mut i: usize = 1;
        proof {
            assert(fn_views(functions@) =~= Seq::<FunctionView>::empty());
            assert(prepend(Seq::<FunctionView>::empty(), impl_walk(lv, 1, brace_count as int, start_line as int)) =~= impl_walk(lv, 1, brace_count as int, start_line as int)) by {
                match impl_walk(lv, 1, brace_count as int, start_line as int) {
                    Ok(x) => { assert(Seq::<FunctionView>::empty() + x =~= x); },
                    Err(_) => {},
                }
            }
        }
        while i < ls.len() - at
            invariant
                at < ls@.len(),
                start_line <= at,
                lv == line_views(ls@).skip(at as int),
                1 <= i <= ls@.len() - at,
                -(i as int) <= brace_count <= i as int,
                total == parse_impl_spec(lv, start_line as int),
                total == prepend(fn_views(functions@), impl_walk(lv, i as int, brace_count as int, start_line as int)),
            decreases ls.len() - at - i,
        {
            let t = trim_exec(&ls[at + i]);
            assert(ls@[at + i]@ == lv[i as int]);
            let ghost fv = fn_views(functions@);
            let ghost b0 = brace_count as int;
            if contains_str(&t, "{") {
                brace_count += 1;
            }
            if contains_str(&t, "}") {
                brace_count -= 1;
                if brace_count == 0 {
                    proof {
                        assert(impl_walk(lv, i as int, b0, start_line as int) == Ok::<Seq<FunctionView>, Option<Seq<char>>>(Seq::<FunctionView>::empty()));
                        assert(fv + Seq::<FunctionView>::empty() =~= fv);
                    }
                    return Ok((functions, i));
                }
            }
            let pub_prefix = chars_of("pub ");
            if starts_with_exec(&t, &pub_prefix) && contains_str(&t, "fn ") {
                let name_re = match Pattern::compile(RUST_FN_PATTERN) {
                    Ok(p) => p,
                    Err(e) => {
                        return Err(ParserError::RegexError(e));
                    },
                };
                let ts = string_of(&t);
                if let Some(name) = name_re.group(ts.as_str(), 1) {
                    let decorators: Vec<String> = Vec::new();
                    proof {
                        assert(decorators@.map_values(|d: String| d@) =~= Seq::<Seq<char>>::empty());
                    }
                    let f = scanned_function(name, decorators, true, false, start_line + i);
                    functions.push(f);
                    proof {
                        assert(fn_views(functions@) =~= fv.push(f@));
                        let rest = impl_walk(lv, i + 1, brace_count as int, start_line as int);
                        match rest {
                            Ok(x) => {
                                assert(fv + (seq![f@] + x) =~= fv.push(f@) + x);
                            },
                            Err(_) => {},
                        }
                    }
                } else {
                    proof {
                        let rest = impl_walk(lv, i + 1, brace_count as int, start_line as int);
                        match rest {
                            Ok(x) => {
                                assert(Seq::<FunctionView>::empty() + x =~= x);
                            },
                            Err(_) => {},
                        }
                    }
                }
            }
            i += 1;
        }
        proof {
            assert(impl_walk(lv, i as int, brace_count as int, start_line as int) == Ok::<Seq<FunctionView>, Option<Seq<char>>>(Seq::<FunctionView>::empty()));
            assert(fn_views(functions@) + Seq::<FunctionView>::empty() =~= fn_views(functions@));
        }
        Ok((functions, i))
    }

    /// Parses `source` (read from `file_path`): one contract, named by the
    /// contract attribute, holding the public functions of its
    /// `#[contractimpl]` blocks, and the `#[contracttype]` structs.
    pub fn parse(source: &str, file_path: &str) -> (r: Result<UnifiedAST, ParserError>)
        ensures
            match r {
                Ok(ast) => rust_parse_spec(source@, file_path@) == Ok::<AstView, Option<Seq<char>>>(
                    ast@,
                ),
                Err(e) => rust_parse_spec(source@, file_path@) == Err::<AstView, Option<Seq<char>>>(
                    parse_error_view(e),
                ),
            },
    {
        let cs = chars_of(source);
        let ls = lines_exec(&cs);
        let ghost lv = lines(source@);
        let n = ls.len();
        let contract_name = match Self::extract_contract_name(source) {
            Ok(name) => name,
            Err(e) => {
                return Err(e);
            },
        };
        let mut structs: Vec<StructNode> = Vec::new();
        let ghost st_total = structs_from(lv, 0);
        let mut i: usize = 0;
        proof {
            assert(struct_views(structs@) =~= Seq::<StructView>::empty());
            match structs_from(lv, 0) {
                Ok(x) => {
                    assert(Seq::<StructView>::empty() + x =~= x);
                },
                Err(_) => {},
            }
        }
        while i < n
            invariant
                n == ls@.len(),
                line_views(ls@) == lv,
                lv == lines(source@),
                i <= n,
                st_total == structs_from(lv, 0),
                st_total == prepend(struct_views(structs@), structs_from(lv, i as int)),
                contract_name_spec(source@) == Ok::<Seq<char>, Option<Seq<char>>>(contract_name@),
            decreases n - i,
        {
            let t = trim_exec(&ls[i]);
            assert(ls@[i as int]@ == lv[i as int]);
            let marker = chars_of("#[contracttype]");
            if starts_with_exec(&t, &marker) {
                let start_line = i + 1;
                let ghost i0 = i as int;
                i += 1;
                while i < n && !contains_str(&trim_exec(&ls[i]), "struct")
                    invariant
                        n == ls@.len(),
                        line_views(ls@) == lv,
                        i0 < i <= n,
                        next_struct_line(lv, i0 + 1) == next_struct_line(lv, i as int),
                    decreases n - i,
                {
                    assert(ls@[i as int]@ == lv[i as int]);
                    i += 1;
                }
                proof {
                    if i < n {
                        assert(ls@[i as int]@ == lv[i as int]);
                    }
                    assert(next_struct_line(lv, i as int) == i as int);
                }
                if i < n {
                    let ghost sv = struct_views(structs@);
                    match Self::parse_struct(&ls, i, start_line) {
                        Err(e) => {
                            proof {
                                assert(structs_from(lv, i0) == Err::<Seq<StructView>, Option<Seq<char>>>(parse_error_view(e)));
                            }
                            return Err(e);
                        },
                        Ok(Some(s)) => {
                            structs.push(s);
                            proof {
                                assert(struct_views(structs@) =~= sv.push(s@));
                                match structs_from(lv, i + 1) {
                                    Ok(x) => {
                                        assert(sv + (seq![s@] + x) =~= sv.push(s@) + x);
                                    },
                                    Err(_) => {},
                                }
                            }
                        },
                        Ok(None) => {},
                    }
                    i += 1;
                }
            } else {
                i += 1;
            }
        }
        let ghost ss = struct_views(structs@);
        proof {
            assert(ss + Seq::<StructView>::empty() =~= ss);
            assert(structs_from(lv, 0) == Ok::<Seq<StructView>, Option<Seq<char>>>(ss));
        }
        let mut functions: Vec<FunctionNode> = Vec::new();
        let ghost fn_total = fns_from(lv, 0);
        i = 0;
        proof {
            assert(fn_views(functions@) =~= Seq::<FunctionView>::empty());
            match fns_from(lv, 0) {
                Ok(x) => {
                    assert(Seq::<FunctionView>::empty() + x =~= x);
                },
                Err(_) => {},
            }
        }
        while i < n
            invariant
                n == ls@.len(),
                line_views(ls@) == lv,
                lv == lines(source@),
                i <= n,
                fn_total == fns_from(lv, 0),
                fn_total == prepend(fn_views(functions@), fns_from(lv, i as int)),
                contract_name_spec(source@) == Ok::<Seq<char>, Option<Seq<char>>>(contract_name@),
                structs_from(lv, 0) == Ok::<Seq<StructView>, Option<Seq<char>>>(ss),
            decreases n - i,
        {
            let t = trim_exec(&ls[i]);
            assert(ls@[i as int]@ == lv[i as int]);
            let marker = chars_of("#[contractimpl]");
            if starts_with_exec(&t, &marker) {
                let start_line = i + 1;
                let ghost i0 = i as int;
                i += 1;
                let impl_prefix = chars_of("impl");
                while i < n && !starts_with_exec(&trim_exec(&ls[i]), &impl_prefix)
                    invariant
                        n == ls@.len(),
                        line_views(ls@) == lv,
                        impl_prefix@ == "impl"@,
                        i0 < i <= n,
                        next_impl_line(lv, i0 + 1) == next_impl_line(lv, i as int),
                    decreases n - i,
                {
                    assert(ls@[i as int]@ == lv[i as int]);
                    i += 1;
                }
                proof {
                    if i < n {
                        assert(ls@[i as int]@ == lv[i as int]);
                    }
                    assert(next_impl_line(lv, i as int) == i as int);
                }
                if i < n {
                    let ghost fv = fn_views(functions@);
                    match Self::parse_impl(&ls, i, start_line) {
                        Err(e) => {
                            proof {
                                assert(fns_from(lv, i0) == Err::<Seq<FunctionView>, Option<Seq<char>>>(parse_error_view(e)));
                            }
                            return Err(e);
                        },
                        Ok((mut funcs, _)) => {
                            let ghost gv = fn_views(funcs@);
                            functions.append(&mut funcs);
                            proof {
                                assert(fn_views(functions@) =~= fv + gv);
                                match fns_from(lv, i + 1) {
                                    Ok(x) => {
                                        assert(fv + (gv + x) =~= (fv + gv) + x);
                                    },
                                    Err(_) => {},
                                }
                            }
                        },
                    }
                    i += 1;
                }
            } else {
                i += 1;
            }
        }
        let ghost fs = fn_views(functions@);
        proof {
            assert(fs + Seq::<FunctionView>::empty() =~= fs);
        }
        let contract = ContractNode {
            name: contract_name,
            functions,
            state_variables: Vec::new(),
            line_number: 1,
        };
        let mut contracts: Vec<ContractNode> = Vec::new();
        contracts.push(contract);
        let ast = UnifiedAST {
            language: Language::Rust,
            source: owned(source),
            file_path: owned(file_path),
            contracts,
            structs,
            enums: Vec::new(),
        };
        proof {
            assert(contract@.state_variables =~= Seq::<crate::ast::VariableView>::empty());
            assert(contract@.functions =~= fs);
            assert(ast@.enums =~= Seq::<crate::ast::EnumView>::empty());
            assert(ast@.structs =~= ss);
            match rust_parse_spec(source@, file_path@) {
                Ok(v) => {
                    assert(ast@.contracts =~= v.contracts);
                    assert(ast@ =~= v);
                },
                Err(_) => {},
            }
        }
        Ok(ast)
    }
}

} // verus!
