//! The language-neutral syntax tree that the parsers produce and the
//! AST-level rules read.

use vstd::prelude::*;

verus! {

/// Source language of a parsed file.
#[derive(Debug, Clone, Copy, PartialEq, Eq, Structural)]
pub enum Language {
    Solidity,
    Vyper,
    Rust,
}

/// Declared visibility of a function or variable.
#[derive(Debug, Clone, Copy, PartialEq, Eq, Structural)]
pub enum Visibility {
    Public,
    External,
    Internal,
    Private,
}

/// A function parameter.
#[derive(Debug, Clone)]
pub struct ParamNode {
    pub name: String,
    pub type_str: String,
}

/// A function or method.
#[derive(Debug, Clone)]
pub struct FunctionNode {
    pub name: String,
    pub params: Vec<ParamNode>,
    pub return_type: Option<String>,
    pub visibility: Visibility,
    pub decorators: Vec<String>,
    pub is_constructor: bool,
    pub is_external: bool,
    pub is_payable: bool,
    pub line_number: usize,
    pub body_raw: String,
}

/// A state variable.
#[derive(Debug, Clone)]
pub struct VariableNode {
    pub name: String,
    pub type_str: String,
    pub visibility: Visibility,
    pub is_constant: bool,
    pub is_immutable: bool,
    pub line_number: usize,
}

/// A field of a struct.
#[derive(Debug, Clone)]
pub struct FieldNode {
    pub name: String,
    pub type_str: String,
}

/// A struct definition.
#[derive(Debug, Clone)]
pub struct StructNode {
    pub name: String,
    pub fields: Vec<FieldNode>,
    pub line_number: usize,
}

/// An enum definition.
#[derive(Debug, Clone)]
pub struct EnumNode {
    pub name: String,
    pub variants: Vec<String>,
    pub line_number: usize,
}

/// A contract with its functions and state.
#[derive(Debug, Clone)]
pub struct ContractNode {
    pub name: String,
    pub functions: Vec<FunctionNode>,
    pub state_variables: Vec<VariableNode>,
    pub line_number: usize,
}

/// A parsed source file.
#[derive(Debug, Clone)]
pub struct UnifiedAST {
    pub language: Language,
    pub source: String,
    pub file_path: String,
    pub contracts: Vec<ContractNode>,
    pub structs: Vec<StructNode>,
    pub enums: Vec<EnumNode>,
}


/// The content of a function node.
pub struct FunctionView {
    pub name: Seq<char>,
    pub params: Seq<(Seq<char>, Seq<char>)>,
    pub return_type: Option<Seq<char>>,
    pub visibility: Visibility,
    pub decorators: Seq<Seq<char>>,
    pub is_constructor: bool,
    pub is_external: bool,
    pub is_payable: bool,
    pub line_number: int,
    pub body_raw: Seq<char>,
}

impl View for FunctionNode {
    type V = FunctionView;

    open spec fn view(&self) -> FunctionView {
        FunctionView {
            name: self.name@,
            params: self.params@.map_values(|p: ParamNode| (p.name@, p.type_str@)),
            return_type: match self.return_type {
                Some(t) => Some(t@),
                None => None,
            },
            visibility: self.visibility,
            decorators: self.decorators@.map_values(|d: String| d@),
            is_constructor: self.is_constructor,
            is_external: self.is_external,
            is_payable: self.is_payable,
            line_number: self.line_number as int,
            body_raw: self.body_raw@,
        }
    }
}

/// The content of a state variable node.
pub struct VariableView {
    pub name: Seq<char>,
    pub type_str: Seq<char>,
    pub visibility: Visibility,
    pub is_constant: bool,
    pub is_immutable: bool,
    pub line_number: int,
}

impl View for VariableNode {
    type V = VariableView;

    open spec fn view(&self) -> VariableView {
        VariableView {
            name: self.name@,
            type_str: self.type_str@,
            visibility: self.visibility,
            is_constant: self.is_constant,
            is_immutable: self.is_immutable,
            line_number: self.line_number as int,
        }
    }
}

/// The content of a contract node.
pub struct ContractView {
    pub name: Seq<char>,
    pub functions: Seq<FunctionView>,
    pub state_variables: Seq<VariableView>,
    pub line_number: int,
}

impl View for ContractNode {
    type V = ContractView;

    open spec fn view(&self) -> ContractView {
        ContractView {
            name: self.name@,
            functions: self.functions@.map_values(|f: FunctionNode| f@),
            state_variables: self.state_variables@.map_values(|v: VariableNode| v@),
            line_number: self.line_number as int,
        }
    }
}

/// The content of a struct node.
pub struct StructView {
    pub name: Seq<char>,
    pub fields: Seq<(Seq<char>, Seq<char>)>,
    pub line_number: int,
}

impl View for StructNode {
    type V = StructView;

    open spec fn view(&self) -> StructView {
        StructView {
            name: self.name@,
            fields: self.fields@.map_values(|f: FieldNode| (f.name@, f.type_str@)),
            line_number: self.line_number as int,
        }
    }
}

/// The content of an enum node.
pub struct EnumView {
    pub name: Seq<char>,
    pub variants: Seq<Seq<char>>,
    pub line_number: int,
}

impl View for EnumNode {
    type V = EnumView;

    open spec fn view(&self) -> EnumView {
        EnumView {
            name: self.name@,
            variants: self.variants@.map_values(|v: String| v@),
            line_number: self.line_number as int,
        }
    }
}

/// The content of a parsed file.
pub struct AstView {
    pub language: Language,
    pub source: Seq<char>,
    pub file_path: Seq<char>,
    pub contracts: Seq<ContractView>,
    pub structs: Seq<StructView>,
    pub enums: Seq<EnumView>,
}

impl View for UnifiedAST {
    type V = AstView;

    open spec fn view(&self) -> AstView {
        AstView {
            language: self.language,
            source: self.source@,
            file_path: self.file_path@,
            contracts: self.contracts@.map_values(|c: ContractNode| c@),
            structs: self.structs@.map_values(|s: StructNode| s@),
            enums: self.enums@.map_values(|e: EnumNode| e@),
        }
    }
}

/// A public function found by a line-based parser: no parameters, return
/// type or body are recorded.
pub open spec fn scanned_fn(
    name: Seq<char>,
    decorators: Seq<Seq<char>>,
    is_external: bool,
    is_payable: bool,
    line_number: int,
) -> FunctionView {
    FunctionView {
        name,
        params: seq![],
        return_type: None,
        visibility: Visibility::Public,
        decorators,
        is_constructor: false,
        is_external,
        is_payable,
        line_number,
        body_raw: seq![],
    }
}

/// A function node as a line-based parser records it (see `scanned_fn`).
pub fn scanned_function(
    name: String,
    decorators: Vec<String>,
    is_external: bool,
    is_payable: bool,
    line_number: usize,
) -> (r: FunctionNode)
    ensures
        r@ == scanned_fn(
            name@,
            decorators@.map_values(|d: String| d@),
            is_external,
            is_payable,
            line_number as int,
        ),
{
    let r = FunctionNode {
        name,
        params: Vec::new(),
        return_type: None,
        visibility: Visibility::Public,
        decorators,
        is_constructor: false,
        is_external,
        is_payable,
        line_number,
        body_raw: String::new(),
    };
    proof {
        assert(r@.params =~= Seq::<(Seq<char>, Seq<char>)>::empty());
        assert(r@.body_raw =~= Seq::<char>::empty());
    }
    r
}

} // verus!
