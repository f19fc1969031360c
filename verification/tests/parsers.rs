use gasguard::ast::{Language, Visibility};
use gasguard::parsers::rust_parser::RustParser;
use gasguard::parsers::solidity_parser::SolidityParser;
use gasguard::parsers::vyper_parser::VyperParser;
use gasguard::parsers::ParserError;

#[test]
fn solidity_contracts_and_functions() {
    let src = "pragma solidity ^0.8.0;\ncontract Token {\n  function transfer(address to) external payable {\n  }\n}\ncontract B {\nfunction g() public {}\n}";
    let ast = SolidityParser::parse(src, "Token.sol").ok().unwrap();
    assert_eq!(ast.language, Language::Solidity);
    assert_eq!(ast.file_path, "Token.sol");
    assert_eq!(ast.source, src);
    assert_eq!(ast.contracts.len(), 2);
    assert_eq!(ast.contracts[0].name, "Token");
    assert_eq!(ast.contracts[0].line_number, 2);
    let f = &ast.contracts[0].functions[0];
    assert_eq!(f.name, "transfer");
    assert!(f.is_external && f.is_payable);
    assert_eq!(f.line_number, 3);
    assert_eq!(f.visibility, Visibility::Public);
    assert_eq!(ast.contracts[1].name, "B");
    assert_eq!(ast.contracts[1].functions.len(), 1);
    assert!(!ast.contracts[1].functions[0].is_external);
}

#[test]
fn solidity_function_outside_contract_is_dropped() {
    let ast = SolidityParser::parse("function lonely() {}", "x.sol").ok().unwrap();
    assert!(ast.contracts.is_empty());
}

#[test]
fn vyper_functions_carry_their_decorators() {
    let src = "@external\n@payable\ndef deposit(amount: uint256):\n    pass\ndef helper():\n    pass\n";
    let ast = VyperParser::parse(src, "contracts/Vault.vy").ok().unwrap();
    assert_eq!(ast.language, Language::Vyper);
    assert_eq!(ast.contracts.len(), 1);
    assert_eq!(ast.contracts[0].name, "Vault");
    let fs = &ast.contracts[0].functions;
    assert_eq!(fs.len(), 2);
    assert_eq!(fs[0].name, "deposit");
    assert_eq!(fs[0].decorators, vec!["external".to_string(), "payable".to_string()]);
    assert!(fs[0].is_external && fs[0].is_payable);
    assert_eq!(fs[0].line_number, 3);
    assert_eq!(fs[1].name, "helper");
    assert!(fs[1].decorators.is_empty());
    assert!(!fs[1].is_external);
}

#[test]
fn vyper_contract_name_from_windows_path() {
    let ast = VyperParser::parse("", "C:\\work\\token.v2.vy").ok().unwrap();
    assert_eq!(ast.contracts[0].name, "token");
}

#[test]
fn rust_contract_structs_and_public_functions() {
    let src = "#[contract(MyToken)]\npub struct MyToken;\n\n#[contracttype]\npub struct Config {\n    admin: Address,\n}\n\n#[contractimpl]\nimpl MyToken {\n    pub fn init(env: Env) {\n    }\n    fn private_helper() {}\n    pub fn transfer(env: Env) -> u32 {\n        1\n    }\n}\n";
    let ast = RustParser::parse(src, "lib.rs").ok().unwrap();
    assert_eq!(ast.language, Language::Rust);
    assert_eq!(ast.contracts.len(), 1);
    assert_eq!(ast.contracts[0].name, "MyToken");
    assert_eq!(ast.structs.len(), 1);
    assert_eq!(ast.structs[0].name, "Config");
    assert_eq!(ast.structs[0].line_number, 4);
    let fs = &ast.contracts[0].functions;
    let names: Vec<(&str, usize)> = fs.iter().map(|f| (f.name.as_str(), f.line_number)).collect();
    assert_eq!(names, vec![("init", 10), ("transfer", 13)]);
    assert!(fs.iter().all(|f| f.is_external));
}

#[test]
fn rust_without_contract_attribute() {
    let ast = RustParser::parse("fn main() {}", "main.rs").ok().unwrap();
    assert_eq!(ast.contracts[0].name, "UnknownContract");
    assert!(ast.contracts[0].functions.is_empty());
}

#[test]
fn rust_struct_without_name_is_a_parse_error() {
    match RustParser::parse("#[contracttype]\nstruct\n", "bad.rs") {
        Err(ParserError::ParseError(m)) => assert_eq!(m, "Could not parse struct name"),
        other => panic!("expected a parse error, got {:?}", other.map(|a| a.file_path)),
    }
}
