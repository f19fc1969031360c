use gasguard::ast::{ContractNode, FunctionNode, Language, UnifiedAST, VariableNode, Visibility};
use gasguard::rules::boolean::{simplify, RedundantBooleanComparisonsRule};
use gasguard::rules::encoding::{
    detect_abi_encoding_inefficiencies, detect_mapping_iteration, AbiEncodingRule,
    MappingIterationRule,
};
use gasguard::rules::Rule;
use gasguard::violation::ViolationSeverity;

fn function(name: &str, line_number: usize, body: &str) -> FunctionNode {
    FunctionNode {
        name: name.to_string(),
        params: vec![],
        return_type: None,
        visibility: Visibility::Public,
        decorators: vec![],
        is_constructor: false,
        is_external: false,
        is_payable: false,
        line_number,
        body_raw: body.to_string(),
    }
}

#[test]
fn test_abi_encoding_rule_info() {
    let rule = AbiEncodingRule;
    assert_eq!(rule.name(), "abi-encoding-inefficiency");
    assert!(rule.description().contains("abi.encode"));
}

#[test]
fn test_mapping_iteration_rule() {
    let rule = MappingIterationRule;
    assert_eq!(rule.name(), "mapping-iteration-workaround");
    assert!(rule.description().contains("iteration"));
}

#[test]
fn test_detect_abi_encoding() {
    let ast = UnifiedAST {
        language: Language::Solidity,
        source: "".to_string(),
        file_path: "".to_string(),
        structs: vec![],
        enums: vec![],
        contracts: vec![ContractNode {
            name: "Test".to_string(),
            line_number: 1,
            state_variables: vec![],
            functions: vec![
                function("testInefficient", 5, "bytes memory data = abi.encode(1, 2);"),
                function("testEfficient", 10, "bytes memory data = abi.encodePacked(1, 2);"),
                function(
                    "testEncodeWithSelector",
                    15,
                    "bytes memory data = abi.encodeWithSelector(bytes4(keccak256(\"foo()\")));",
                ),
            ],
        }],
    };

    let violations = detect_abi_encoding_inefficiencies(&ast);
    assert_eq!(violations.len(), 1);
    assert_eq!(violations[0].line_number, 5);
    assert_eq!(violations[0].variable_name, "abi.encode");
}

#[test]
fn test_detect_mapping_iteration() {
    let ast = UnifiedAST {
        language: Language::Solidity,
        source: "".to_string(),
        file_path: "".to_string(),
        structs: vec![],
        enums: vec![],
        contracts: vec![ContractNode {
            name: "Test".to_string(),
            line_number: 1,
            state_variables: vec![
                VariableNode {
                    name: "balances".to_string(),
                    type_str: "mapping(address => uint256)".to_string(),
                    visibility: Visibility::Public,
                    is_constant: false,
                    is_immutable: false,
                    line_number: 2,
                },
                VariableNode {
                    name: "users".to_string(),
                    type_str: "address[]".to_string(),
                    visibility: Visibility::Public,
                    is_constant: false,
                    is_immutable: false,
                    line_number: 3,
                },
            ],
            functions: vec![function(
                "distribute",
                5,
                "for (uint i = 0; i < users.length; i++) { balances[users[i]] += 100; }",
            )],
        }],
    };

    let violations = detect_mapping_iteration(&ast);
    assert_eq!(violations.len(), 1);
    assert_eq!(violations[0].variable_name, "balances");
    assert!(violations[0].description.contains("users"));
}

#[test]
fn detects_common_boolean_comparisons() {
    let source = r#"
contract C {
  function f(bool x) public {
    if (x == true) { }
    if (x != false) { }
    if (true == x) { }
    if (false != x) { }
    if (x == false) { }
    if (x != true) { }
  }
}
"#;

    let ast = UnifiedAST {
        language: Language::Solidity,
        source: source.to_string(),
        file_path: "C.sol".to_string(),
        contracts: vec![ContractNode {
            name: "C".to_string(),
            functions: vec![FunctionNode {
                name: "f".to_string(),
                params: vec![],
                return_type: None,
                visibility: Visibility::Public,
                decorators: vec![],
                is_constructor: false,
                is_external: false,
                is_payable: false,
                line_number: 3,
                body_raw: String::new(),
            }],
            state_variables: vec![],
            line_number: 2,
        }],
        structs: vec![],
        enums: vec![],
    };

    let rule = RedundantBooleanComparisonsRule::default();
    let violations = rule.check(&ast);

    assert_eq!(violations.len(), 6);
    assert!(violations.iter().any(|v| v.suggestion.contains("Replace `x == true` with `x`")));
    assert!(violations.iter().any(|v| v.suggestion.contains("Replace `x != false` with `x`")));
    assert!(violations.iter().any(|v| v.suggestion.contains("Replace `x == false` with `!x`")));
    assert!(violations.iter().any(|v| v.suggestion.contains("Replace `x != true` with `!x`")));
}

#[test]
fn boolean_findings_report_line_column_and_severity() {
    let ast = UnifiedAST {
        language: Language::Solidity,
        source: "a\n  if (flag == true) {}".to_string(),
        file_path: "A.sol".to_string(),
        contracts: vec![],
        structs: vec![],
        enums: vec![],
    };
    let violations = RedundantBooleanComparisonsRule.check(&ast);
    assert_eq!(violations.len(), 1);
    let v = &violations[0];
    assert_eq!(v.rule_name, "solidity-redundant-boolean-comparisons");
    assert_eq!(v.line_number, 2);
    assert_eq!(v.column_number, 12);
    assert_eq!(v.severity, ViolationSeverity::Info);
    assert_eq!(v.variable_name, "flag == true");
    assert_eq!(v.description, "Redundant boolean comparison `flag == true` can be simplified");
    assert_eq!(v.suggestion, "Replace `flag == true` with `flag`.");
}

#[test]
fn boolean_rule_ignores_other_languages() {
    let ast = UnifiedAST {
        language: Language::Vyper,
        source: "if x == true:".to_string(),
        file_path: "a.vy".to_string(),
        contracts: vec![],
        structs: vec![],
        enums: vec![],
    };
    assert!(RedundantBooleanComparisonsRule.check(&ast).is_empty());
}

#[test]
fn scan_line_reports_byte_columns_and_literal_first_forms() {
    let found = RedundantBooleanComparisonsRule::scan_line("ok = (!done) != false && true == ready;");
    assert_eq!(found.len(), 2);
    assert_eq!(found[0], (14, "!done != false".to_string(), "!done".to_string()));
    assert_eq!(found[1], (31, "true == ready".to_string(), "ready".to_string()));
    assert!(RedundantBooleanComparisonsRule::scan_line("a == b; c != 1").is_empty());
    assert!(RedundantBooleanComparisonsRule::scan_line("== true").is_empty());
}

#[test]
fn identifier_starting_with_a_literal_is_no_literal() {
    assert!(RedundantBooleanComparisonsRule::scan_line("if (x == trueValue) {").is_empty());
    assert!(RedundantBooleanComparisonsRule::scan_line("if (x != false_flag) {").is_empty());
    let found = RedundantBooleanComparisonsRule::scan_line("if (x == true) {");
    assert_eq!(found, vec![(7, "x == true".to_string(), "x".to_string())]);
}

#[test]
fn simplify_negates_or_drops_negation() {
    assert_eq!(simplify(" x ", "==", "true"), "x");
    assert_eq!(simplify("x", "!=", "false"), "x");
    assert_eq!(simplify("x", "==", "false"), "!x");
    assert_eq!(simplify("!x", "!=", "true"), "x");
    assert_eq!(simplify("! x", "==", "false"), "x");
    assert_eq!(simplify("x", "<", "true"), "x");
}

#[test]
fn boolean_rule_metadata() {
    let rule = RedundantBooleanComparisonsRule;
    assert_eq!(rule.id(), "solidity-redundant-boolean-comparisons");
    assert_eq!(rule.name(), "Redundant Boolean Comparisons");
    assert!(rule.description().contains("== true"));
    assert!(rule.dependencies().is_empty());
}
