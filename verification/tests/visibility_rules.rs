use gasguard::rules::constructors::ConstructorVisibilityRule;
use gasguard::rules::visibility::UnnecessaryPublicFunctionRule;
use gasguard::rules::Rule;
use gasguard::violation::ViolationSeverity;
use gasguard::rules::constructors::check_constructor_visibility;
use gasguard::rules::visibility::check_unnecessary_public_functions;

#[test]
fn flags_public_only_called_externally() {
    let src = r#"
            contract Token {
                function transfer(address to, uint256 amount) public returns (bool) {
                    return true;
                }
            }
        "#;
    let result = check_unnecessary_public_functions(src);
    assert!(!result.is_empty(), "should flag transfer as unnecessarily public");
    assert_eq!(result[0].0, "transfer");
}

#[test]
fn does_not_flag_internally_called_public_fn() {
    let src = r#"
            contract Token {
                function transfer(address to, uint256 amount) public returns (bool) {
                    return _transfer(to, amount);
                }
                function batchTransfer(address[] memory to, uint256 amount) public {
                    for (uint i = 0; i < to.length; i++) {
                        transfer(to[i], amount);
                    }
                }
            }
        "#;
    let result = check_unnecessary_public_functions(src);
    let names: Vec<&str> = result.iter().map(|(n, _)| n.as_str()).collect();
    assert!(!names.contains(&"transfer"), "transfer is called internally");
}

#[test]
fn empty_source_produces_no_violations() {
    assert!(check_unnecessary_public_functions("").is_empty());
}

#[test]
fn unnecessary_public_reports_declaration_line() {
    let src = "contract A {\n  function f() public {}\n  function g() public { f(); }\n}\n";
    let result = check_unnecessary_public_functions(src);
    assert_eq!(result, vec![("g".to_string(), 3)]);
}

#[test]
fn flags_public_constructor() {
    let src = r#"
            contract Token {
                constructor(uint256 supply) public {
                    totalSupply = supply;
                }
            }
        "#;
    let result = check_constructor_visibility(src);
    assert!(!result.is_empty());
    assert_eq!(result[0].0, "constructor-public");
}

#[test]
fn flags_internal_constructor() {
    let src = r#"
            contract Base {
                constructor() internal {}
            }
        "#;
    let result = check_constructor_visibility(src);
    assert!(!result.is_empty());
    assert_eq!(result[0].0, "constructor-internal");
}

#[test]
fn flags_legacy_public_constructor() {
    let src = r#"
            contract OldToken {
                function OldToken(uint256 supply) public {
                    totalSupply = supply;
                }
            }
        "#;
    let result = check_constructor_visibility(src);
    assert!(!result.is_empty());
    assert_eq!(result[0].0, "legacy-constructor-public");
}

#[test]
fn clean_constructor_no_violation() {
    let src = r#"
            contract Modern {
                constructor(uint256 supply) {
                    totalSupply = supply;
                }
            }
        "#;
    let result = check_constructor_visibility(src);
    assert!(result.is_empty());
}

#[test]
fn legacy_internal_constructor_with_line() {
    let src = "contract Old {\n    function Old () internal {}\n}";
    let result = check_constructor_visibility(src);
    assert_eq!(result, vec![("legacy-constructor-internal".to_string(), 2)]);
}

#[test]
fn word_match_needs_boundaries() {
    // `publicly` is not the word `public`.
    let src = "constructor() publicly {}";
    assert!(check_constructor_visibility(src).is_empty());
}

#[test]
fn item_text_violations_for_public_and_constructor_rules() {
    let public = UnnecessaryPublicFunctionRule.check_item_text("contract A {\n  function pay() public {}\n}");
    assert_eq!(public.len(), 1);
    assert_eq!(public[0].rule_name, "unnecessary-public-function");
    assert_eq!(public[0].line_number, 2);
    assert_eq!(public[0].variable_name, "pay");
    assert_eq!(public[0].severity, ViolationSeverity::Low);
    assert!(public[0].description.starts_with("Function `pay` is declared `public`"));

    let ctor = ConstructorVisibilityRule.check_item_text("contract A {\n  constructor() internal {}\n}");
    assert_eq!(ctor.len(), 1);
    assert_eq!(ctor[0].rule_name, "constructor-visibility");
    assert_eq!(ctor[0].severity, ViolationSeverity::High);
    assert_eq!(ctor[0].line_number, 2);
    assert_eq!(ctor[0].variable_name, "constructor() internal {}");
    assert_eq!(ctor[0].suggestion, "Remove `internal` and declare the contract `abstract` instead.");

    let items = syn::parse_file("fn a() {}").unwrap().items;
    assert!(UnnecessaryPublicFunctionRule.check(&items).is_empty());
    assert!(ConstructorVisibilityRule.check(&items).is_empty());
    assert_eq!(ConstructorVisibilityRule.name(), "constructor-visibility");
}

#[test]
fn public_modifier_after_a_parameter_named_like_it_is_flagged() {
    let result = check_constructor_visibility("contract T {\nconstructor(address publicKey) public {}\n}");
    assert_eq!(result, vec![("constructor-public".to_string(), 2)]);
    assert!(check_constructor_visibility("contract T {\nconstructor(address publicKey) {}\n}").is_empty());
}
