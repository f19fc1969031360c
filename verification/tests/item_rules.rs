use gasguard::rules::calldata::MissingCalldataUsageRule;
use gasguard::rules::natspec::MissingNatspecRule;
use gasguard::rules::signatures::MissingDomainSeparationRule;
use gasguard::rules::slippage::MissingSlippageValidationRule;
use gasguard::rules::Rule;
use gasguard::violation::{RuleViolation, ViolationSeverity};
use syn::parse_file;

fn natspec_check(code: &str) -> Vec<RuleViolation> {
    let ast = parse_file(code).expect("parse failed");
    MissingNatspecRule.check(&ast.items)
}

#[test]
fn test_missing_slippage_in_swap() {
    let code = r#"
        pub struct Dex;
        impl Dex {
            pub fn swap(amount_in: u64, path: Vec<Address>) {
                // swap logic without slippage check
            }
        }
    "#;
    let ast = parse_file(code).unwrap();
    let rule = MissingSlippageValidationRule;
    let violations = rule.check(&ast.items);

    assert_eq!(violations.len(), 1);
    assert_eq!(violations[0].severity, ViolationSeverity::High);
    assert_eq!(violations[0].variable_name, "swap");
    assert!(violations[0].description.contains("lacks a slippage protection parameter"));
}

#[test]
fn test_has_slippage_in_swap() {
    let code = r#"
        pub struct Dex;
        impl Dex {
            pub fn swap(amount_in: u64, min_amount_out: u64, path: Vec<Address>) {
                // swap logic with slippage check
            }
        }
    "#;
    let ast = parse_file(code).unwrap();
    let rule = MissingSlippageValidationRule;
    let violations = rule.check(&ast.items);

    assert_eq!(violations.len(), 0);
}

#[test]
fn test_missing_slippage_in_add_liquidity() {
    let code = r#"
        pub fn add_liquidity(token_a: Address, token_b: Address, amount_a: u64, amount_b: u64) {
            // add liquidity logic
        }
    "#;
    let ast = parse_file(code).unwrap();
    let rule = MissingSlippageValidationRule;
    let violations = rule.check(&ast.items);

    assert_eq!(violations.len(), 1);
    assert_eq!(violations[0].variable_name, "add_liquidity");
}

#[test]
fn test_not_a_defi_operation() {
    let code = r#"
        pub fn transfer(to: Address, amount: u64) {
            // simple transfer
        }
    "#;
    let ast = parse_file(code).unwrap();
    let rule = MissingSlippageValidationRule;
    let violations = rule.check(&ast.items);

    assert_eq!(violations.len(), 0);
}

#[test]
fn slippage_function_check_reports_name_and_message() {
    let rule = MissingSlippageValidationRule;
    let found = rule.check_function("SwapExactTokens", &[Some("amount".to_string()), None]);
    assert_eq!(found.len(), 1);
    assert_eq!(
        found[0].description,
        "Function 'SwapExactTokens' lacks a slippage protection parameter (e.g., min_amount_out)."
    );
    assert_eq!(found[0].rule_name, "missing-slippage-validation");
    assert!(rule.check_function("swap", &[Some("Slippage_Bps".to_string())]).is_empty());
    assert!(MissingSlippageValidationRule::is_defi_operation("BuyTokens"));
    assert!(!MissingSlippageValidationRule::is_defi_operation("deposit"));
    assert!(MissingSlippageValidationRule::has_slippage_in_params(&[None, Some("price_limit".to_string())]));
    assert!(!MissingSlippageValidationRule::has_slippage_in_params(&[None]));
}

#[test]
fn flags_undocumented_public_fn() {
    assert!(!natspec_check("pub fn transfer() {}").is_empty());
}

#[test]
fn no_violation_for_documented_fn() {
    assert!(natspec_check("/// @notice transfers tokens\npub fn transfer() {}").is_empty());
}

#[test]
fn no_violation_for_private_fn() {
    assert!(natspec_check("fn internal_helper() {}").is_empty());
}

#[test]
fn natspec_violation_text() {
    let v = natspec_check("pub fn mint() {}");
    assert_eq!(v.len(), 1);
    assert_eq!(v[0].description, "Public function `mint` is missing NatSpec documentation.");
    assert_eq!(v[0].severity, ViolationSeverity::Low);
    assert_eq!(
        v[0].suggestion,
        "Add `/// @notice`, `/// @param`, and `/// @return` NatSpec comments above the function."
    );
}

#[test]
fn test_gas_savings_estimation() {
    assert_eq!(MissingCalldataUsageRule::estimate_gas_savings("uint256[]"), 1000);
    assert_eq!(MissingCalldataUsageRule::estimate_gas_savings("string"), 800);
    assert_eq!(MissingCalldataUsageRule::estimate_gas_savings("bytes"), 600);
}

#[test]
fn calldata_helpers() {
    assert_eq!(MissingCalldataUsageRule::estimate_gas_savings("MyStruct"), 500);
    assert!(MissingCalldataUsageRule::should_use_calldata("  uint256[] "));
    assert!(!MissingCalldataUsageRule::should_use_calldata("Bytes32"));
    assert!(!MissingCalldataUsageRule::should_use_calldata("bytes1"));
    assert!(MissingCalldataUsageRule::should_use_calldata("bytes"));
    assert!(MissingCalldataUsageRule::should_use_calldata("bytesx"));
    assert!(MissingCalldataUsageRule::should_use_calldata("bytes32[]"));
    assert!(!MissingCalldataUsageRule::should_use_calldata("address"));
    assert!(MissingCalldataUsageRule::should_use_calldata("String"));
    assert!(!MissingCalldataUsageRule::should_use_calldata("strings"));
    assert!(!MissingCalldataUsageRule::should_use_calldata("uint256"));
    assert!(MissingCalldataUsageRule::has_external_functions("function f() external"));
    assert!(!MissingCalldataUsageRule::has_memory_parameters("bytes memory"));
}

#[test]
fn calldata_finds_memory_parameters_of_external_functions() {
    let code = "function transfer(address[] memory recipients,\n    uint256[] memory amounts) external {\n}";
    let found = MissingCalldataUsageRule::find_memory_in_external_functions(code);
    assert!(found.is_empty());
    let code = "function transfer(address[] memory recipients,\n    uint256 x) external {";
    assert!(MissingCalldataUsageRule::find_memory_in_external_functions(code).is_empty());
    let code = "function f(uint a, address[] memory to) external {";
    let found = MissingCalldataUsageRule::find_memory_in_external_functions(code);
    assert_eq!(found.len(), 1);
    assert_eq!(found[0].0, "function f(uint a, address[] memory to) external {");
    assert_eq!(found[0].1, vec!["address[] memory to) external {".to_string()]);
}

#[test]
fn calldata_signature_starts_at_the_external_function() {
    let f = MissingCalldataUsageRule::find_memory_in_external_functions;
    let line = "function t(address[] memory r, uint256[] memory a) external {";
    assert_eq!(
        f(line),
        vec![(
            line.to_string(),
            vec!["function t(address[] memory r".to_string(), "uint256[] memory a) external {".to_string()]
        )]
    );
    assert!(f("function a(string memory s) internal {} function b(uint x) external {}").is_empty());
    let found = f("function a(uint x) internal {} function b(string memory s) external {}");
    assert_eq!(found.len(), 1);
    assert_eq!(found[0].0, "function b(string memory s) external {}");
    assert_eq!(found[0].1, vec!["function b(string memory s) external {}".to_string()]);
    let line = "    /* api */ function f(uint a, address[] memory to) external {";
    let found = f(line);
    assert_eq!(found.len(), 1);
    assert_eq!(found[0].0, line);
    assert_eq!(found[0].1, vec!["address[] memory to) external {".to_string()]);
    let found = f("    function g(string memory s) external {");
    assert_eq!(found[0].0, "    function g(string memory s) external {");
    assert_eq!(found[0].1, vec!["function g(string memory s) external {".to_string()]);
}

#[test]
fn calldata_item_text_reports_types() {
    let rule = MissingCalldataUsageRule;
    let found = rule.check_item_text("function f(uint a, address[] memory to) external {");
    assert_eq!(found.len(), 1);
    assert_eq!(found[0].variable_name, "address[]");
    assert_eq!(
        found[0].description,
        "External function parameter uses 'memory' for type 'address[]'. Using 'calldata' would be more gas-efficient."
    );
    assert_eq!(
        found[0].suggestion,
        "Replace 'memory' with 'calldata' for this parameter. Estimated gas savings: ~1000 gas per call. Example: function foo(address[][] calldata data) external { ... }"
    );
    assert!(rule.check_item_text("function g(string memory s) internal {").is_empty());
}

#[test]
fn domain_separation_missing_is_critical() {
    let rule = MissingDomainSeparationRule;
    let code = "function recoverSigner(bytes32 hash, bytes memory sig) public pure returns (address) { return ecrecover(hash, v, r, s); }";
    let found = rule.check_item_text(code);
    assert_eq!(found.len(), 1);
    assert_eq!(found[0].severity, ViolationSeverity::Critical);
    assert_eq!(found[0].variable_name, "signature_verification");
}

#[test]
fn domain_separation_incomplete_reports_issues() {
    let rule = MissingDomainSeparationRule;
    let code = "bytes32 constant DOMAIN_TYPEHASH = 1; function recoverSigner() { return ecrecover(hash, v, r, s); }";
    let found = rule.check_item_text(code);
    assert_eq!(found.len(), 1);
    assert_eq!(found[0].severity, ViolationSeverity::High);
    assert_eq!(
        found[0].description,
        "Incomplete EIP-712 domain separation: Missing domainSeparator variable or computation"
    );
    let issues = MissingDomainSeparationRule::check_incomplete_eip712(
        "DOMAIN_SEPARATOR = keccak256(abi.encode(x)); ecrecover(h)",
    );
    assert_eq!(
        issues,
        vec![
            "Missing DOMAIN_TYPEHASH constant".to_string(),
            "Incomplete EIP-712 message type configuration".to_string(),
            "Domain separator may not include chain ID (potential cross-chain replay vulnerability)".to_string(),
        ]
    );
    assert!(rule.check_item_text("function add(uint a) {}").is_empty());
}

#[test]
fn item_rules_metadata() {
    assert_eq!(MissingCalldataUsageRule.name(), "missing-calldata-usage");
    assert_eq!(MissingDomainSeparationRule.name(), "missing-domain-separation");
    assert_eq!(MissingNatspecRule.name(), "missing-natspec");
    assert_eq!(MissingSlippageValidationRule.name(), "missing-slippage-validation");
    assert!(MissingDomainSeparationRule.description().contains("EIP-712"));
}

#[test]
fn item_rules_run_over_parsed_items() {
    let ast = parse_file("fn a() {} struct S;").unwrap();
    assert!(MissingCalldataUsageRule.check(&ast.items).is_empty());
    assert!(MissingDomainSeparationRule.check(&ast.items).is_empty());
    let ast = parse_file("fn verify(signature: u8) { ecrecover(signature); }").unwrap();
    let found = MissingDomainSeparationRule.check(&ast.items);
    assert_eq!(found.len(), 1);
    assert_eq!(found[0].severity, ViolationSeverity::Critical);
}

#[test]
fn calldata_check_reads_each_item_token_text() {
    let ast = parse_file("m! { function t(uint a, string memory s) external }\nfn plain() {}").unwrap();
    let found = MissingCalldataUsageRule.check(&ast.items);
    assert_eq!(found.len(), 1);
    assert_eq!(found[0].variable_name, "string");
    let ast = parse_file("m! { function t(uint a, string memory s) internal }").unwrap();
    assert!(MissingCalldataUsageRule.check(&ast.items).is_empty());
}

#[test]
fn slippage_check_reads_free_functions_and_impl_functions_in_order() {
    let ast = parse_file(
        "pub fn buy_tokens(amount: u64) {}\nstruct S;\nimpl S {\n    const K: u8 = 1;\n    pub fn sell(&self, amount: u64) {}\n    pub fn trade(min_out: u64) {}\n}",
    )
    .unwrap();
    let found = MissingSlippageValidationRule.check(&ast.items);
    assert_eq!(found.len(), 2);
    assert_eq!(found[0].variable_name, "buy_tokens");
    assert_eq!(found[1].variable_name, "sell");
}

#[test]
fn natspec_check_flags_only_undocumented_public_functions() {
    let found = natspec_check(
        "/// documented\npub fn a() {}\npub fn b() {}\nfn c() {}\n#[inline]\npub fn d() {}",
    );
    assert_eq!(found.len(), 2);
    assert_eq!(found[0].variable_name, "b");
    assert_eq!(found[1].variable_name, "d");
}

#[test]
fn lowercased_text_checks() {
    assert!(MissingCalldataUsageRule::is_calldata_type_lower("bytes"));
    assert!(!MissingCalldataUsageRule::is_calldata_type_lower("bytes32"));
    assert!(!MissingCalldataUsageRule::is_calldata_type_lower("String"));
    assert!(MissingCalldataUsageRule::is_calldata_type_lower("string"));
    assert!(MissingSlippageValidationRule::is_defi_name_lower("add_liquidity_eth"));
    assert!(!MissingSlippageValidationRule::is_defi_name_lower("Swap"));
    assert!(MissingSlippageValidationRule::is_slippage_name_lower("amount_out_min"));
    assert!(!MissingSlippageValidationRule::is_slippage_name_lower("Min_Out"));
}
