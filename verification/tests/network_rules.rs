use gasguard::rules::network::{extract_function_name, NetworkValidationRule};
use gasguard::rules::sdk_lint::{AddressValidationRule, SdkUsageRule};
use gasguard::rules::soroban_lint::{ContractMacroRule, EnvParameterRule, StoragePatternRule};
use gasguard::rules::SorobanLintRule;
use gasguard::violation::ViolationSeverity;

#[test]
fn test_detects_missing_network_validation_with_env() {
    let rule = NetworkValidationRule;
    let source = r#"
use soroban_sdk::{contract, contractimpl, contracttype, Address, Env};

#[contractimpl]
impl MyContract {
    pub fn do_something(env: Env) {
        let timestamp = env.ledger().timestamp();
    }
}
"#;

    let violations = rule.check(source, "test.rs");
    assert!(violations.is_some());
    let violations = violations.unwrap();
    assert!(!violations.is_empty());

    let network_violation = violations
        .iter()
        .find(|v| v.rule_name == "stellar-network-validation");
    assert!(network_violation.is_some());
}

#[test]
fn test_passes_with_network_validation() {
    let rule = NetworkValidationRule;
    let source = r#"
use soroban_sdk::{contract, contractimpl, contracttype, Address, Env};

#[contractimpl]
impl MyContract {
    pub fn do_something(env: Env) {
        let network = env.ledger().network_passphrase();
        // Network validation present
        let timestamp = env.ledger().timestamp();
    }
}
"#;

    let violations = rule.check(source, "test.rs");
    if let Some(viols) = violations {
        let network_violations: Vec<_> = viols
            .iter()
            .filter(|v| v.rule_name == "stellar-network-validation")
            .collect();
        assert!(network_violations.is_empty() || network_violations.len() < 2);
    }
}

#[test]
fn test_detects_sensitive_function_without_network_check() {
    let rule = NetworkValidationRule;
    let source = r#"
use soroban_sdk::{contract, contractimpl, contracttype, Address, Env};

#[contractimpl]
impl MyContract {
    pub fn transfer(env: Env, to: Address, amount: u64) {
        // Sensitive operation without network validation
    }
}
"#;

    let violations = rule.check(source, "test.rs");
    assert!(violations.is_some());
    let violations = violations.unwrap();

    let function_violation = violations.iter().find(|v| {
        v.description.contains("transfer") && v.description.contains("network validation")
    });
    assert!(function_violation.is_some());
}

#[test]
fn test_detects_address_generation_without_network_check() {
    let rule = NetworkValidationRule;
    let source = r#"
use soroban_sdk::{contract, contractimpl, contracttype, Address, Env};

#[contractimpl]
impl MyContract {
    pub fn create_account(env: Env) -> Address {
        Address::generate(&env)
    }
}
"#;

    let violations = rule.check(source, "test.rs");
    assert!(violations.is_some());
    let violations = violations.unwrap();

    let address_violation = violations
        .iter()
        .find(|v| v.description.contains("addresses without network validation"));
    assert!(address_violation.is_some());
}

#[test]
fn test_no_false_positives_for_safe_contract() {
    let rule = NetworkValidationRule;
    let source = r#"
use soroban_sdk::{contract, contractimpl, contracttype, Address, Env};

#[contractimpl]
impl MyContract {
    pub fn safe_transfer(env: Env, to: Address, amount: u64) {
        let network = env.ledger().network_passphrase();
        // Validate network before proceeding
        
        // Perform transfer
    }
}
"#;

    let violations = rule.check(source, "test.rs");
    if let Some(viols) = violations {
        let critical_violations: Vec<_> = viols
            .iter()
            .filter(|v| v.rule_name == "stellar-network-validation")
            .collect();
        assert!(critical_violations.len() <= 1);
    }
}

#[test]
fn test_extract_function_name() {
    assert_eq!(extract_function_name("pub fn transfer("), "transfer");
    assert_eq!(extract_function_name("fn deposit("), "deposit");
    assert_eq!(extract_function_name("pub fn withdraw(env: Env,"), "withdraw");
    assert_eq!(extract_function_name("no function here"), "unknown");
}

#[test]
fn network_function_finding_is_exact() {
    let rule = NetworkValidationRule;
    let source = "use soroban_sdk::Env;\npub fn mint(env: Env) {\n}\n";
    let v = rule.check(source, "f.rs").unwrap();
    assert_eq!(v.len(), 2);
    assert_eq!(v[0].line_number, 1);
    assert_eq!(v[0].severity, ViolationSeverity::High);
    assert_eq!(
        v[1].description,
        "Function 'mint' at line 2 performs sensitive operations without network validation"
    );
    assert_eq!(v[1].line_number, 2);
    assert_eq!(v[1].severity, ViolationSeverity::Medium);
    assert_eq!(v[1].variable_name, "f.rs");
}

#[test]
fn network_impl_finding_only_when_alone() {
    let rule = NetworkValidationRule;
    let source = "#[contractimpl]\nimpl C {}\n";
    let v = rule.check(source, "c.rs").unwrap();
    assert_eq!(v.len(), 1);
    assert_eq!(v[0].severity, ViolationSeverity::Low);
    assert!(rule.check("let x = 1;", "c.rs").is_none());
}

#[test]
fn contract_macro_findings() {
    let rule = ContractMacroRule;
    let v = rule
        .check("#[contractimpl] #[contractimpl]\nimpl C {}", "m.rs")
        .unwrap();
    assert_eq!(v.len(), 3);
    assert_eq!(v[0].description, "Soroban contracts should import soroban_sdk");
    assert_eq!(v[1].description, "Contract uses #[contractimpl] but missing #[contracttype]");
    assert_eq!(v[2].severity, ViolationSeverity::Critical);
    assert_eq!(v[2].line_number, 1);
    assert!(rule
        .check("use soroban_sdk::Env;\n#[contracttype]\n#[contractimpl]", "m.rs")
        .is_none());
}

#[test]
fn env_parameter_findings() {
    let rule = EnvParameterRule;
    let src = "pub fn store(x: u32) {\n    storage.set(&K, &x);\n}\n";
    let v = rule.check(src, "e.rs").unwrap();
    assert_eq!(v.len(), 1);
    assert_eq!(v[0].line_number, 1);
    // A `pub fn` on the last line is never flagged.
    assert!(rule.check("x.set(1);\npub fn last()", "e.rs").is_none());
}

#[test]
fn storage_pattern_findings() {
    let rule = StoragePatternRule;
    let v = rule.check("Persistent Instance", "s.rs").unwrap();
    assert_eq!(v.len(), 2);
    assert_eq!(v[1].severity, ViolationSeverity::Warning);
    assert!(rule.check("Persistent StorageKey Instance new(", "s.rs").is_none());
}

#[test]
fn sdk_usage_findings() {
    let rule = SdkUsageRule;
    let v = rule.check("fn f(a: Address, b: BytesN<32>, m: Map<u32, u32>)", "s.rs").unwrap();
    assert_eq!(v.len(), 2);
    assert_eq!(v[0].severity, ViolationSeverity::High);
    assert_eq!(v[1].description, "BytesN used without explicit length specification");
}

#[test]
fn address_validation_findings() {
    let rule = AddressValidationRule;
    let v = rule.check("line\npub fn pay(to: Address) {\n}\n", "a.rs").unwrap();
    assert_eq!(v.len(), 1);
    assert_eq!(v[0].line_number, 2);
    assert!(rule
        .check("pub fn pay(to: Address) {\n to.require_auth();\n}\n", "a.rs")
        .is_none());
}
