use gasguard::rules::bytes_allocation::InefficientBytesAllocationRule;
use gasguard::soroban::{SorobanContract, SorobanFunction, SorobanImpl, SorobanRule};
use gasguard::violation::{RuleViolation, ViolationSeverity};

fn rule() -> InefficientBytesAllocationRule {
    InefficientBytesAllocationRule::default()
}

/// Builds the contract shape the rule reads from a test source: one impl
/// block holding every `pub fn` with its text up to the closing `    }`.
fn contract_of(source: &str) -> SorobanContract {
    let lines: Vec<&str> = source.lines().collect();
    let mut functions = Vec::new();
    let mut i = 0;
    while i < lines.len() {
        let t = lines[i].trim();
        if let Some(rest) = t.strip_prefix("pub fn ") {
            let name = rest.split('(').next().unwrap().to_string();
            let start = i;
            while i < lines.len() && lines[i] != "    }" {
                i += 1;
            }
            let end = if i < lines.len() { i + 1 } else { lines.len() };
            functions.push(SorobanFunction {
                name,
                raw_definition: lines[start..end].join("\n"),
                line_number: start + 1,
            });
        }
        i += 1;
    }
    SorobanContract {
        name: "MyContract".to_string(),
        implementations: vec![SorobanImpl { target: "MyContract".to_string(), functions }],
    }
}

fn violations_for(source: &str) -> Vec<RuleViolation> {
    rule().apply(&contract_of(source))
}

fn has_violation(violations: &[RuleViolation], fn_name: &str) -> bool {
    violations
        .iter()
        .any(|v| v.rule_name == "soroban-inefficient-bytes-allocation" && v.variable_name == fn_name)
}

#[test]
fn test_rule_metadata() {
    let r = rule();
    assert_eq!(r.id(), "soroban-inefficient-bytes-allocation");
    assert_eq!(r.name(), "Inefficient Bytes Allocation");
    assert!(r.is_enabled());
    assert!(matches!(r.severity(), ViolationSeverity::Medium));
}

#[test]
fn test_rule_can_be_disabled() {
    let mut r = rule();
    r.set_enabled(false);
    assert!(!r.is_enabled());
}

#[test]
fn test_detects_repeated_bytes_from_array() {
    let source = r#"
#[contracttype]
pub struct MyContract {
    pub admin: soroban_sdk::Address,
}

#[contractimpl]
impl MyContract {
    pub fn compare(env: soroban_sdk::Env) -> bool {
        let a = Bytes::from_array(&env, &[1u8, 2, 3]);
        let b = Bytes::from_array(&env, &[1u8, 2, 3]);
        a == b
    }
}
"#;
    let violations = violations_for(source);
    assert!(
        has_violation(&violations, "compare"),
        "Expected violation for repeated Bytes::from_array, got: {:?}",
        violations
    );
}

#[test]
fn test_detects_repeated_bytes_macro() {
    let source = r#"
#[contracttype]
pub struct MyContract {
    pub admin: soroban_sdk::Address,
}

#[contractimpl]
impl MyContract {
    pub fn hash_twice(env: soroban_sdk::Env) -> bool {
        let x = bytes!(&env, 0xdeadbeef);
        let y = bytes!(&env, 0xdeadbeef);
        x == y
    }
}
"#;
    let violations = violations_for(source);
    assert!(
        has_violation(&violations, "hash_twice"),
        "Expected violation for repeated bytes! macro, got: {:?}",
        violations
    );
}

#[test]
fn test_detects_mixed_repeated_constructors() {
    let source = r#"
#[contracttype]
pub struct MyContract {
    pub admin: soroban_sdk::Address,
}

#[contractimpl]
impl MyContract {
    pub fn process(env: soroban_sdk::Env) -> u32 {
        let a = Bytes::from_slice(&env, &[0u8; 32]);
        let b = Bytes::new(&env);
        a.len() + b.len()
    }
}
"#;
    let violations = violations_for(source);
    assert!(
        has_violation(&violations, "process"),
        "Expected violation for mixed Bytes constructors, got: {:?}",
        violations
    );
}

#[test]
fn test_no_violation_for_single_construction() {
    let source = r#"
#[contracttype]
pub struct MyContract {
    pub admin: soroban_sdk::Address,
}

#[contractimpl]
impl MyContract {
    pub fn build(env: soroban_sdk::Env) -> Bytes {
        Bytes::from_array(&env, &[1u8, 2, 3])
    }
}
"#;
    let violations = violations_for(source);
    assert!(
        !has_violation(&violations, "build"),
        "Should not flag a single Bytes construction, got: {:?}",
        violations
    );
}

#[test]
fn test_no_violation_when_no_bytes_used() {
    let source = r#"
#[contracttype]
pub struct MyContract {
    pub admin: soroban_sdk::Address,
}

#[contractimpl]
impl MyContract {
    pub fn add(a: u64, b: u64) -> u64 {
        a + b
    }
}
"#;
    let violations = violations_for(source);
    assert!(
        !has_violation(&violations, "add"),
        "Should not flag a function with no Bytes usage, got: {:?}",
        violations
    );
}

#[test]
fn test_detects_bytes_construction_inside_for_loop() {
    let source = r#"
#[contracttype]
pub struct MyContract {
    pub admin: soroban_sdk::Address,
}

#[contractimpl]
impl MyContract {
    pub fn batch(env: soroban_sdk::Env, n: u32) -> u32 {
        let mut count = 0u32;
        for _i in 0..n {
            let chunk = Bytes::from_array(&env, &[0u8; 8]);
            count += chunk.len();
        }
        count
    }
}
"#;
    let violations = violations_for(source);
    let loop_violation = violations.iter().any(|v| {
        v.rule_name == "soroban-inefficient-bytes-allocation"
            && v.variable_name == "batch"
            && v.description.contains("inside a loop")
    });
    assert!(
        loop_violation,
        "Expected loop-allocation violation for 'batch', got: {:?}",
        violations
    );
}

#[test]
fn test_detects_bytes_construction_inside_while_loop() {
    let source = r#"
#[contracttype]
pub struct MyContract {
    pub admin: soroban_sdk::Address,
}

#[contractimpl]
impl MyContract {
    pub fn stream(env: soroban_sdk::Env, mut n: u32) -> u32 {
        let mut total = 0u32;
        while n > 0 {
            let buf = Bytes::new(&env);
            total += buf.len();
            n -= 1;
        }
        total
    }
}
"#;
    let violations = violations_for(source);
    let loop_violation = violations.iter().any(|v| {
        v.rule_name == "soroban-inefficient-bytes-allocation"
            && v.variable_name == "stream"
            && v.description.contains("inside a loop")
    });
    assert!(
        loop_violation,
        "Expected loop-allocation violation for 'stream', got: {:?}",
        violations
    );
}

#[test]
fn test_suggestion_mentions_reuse() {
    let source = r#"
#[contracttype]
pub struct MyContract {
    pub admin: soroban_sdk::Address,
}

#[contractimpl]
impl MyContract {
    pub fn double_alloc(env: soroban_sdk::Env) -> bool {
        let a = Bytes::from_array(&env, &[1u8]);
        let b = Bytes::from_array(&env, &[2u8]);
        a.len() == b.len()
    }
}
"#;
    let violations = violations_for(source);
    let v = violations
        .iter()
        .find(|v| v.variable_name == "double_alloc")
        .expect("Expected a violation for double_alloc");

    assert!(
        v.suggestion.to_lowercase().contains("reuse")
            || v.suggestion.to_lowercase().contains("local variable"),
        "Suggestion should mention reuse or local variable, got: {}",
        v.suggestion
    );
}

#[test]
fn test_loop_violation_is_high_severity() {
    let source = r#"
#[contracttype]
pub struct MyContract {
    pub admin: soroban_sdk::Address,
}

#[contractimpl]
impl MyContract {
    pub fn loopy(env: soroban_sdk::Env, n: u32) -> u32 {
        let mut s = 0u32;
        for _i in 0..n {
            let b = Bytes::from_array(&env, &[9u8]);
            s += b.len();
        }
        s
    }
}
"#;
    let violations = violations_for(source);
    let loop_v = violations
        .iter()
        .find(|v| v.variable_name == "loopy" && v.description.contains("inside a loop"))
        .expect("Expected loop violation");

    assert!(
        matches!(loop_v.severity, ViolationSeverity::High),
        "Loop allocation violation should be High severity"
    );
}

#[test]
fn test_repeated_violation_is_medium_severity() {
    let source = r#"
#[contracttype]
pub struct MyContract {
    pub admin: soroban_sdk::Address,
}

#[contractimpl]
impl MyContract {
    pub fn twice(env: soroban_sdk::Env) -> bool {
        let a = Bytes::from_array(&env, &[1u8]);
        let b = Bytes::from_array(&env, &[2u8]);
        a == b
    }
}
"#;
    let violations = violations_for(source);
    let rep_v = violations
        .iter()
        .find(|v| v.variable_name == "twice" && v.description.contains("time(s)"))
        .expect("Expected repeated-allocation violation");

    assert!(
        matches!(rep_v.severity, ViolationSeverity::Medium),
        "Repeated allocation violation should be Medium severity"
    );
}

#[test]
fn repeated_description_counts_constructions() {
    let f = SorobanFunction {
        name: "three".to_string(),
        raw_definition:
            "let a = bytes!(&e, 1); let z = bytes!(&e, 1); let b = BytesN::new(&e); let c = Bytes::new(&e);"
                .to_string(),
        line_number: 7,
    };
    let c = SorobanContract {
        name: "C".to_string(),
        implementations: vec![SorobanImpl { target: "C".to_string(), functions: vec![f] }],
    };
    let v = rule().apply(&c);
    assert_eq!(v.len(), 1);
    assert_eq!(
        v[0].description,
        "Function 'three' constructs Bytes/BytesN 4 time(s). Repeated allocation increases execution overhead."
    );
    assert_eq!(v[0].line_number, 7);
}

#[test]
fn construction_after_loop_is_not_in_loop() {
    let f = SorobanFunction {
        name: "after".to_string(),
        raw_definition: "fn after() {\n    for i in 0..3 {\n        x += i;\n    }\n    let b = Bytes::new(&e);\n}"
            .to_string(),
        line_number: 1,
    };
    let c = SorobanContract {
        name: "C".to_string(),
        implementations: vec![SorobanImpl { target: "C".to_string(), functions: vec![f] }],
    };
    assert!(rule().apply(&c).is_empty());
}

fn one_function(name: &str, raw_definition: &str) -> Vec<RuleViolation> {
    let f = SorobanFunction {
        name: name.to_string(),
        raw_definition: raw_definition.to_string(),
        line_number: 1,
    };
    let c = SorobanContract {
        name: "C".to_string(),
        implementations: vec![SorobanImpl { target: "C".to_string(), functions: vec![f] }],
    };
    rule().apply(&c)
}

#[test]
fn bytes_macro_with_different_content_is_not_repeated() {
    let v = one_function(
        "f",
        "pub fn f(env: Env) {\n    let x = bytes!(&env, 0x01);\n    let y = bytes!(&env, 0x02);\n}",
    );
    assert!(v.is_empty());
    let v = one_function("g", "let x = bytes!(&env, 0x01); let y = Bytes::new(&env);");
    assert!(v.is_empty());
}

#[test]
fn bytes_macro_with_same_content_counts_each_repeat() {
    let v = one_function(
        "h",
        "let x = bytes!(&env, 0x01); let y = bytes!(&env, 0x02); let z = bytes!(&env, 0x01);",
    );
    assert_eq!(v.len(), 1);
    assert_eq!(
        v[0].description,
        "Function 'h' constructs Bytes/BytesN 2 time(s). Repeated allocation increases execution overhead."
    );
}

#[test]
fn construction_in_one_line_loop_is_in_loop() {
    let v = one_function("l", "for i in 0..n { let b = Bytes::new(&env); }");
    assert_eq!(v.len(), 1);
    assert_eq!(v[0].severity, ViolationSeverity::High);
    let v = one_function("m", "for _i in 0..n {\n    let c = Bytes::from_array(&env, &[0u8; 8]);\n}");
    assert_eq!(v.len(), 1);
    assert_eq!(v[0].severity, ViolationSeverity::High);
    let v = one_function("b", "let c = Bytes::new(&env);\nfor i in 0..n {\n    s += 1;\n}");
    assert!(v.is_empty());
}
