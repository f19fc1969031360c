use gasguard::ast::{Language, UnifiedAST};
use gasguard::engine::{PipelineError, PipelineExecutor, RuleDependencyGraph};
use gasguard::pipeline::{run_in_order, RuleOutput};
use gasguard::violation::{RuleViolation, ViolationSeverity};

/// Reports one finding naming the rule and the rules whose outputs it was
/// handed.
fn check(names: &[&str], i: usize, _ast: &UnifiedAST, context: &Vec<RuleOutput>) -> Vec<RuleViolation> {
    let seen: Vec<String> = context.iter().map(|o| o.rule_id.clone()).collect();
    vec![RuleViolation {
        rule_name: names[i].to_string(),
        description: seen.join(","),
        severity: ViolationSeverity::Info,
        line_number: context.len(),
        column_number: 0,
        variable_name: String::new(),
        suggestion: String::new(),
    }]
}

fn output(names: &[&str], i: usize, violations: &Vec<RuleViolation>) -> RuleOutput {
    RuleOutput {
        rule_id: names[i].to_string(),
        rule_name: names[i].to_string(),
        data: serde_json::Value::from(violations.len()),
    }
}

fn ast() -> UnifiedAST {
    UnifiedAST {
        language: Language::Solidity,
        source: String::new(),
        file_path: "a.sol".to_string(),
        contracts: vec![],
        structs: vec![],
        enums: vec![],
    }
}

fn ids(v: &[&str]) -> Vec<String> {
    v.iter().map(|s| s.to_string()).collect()
}

#[test]
fn pipeline_runs_dependencies_first_with_their_outputs() {
    let mut g = RuleDependencyGraph::new();
    g.add_rule("report", ids(&["parse"]));
    g.add_rule("parse", ids(&[]));
    let order = PipelineExecutor::new(g).ok().unwrap().execution_order().unwrap();
    assert_eq!(order, ids(&["parse", "report"]));
    let names = ["report", "parse"];
    let found = run_in_order(
        &ids(&names),
        &order,
        &ast(),
        |i, a, c| check(&names, i, a, c),
        |i, v| output(&names, i, v),
    )
    .ok()
    .unwrap();
    assert_eq!(found.len(), 2);
    assert_eq!(found[0].rule_name, "parse");
    assert_eq!(found[0].line_number, 0);
    assert_eq!(found[1].rule_name, "report");
    assert_eq!(found[1].description, "parse");
    assert_eq!(found[1].line_number, 1);
}

#[test]
fn pipeline_stops_at_first_unknown_rule() {
    let names = ["a"];
    let result = run_in_order(
        &ids(&names),
        &ids(&["a", "x", "y"]),
        &ast(),
        |i, a, c| check(&names, i, a, c),
        |i, v| output(&names, i, v),
    );
    match result {
        Err(PipelineError::MissingDependency(d)) => assert_eq!(d, "x"),
        other => panic!("expected a missing rule, got {:?}", other.is_ok()),
    }
}

#[test]
fn pipeline_runs_the_rule_registered_last_under_an_id() {
    let names = ["dup", "other", "dup"];
    let found = run_in_order(
        &ids(&names),
        &ids(&["dup", "other"]),
        &ast(),
        |i, a, c| {
            let mut v = check(&names, i, a, c);
            v[0].column_number = i;
            v
        },
        |i, v| output(&names, i, v),
    )
    .ok()
    .unwrap();
    assert_eq!(found.len(), 2);
    assert_eq!(found[0].column_number, 2);
    assert_eq!(found[1].column_number, 1);
    assert_eq!(found[1].description, "dup");
}
