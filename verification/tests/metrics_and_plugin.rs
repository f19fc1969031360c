use gasguard::metrics::{GasReport, PatternGasCost};
use gasguard::plugin::{AnalysisInput, AnalysisOutput, Finding, SessionOutput, Severity};

fn finding(rule: &str, line: u32) -> Finding {
    Finding {
        rule_id: rule.to_string(),
        severity: Severity::Warning,
        message: "m".to_string(),
        file: "a.sol".to_string(),
        line,
        column: None,
        suggestion: None,
    }
}

#[test]
fn pattern_savings_never_go_negative() {
    let better = PatternGasCost::new("SOL-001", "a.sol", 3, 5000, 2100);
    assert_eq!(better.savings(), 2900);
    assert_eq!(better.rule_id, "SOL-001");
    assert_eq!(better.line, 3);
    let worse = PatternGasCost::new("SOL-002", "a.sol", 4, 100, 300);
    assert_eq!(worse.savings(), 0);
}

#[test]
fn gas_report_totals() {
    let mut report = GasReport::default();
    assert_eq!(report.total_before(), 0);
    report.push(PatternGasCost::new("a", "f", 1, 1000, 400));
    report.push(PatternGasCost::new("b", "f", 2, 50, 80));
    assert_eq!(report.entries.len(), 2);
    assert_eq!(report.total_before(), 1050);
    assert_eq!(report.total_after(), 480);
    assert_eq!(report.total_savings(), 600);
}

#[test]
fn analysis_outputs_and_sessions() {
    let ok = AnalysisOutput::ok("R1", "a.sol", vec![finding("R1", 1), finding("R1", 2)]);
    assert!(ok.success && !ok.is_clean());
    let err = AnalysisOutput::err("R2", "b.sol", "boom");
    assert!(!err.success && err.is_clean());
    assert_eq!(err.error.as_deref(), Some("boom"));

    let mut session = SessionOutput::default();
    assert!(session.is_clean());
    session.push(AnalysisOutput::ok("R3", "c.sol", vec![]));
    assert!(session.is_clean());
    session.push(ok);
    session.push(err);
    assert_eq!(session.finding_count(), 2);
    let lines: Vec<u32> = session.all_findings().iter().map(|f| f.line).collect();
    assert_eq!(lines, vec![1, 2]);
    assert!(!session.is_clean());
}

#[test]
fn analysis_input_builders() {
    let input = AnalysisInput::new("a.sol", "contract A {}")
        .with_meta("compiler".to_string(), "0.8.20".to_string())
        .with_meta("compiler".to_string(), "0.8.21".to_string());
    assert_eq!(input.file_path, "a.sol");
    assert_eq!(input.source, "contract A {}");
    assert!(input.ast.is_none());
    assert_eq!(input.metadata.get("compiler").map(|s| s.as_str()), Some("0.8.21"));
    let with_ast = input.with_ast(serde_json::Value::Bool(true));
    assert_eq!(with_ast.ast, Some(serde_json::Value::Bool(true)));
}
