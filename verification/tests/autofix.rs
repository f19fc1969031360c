use gasguard::autofix::FixEngine;
use gasguard::violation::{RuleViolation, ViolationSeverity};

fn violation(rule: &str, line: usize, suggestion: &str) -> RuleViolation {
    RuleViolation {
        rule_name: rule.to_string(),
        description: format!("{} finding", rule),
        severity: ViolationSeverity::Warning,
        line_number: line,
        column_number: 0,
        variable_name: String::new(),
        suggestion: suggestion.to_string(),
    }
}

#[test]
fn safe_fixes_are_the_mechanical_ones() {
    let engine = FixEngine::new();
    assert!(engine.is_safe_fix(&violation("unused-state-variable", 1, "")));
    assert!(engine.is_safe_fix(&violation("soroban-unused-state-variables", 1, "")));
    assert!(engine.is_safe_fix(&violation("redundant-external", 1, "")));
    assert!(!engine.is_safe_fix(&violation("missing-natspec", 1, "")));
}

#[test]
fn suggested_lines() {
    let engine = FixEngine::new();
    assert_eq!(
        engine.generate_suggested_line("uint x;", &violation("unused-state-variable", 1, "")),
        "// [GasGuard Auto-Fix] uint x;"
    );
    assert_eq!(
        engine.generate_suggested_line("  // uint x;", &violation("unused-state-variable", 1, "")),
        "  // uint x;"
    );
    assert_eq!(
        engine.generate_suggested_line("@external @external", &violation("redundant-external", 1, "")),
        "@internal @internal"
    );
    assert_eq!(
        engine.generate_suggested_line("x", &violation("other", 1, "use y")),
        "use y"
    );
    assert_eq!(
        engine.generate_suggested_line("x", &violation("other", 1, "")),
        "// TODO: other finding"
    );
}

#[test]
fn apply_single_fix_changes_one_line_or_fails() {
    let engine = FixEngine::new();
    let mut lines = vec!["a".to_string(), "@external".to_string()];
    assert!(engine.apply_single_fix(&mut lines, &violation("redundant-external", 2, "")).is_ok());
    assert_eq!(lines, vec!["a".to_string(), "@internal".to_string()]);
    assert!(engine.apply_single_fix(&mut lines, &violation("unused-state-variable", 0, "")).is_ok());
    assert_eq!(lines[0], "// [GasGuard Auto-Fix] a");
    let err = engine.apply_single_fix(&mut lines, &violation("unused-state-variable", 7, ""));
    assert_eq!(err, Err("Line 7 out of bounds".to_string()));
    assert_eq!(lines.len(), 2);
}

#[test]
fn apply_fixes_to_source_applies_safe_fixes_only() {
    let engine = FixEngine::new();
    let source = "uint a;\n@external\nuint b;\n";
    let vs = vec![
        violation("unused-state-variable", 1, ""),
        violation("redundant-external", 2, ""),
        violation("missing-natspec", 3, "doc it"),
    ];
    assert_eq!(
        engine.apply_fixes_to_source(source, &vs),
        Ok("// [GasGuard Auto-Fix] uint a;\n@internal\nuint b;".to_string())
    );
    let out_of_range = vec![violation("unused-state-variable", 2, ""), violation("redundant-external", 9, "")];
    assert_eq!(
        engine.apply_fixes_to_source("x\ny", &out_of_range),
        Err("Line 9 out of bounds".to_string())
    );
}

#[test]
fn apply_selected_fixes_ignores_safety() {
    let engine = FixEngine::new();
    let vs = vec![violation("unused-state-variable", 1, ""), violation("unused-state-variable", 2, "")];
    assert_eq!(
        engine.apply_selected_fixes("a\nb", &vs, &[false, true]),
        Ok("a\n// [GasGuard Auto-Fix] b".to_string())
    );
}

#[test]
fn rules_conflict_is_symmetric() {
    let engine = FixEngine::new();
    assert!(engine.rules_conflict("unused-state-variable", "redundant-external"));
    assert!(engine.rules_conflict("redundant-external", "soroban-unused-state-variables"));
    assert!(!engine.rules_conflict("unused-state-variable", "soroban-unused-state-variables"));
    assert!(!engine.rules_conflict("redundant-external", "redundant-external"));
}

#[test]
fn validate_and_filter_fixes_drops_conflicting_lines() {
    let engine = FixEngine::new();
    let vs = vec![
        violation("unused-state-variable", 4, ""),
        violation("redundant-external", 4, ""),
        violation("redundant-external", 2, ""),
        violation("missing-natspec", 2, ""),
        violation("unused-state-variable", 6, ""),
    ];
    let kept = engine.validate_and_filter_fixes(&vs);
    let lines: Vec<(usize, String)> = kept.iter().map(|v| (v.line_number, v.rule_name.clone())).collect();
    assert_eq!(
        lines,
        vec![(2, "redundant-external".to_string()), (6, "unused-state-variable".to_string())]
    );
}

#[test]
fn preview_plan_lists_fixes_with_existing_lines() {
    let engine = FixEngine::new();
    let lines = vec!["uint a;".to_string(), "@external".to_string()];
    let vs = vec![
        violation("unused-state-variable", 1, ""),
        violation("missing-natspec", 2, "add docs"),
        violation("redundant-external", 5, ""),
    ];
    let plan = engine.plan_preview(&lines, &vs);
    assert_eq!(plan.entries.len(), 2);
    assert_eq!(plan.safe_fixes, 1);
    assert_eq!(plan.unsafe_fixes, 1);
    assert_eq!(plan.entries[0].violation_index, 0);
    assert_eq!(plan.entries[0].suggested_line, "// [GasGuard Auto-Fix] uint a;");
    assert_eq!(plan.entries[1].original_line, "@external");
    assert_eq!(plan.entries[1].suggested_line, "add docs");
}

#[test]
fn applying_a_fix_twice_is_the_same_as_once() {
    let engine = FixEngine::new();
    let mut lines = vec![
        "uint x;".to_string(),
        "/// @external @external_x".to_string(),
    ];
    let ext = violation("redundant-external", 2, "");
    assert!(engine.apply_single_fix(&mut lines, &ext).is_ok());
    let once = lines.clone();
    assert_eq!(once[1], "/// @internal @internal_x");
    assert!(engine.apply_single_fix(&mut lines, &ext).is_ok());
    assert_eq!(lines, once);
    let unused = violation("unused-state-variable", 1, "");
    assert!(engine.apply_single_fix(&mut lines, &unused).is_ok());
    let once = lines.clone();
    assert!(engine.apply_single_fix(&mut lines, &unused).is_ok());
    assert_eq!(lines, once);
}
