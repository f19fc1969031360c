use gasguard::engine::{PipelineError, PipelineExecutor, RuleDependencyGraph};

fn deps(ids: &[&str]) -> Vec<String> {
    ids.iter().map(|s| s.to_string()).collect()
}

fn position(order: &[String], id: &str) -> usize {
    order.iter().position(|x| x == id).unwrap()
}

#[test]
fn acyclic_graph_validates_and_sorts_dependencies_first() {
    let mut g = RuleDependencyGraph::new();
    g.add_rule("report", deps(&["storage", "loops"]));
    g.add_rule("storage", deps(&["parse"]));
    g.add_rule("loops", deps(&["parse"]));
    g.add_rule("parse", deps(&[]));
    assert!(g.validate().is_ok());
    let order = g.topological_sort().unwrap();
    assert_eq!(order.len(), 4);
    assert!(position(&order, "storage") < position(&order, "report"));
    assert!(position(&order, "loops") < position(&order, "report"));
    assert!(position(&order, "parse") < position(&order, "storage"));
    assert!(position(&order, "parse") < position(&order, "loops"));
}

#[test]
fn cycle_is_reported_with_its_rules() {
    let mut g = RuleDependencyGraph::new();
    g.add_rule("a", deps(&["b"]));
    g.add_rule("b", deps(&["c"]));
    g.add_rule("c", deps(&["a"]));
    g.add_rule("d", deps(&[]));
    match g.validate() {
        Err(PipelineError::CircularDependency(cycle)) => {
            assert_eq!(cycle, deps(&["a", "b", "c"]));
        }
        other => panic!("expected a cycle, got {:?}", other),
    }
    assert!(matches!(g.topological_sort(), Err(PipelineError::CircularDependency(_))));
}

#[test]
fn self_dependency_is_a_cycle() {
    let mut g = RuleDependencyGraph::new();
    g.add_rule("solo", deps(&["solo"]));
    match g.validate() {
        Err(PipelineError::CircularDependency(cycle)) => assert_eq!(cycle, deps(&["solo"])),
        other => panic!("expected a cycle, got {:?}", other),
    }
}

#[test]
fn missing_dependency_is_reported() {
    let mut g = RuleDependencyGraph::new();
    g.add_rule("a", deps(&["ghost"]));
    assert!(g.validate().is_ok());
    match g.topological_sort() {
        Err(PipelineError::MissingDependency(d)) => assert_eq!(d, "ghost"),
        other => panic!("expected a missing dependency, got {:?}", other),
    }
}

#[test]
fn registering_a_rule_again_replaces_its_dependencies() {
    let mut g = RuleDependencyGraph::new();
    g.add_rule("a", deps(&["b"]));
    g.add_rule("b", deps(&["a"]));
    assert!(g.validate().is_err());
    g.add_rule("b", deps(&[]));
    assert!(g.validate().is_ok());
    assert_eq!(g.topological_sort().unwrap(), deps(&["b", "a"]));
}

#[test]
fn empty_graph_sorts_to_nothing() {
    let g = RuleDependencyGraph::new();
    assert!(g.validate().is_ok());
    assert!(g.topological_sort().unwrap().is_empty());
}

#[test]
fn pipeline_executor_requires_an_acyclic_graph() {
    let mut g = RuleDependencyGraph::new();
    g.add_rule("x", deps(&["y"]));
    g.add_rule("y", deps(&[]));
    let executor = PipelineExecutor::new(g).ok().unwrap();
    assert_eq!(executor.execution_order().unwrap(), deps(&["y", "x"]));

    let mut cyclic = RuleDependencyGraph::new();
    cyclic.add_rule("x", deps(&["x"]));
    assert!(PipelineExecutor::new(cyclic).is_err());
}

#[test]
fn pipeline_error_messages() {
    assert_eq!(
        PipelineError::CircularDependency(deps(&["a", "b"])).message(),
        "Circular dependency detected: a -> b"
    );
    assert_eq!(
        PipelineError::MissingDependency("x".to_string()).message(),
        "Missing dependency: rule 'x' not found"
    );
    assert_eq!(
        PipelineError::RuleExecutionFailed("boom".to_string()).message(),
        "Rule execution failed: boom"
    );
}

#[test]
fn dependency_runs_before_the_rule_that_needs_it() {
    let mut g = RuleDependencyGraph::new();
    g.add_rule("a", deps(&["b"]));
    g.add_rule("b", deps(&[]));
    assert_eq!(g.topological_sort().unwrap(), deps(&["b", "a"]));
}
