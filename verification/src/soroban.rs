//! The parsed shape of a Soroban contract that contract-level rules read, and
//! the interface of those rules.

use vstd::prelude::*;
use crate::violation::{RuleViolation, ViolationSeverity};

verus! {

/// A function inside a `#[contractimpl]` block.
pub struct SorobanFunction {
    /// The function's name.
    pub name: String,
    /// The function's full source text, signature and body.
    pub raw_definition: String,
    /// 1-based line of the declaration.
    pub line_number: usize,
}

/// One `impl` block of a contract.
pub struct SorobanImpl {
    /// The type the block implements.
    pub target: String,
    /// Its functions, in source order.
    pub functions: Vec<SorobanFunction>,
}

/// A parsed Soroban contract.
pub struct SorobanContract {
    /// The contract's name.
    pub name: String,
    /// Its `impl` blocks, in source order.
    pub implementations: Vec<SorobanImpl>,
}

/// A rule over a parsed Soroban contract.
pub trait SorobanRule {
    /// Stable rule identifier.
    fn id(&self) -> &str;

    /// Short human-readable name.
    fn name(&self) -> &str;

    /// What the rule checks.
    fn description(&self) -> &str;

    /// The rule's default severity.
    fn severity(&self) -> ViolationSeverity;

    /// Whether the rule runs.
    fn is_enabled(&self) -> bool;

    /// Turns the rule on or off.
    fn set_enabled(&mut self, enabled: bool);

    /// The findings for `contract`.
    fn apply(&self, contract: &SorobanContract) -> Vec<RuleViolation>;
}

} // verus!
