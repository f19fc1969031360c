//! Source-level rules for Solidity and Soroban contracts.

pub mod visibility;
pub mod constructors;
pub mod network;
pub mod soroban_lint;
pub mod sdk_lint;
pub mod bytes_allocation;
pub mod encoding;
pub mod syntax;
pub mod signatures;
pub mod calldata;
pub mod slippage;
pub mod natspec;
pub mod boolean;

use vstd::prelude::*;
use crate::violation::{RuleViolation, ViolationSeverity};

verus! {

/// A rule over the items of a parsed Rust source file.
pub trait Rule {
    /// Stable rule name.
    fn name(&self) -> &str;

    /// What the rule checks.
    fn description(&self) -> &str;

    /// The findings for `ast`.
    fn check(&self, ast: &[syn::Item]) -> Vec<RuleViolation>;
}

/// A lint rule over the raw source text of a Soroban contract.
pub trait SorobanLintRule {
    /// Stable rule identifier.
    fn id(&self) -> &'static str;

    /// Short human-readable name.
    fn name(&self) -> &'static str;

    /// What the rule checks.
    fn description(&self) -> &'static str;

    /// The rule's default severity.
    fn severity(&self) -> ViolationSeverity;

    /// The findings for `source` (read from `file_path`), or `None` when there
    /// are none.
    fn check(&self, source: &str, file_path: &str) -> Option<Vec<RuleViolation>>;
}

} // verus!
