//! GasGuard: static analysis rules for smart-contract sources, with their
//! text scanning, rule bookkeeping and gas accounting proved correct.

pub mod text;

pub mod violation;
pub mod rules;
pub mod soroban;
pub mod metrics;
pub mod plugin;
pub mod ast;
pub mod engine;
pub mod autofix;
pub mod parsers;
pub mod property;
pub mod token;
pub mod pipeline;
