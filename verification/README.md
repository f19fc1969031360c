# gasguard

Static-analysis rules for smart-contract sources (Solidity, Vyper and Soroban
Rust), written in Verus: every rule's findings, the parsers, the rule
dependency graph and the fix engine carry contracts that Verus proves.

Layout:

- `src/text.rs` — character-level text primitives (`contains`, `lines`,
  `trim`, `split`, `replace`, ...) with their meaning stated over `Seq<char>`.
- `src/violation.rs` — findings and their views.
- `src/rules/` — the rules: text rules over Solidity and Soroban sources,
  syntax-tree rules over `UnifiedAST`, and item rules over `syn` items
  (`rules/syntax.rs` holds the `syn` accessors they rely on).
- `src/ast.rs`, `src/parsers/` — the language-neutral syntax tree and the
  line-based parsers that build it (patterns compiled with `regex`).
- `src/engine.rs` — rule dependency graph: cycle detection and dependency
  order, with laws relating them.
- `src/pipeline.rs` — running a pipeline's rules in that order, each with
  the outputs of the rules before it.
- `src/autofix.rs` — which fixes are safe, what each does, conflict
  screening, and fixes applied to a source text.
- `src/metrics.rs`, `src/plugin.rs` — gas accounting and the plugin
  input/output types.
- `src/property.rs`, `src/token.rs` — property-token message dispatch and
  token error codes.
- `app/` — file I/O, JSON, floating-point scores and dynamic rule objects on
  top of the library.
