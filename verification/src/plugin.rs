//! The plugin interface every analysis rule implements, and the standard
//! inputs and outputs that pass between rules and the session driver.

use vstd::prelude::*;
use std::collections::HashMap;

verus! {

/// Supported smart contract / source languages.
#[derive(Debug, Clone, Copy, PartialEq, Eq, Hash, Structural)]
pub enum Language {
    Solidity,
    Rust,
    Vyper,
}

/// Severity of a rule finding, from least to most serious.
#[derive(Debug, Clone, Copy, PartialEq, Eq, PartialOrd, Ord, Structural)]
pub enum Severity {
    Info,
    Warning,
    Error,
    Critical,
}

/// A single diagnostic finding produced by a rule.
#[derive(Debug, Clone)]
pub struct Finding {
    /// Unique rule identifier, e.g. "SOL-001".
    pub rule_id: String,
    pub severity: Severity,
    /// Human-readable description of the issue.
    pub message: String,
    /// Path to the file containing the issue.
    pub file: String,
    /// 1-based line number.
    pub line: u32,
    /// Optional column offset.
    pub column: Option<u32>,
    /// Optional suggested fix snippet.
    pub suggestion: Option<String>,
}

/// Metadata every rule must expose.
#[derive(Debug, Clone)]
pub struct RuleMeta {
    /// Stable unique identifier.
    pub id: &'static str,
    /// Short human-readable name.
    pub name: &'static str,
    /// Detailed description of what the rule checks.
    pub description: &'static str,
    /// Languages this rule applies to.
    pub languages: &'static [Language],
    pub default_severity: Severity,
}

/// Contextual configuration passed to a rule before analysis begins.
#[derive(Debug, Clone)]
pub struct RuleConfig {
    /// Arbitrary key-value options (mirrors JSON/TOML config).
    pub options: HashMap<String, String>,
}

impl Default for RuleConfig {
    fn default() -> (r: Self)
        ensures
            r.options@ == Map::<String, String>::empty(),
    {
        RuleConfig { options: HashMap::new() }
    }
}

/// The unified base trait every GasGuard rule implements.
///
/// Lifecycle order:
///   1. `on_init`  – called once when the rule is loaded into the registry.
///   2. `on_start` – called once per analysis session before any file is seen.
///   3. `analyze`  – called once per file.
///   4. `on_end`   – called after all files have been processed; collect
///                   cross-file findings here.
///   5. `on_teardown` – cleanup; called even if analysis fails.
pub trait BaseRule {
    /// The rule's identity.
    fn meta(&self) -> &RuleMeta;

    /// Initialise internal state. Return `Err` to abort registration.
    fn on_init(&mut self, config: &RuleConfig) -> (r: Result<(), String>)
        default_ensures
            r is Ok,
    {
        Ok(())
    }

    /// Called once at the beginning of a new analysis session.
    fn on_start(&mut self) {
    }

    /// Analyse a single source file.
    fn analyze(&self, file_path: &str, source: &str) -> Vec<Finding>;

    /// Called after every file has been analysed; emits cross-file findings.
    fn on_end(&mut self) -> (r: Vec<Finding>)
        default_ensures
            r@.len() == 0,
    {
        Vec::new()
    }

    /// Final cleanup. Always called, even on error.
    fn on_teardown(&mut self) {
    }
}

/// `serde_json::Value`, carried through unread.
#[verifier::external_type_specification]
#[verifier::external_body]
pub struct ExJsonValue(serde_json::Value);

/// Everything a rule receives when analysing a single file.
#[derive(Debug, Clone)]
pub struct AnalysisInput {
    /// Absolute or workspace-relative file path.
    pub file_path: String,
    /// Full UTF-8 source content.
    pub source: String,
    /// Parsed AST as a JSON value; rules that need no AST ignore it.
    pub ast: Option<serde_json::Value>,
    /// Arbitrary metadata (e.g. compiler version, import graph).
    pub metadata: HashMap<String, String>,
}

impl AnalysisInput {
    /// An input with no AST and no metadata.
    pub fn new(file_path: &str, source: &str) -> (r: Self)
        ensures
            r.file_path@ == file_path@,
            r.source@ == source@,
            r.ast is None,
            r.metadata@ == Map::<String, String>::empty(),
    {
        AnalysisInput {
            file_path: crate::text::owned(file_path),
            source: crate::text::owned(source),
            ast: None,
            metadata: HashMap::new(),
        }
    }

    /// The same input carrying `ast`.
    pub fn with_ast(self, ast: serde_json::Value) -> (r: Self)
        ensures
            r.ast == Some(ast),
            r.file_path == self.file_path,
            r.source == self.source,
            r.metadata == self.metadata,
    {
        let mut s = self;
        s.ast = Some(ast);
        s
    }

    /// The same input with one more metadata entry (an earlier value for the
    /// key is replaced).
    pub fn with_meta(self, key: String, value: String) -> (r: Self)
        ensures
            r.file_path == self.file_path,
            r.source == self.source,
            r.ast == self.ast,
            vstd::std_specs::hash::obeys_key_model::<String>()
                && vstd::std_specs::hash::builds_valid_hashers::<std::hash::RandomState>()
                ==> r.metadata@ == self.metadata@.insert(key, value),
    {
        let mut s = self;
        s.metadata.insert(key, value);
        s
    }
}

/// The structured result of running one rule on one file.
#[derive(Debug, Clone)]
pub struct AnalysisOutput {
    /// Which rule produced this output.
    pub rule_id: String,
    /// File that was analysed.
    pub file_path: String,
    /// All findings discovered.
    pub findings: Vec<Finding>,
    /// Whether the rule completed successfully.
    pub success: bool,
    /// Optional diagnostic message when `success == false`.
    pub error: Option<String>,
}

impl AnalysisOutput {
    /// A successful run with its findings.
    pub fn ok(rule_id: &str, file_path: &str, findings: Vec<Finding>) -> (r: Self)
        ensures
            r.rule_id@ == rule_id@,
            r.file_path@ == file_path@,
            r.findings@ == findings@,
            r.success,
            r.error is None,
    {
        AnalysisOutput {
            rule_id: crate::text::owned(rule_id),
            file_path: crate::text::owned(file_path),
            findings,
            success: true,
            error: None,
        }
    }

    /// A failed run with its diagnostic message.
    pub fn err(rule_id: &str, file_path: &str, msg: &str) -> (r: Self)
        ensures
            r.rule_id@ == rule_id@,
            r.file_path@ == file_path@,
            r.findings@.len() == 0,
            !r.success,
            r.error matches Some(m) && m@ == msg@,
    {
        AnalysisOutput {
            rule_id: crate::text::owned(rule_id),
            file_path: crate::text::owned(file_path),
            findings: Vec::new(),
            success: false,
            error: Some(crate::text::owned(msg)),
        }
    }

    /// Whether there are no findings.
    pub fn is_clean(&self) -> (r: bool)
        ensures
            r == (self.findings@.len() == 0),
    {
        self.findings.len() == 0
    }
}

/// Collected results for an entire analysis session.
#[derive(Debug)]
pub struct SessionOutput {
    pub outputs: Vec<AnalysisOutput>,
}

impl Default for SessionOutput {
    fn default() -> (r: Self)
        ensures
            r.outputs@ == Seq::<AnalysisOutput>::empty(),
    {
        SessionOutput { outputs: Vec::new() }
    }
}

/// The number of findings in the first `n` outputs.
pub open spec fn findings_upto(os: Seq<AnalysisOutput>, n: int) -> int
    decreases n,
{
    if n <= 0 {
        0
    } else {
        findings_upto(os, n - 1) + os[n - 1].findings@.len()
    }
}

/// The findings of the first `n` outputs, flattened in order.
pub open spec fn flat_findings(os: Seq<AnalysisOutput>, n: int) -> Seq<Finding>
    decreases n,
{
    if n <= 0 {
        seq![]
    } else {
        flat_findings(os, n - 1) + os[n - 1].findings@
    }
}

/// The findings behind a list of references.
pub open spec fn derefs(s: Seq<&Finding>) -> Seq<Finding> {
    s.map_values(|f: &Finding| *f)
}

/// Every output of the first `n` succeeded with no findings.
pub open spec fn all_clean(os: Seq<AnalysisOutput>) -> bool {
    forall|i: int|
        0 <= i < os.len() ==> (#[trigger] os[i]).findings@.len() == 0 && os[i].success
}

proof fn lemma_flat_len(os: Seq<AnalysisOutput>, n: int)
    requires
        0 <= n <= os.len(),
    ensures
        flat_findings(os, n).len() == findings_upto(os, n),
        findings_upto(os, n) >= 0,
    decreases n,
{
    if n > 0 {
        lemma_flat_len(os, n - 1);
    }
}

proof fn lemma_findings_mono(os: Seq<AnalysisOutput>, n: int, m: int)
    requires
        0 <= n <= m <= os.len(),
    ensures
        findings_upto(os, n) <= findings_upto(os, m),
    decreases m,
{
    if n < m {
        lemma_findings_mono(os, n, m - 1);
    }
}

impl SessionOutput {
    /// The total number of findings, as a mathematical sum.
    pub open spec fn total_findings(&self) -> int {
        findings_upto(self.outputs@, self.outputs@.len() as int)
    }

    /// Records one rule's output.
    pub fn push(&mut self, output: AnalysisOutput)
        ensures
            final(self).outputs@ == old(self).outputs@.push(output),
    {
        self.outputs.push(output);
    }

    /// Flatten all findings across every file and rule.
    pub fn all_findings(&self) -> (r: Vec<&Finding>)
        ensures
            derefs(r@) == flat_findings(self.outputs@, self.outputs@.len() as int),
    {
        let mut out: Vec<&Finding> = Vec::new();
        let mut i: usize = 0;
        while i < self.outputs.len()
            invariant
                i <= self.outputs@.len(),
                derefs(out@) == flat_findings(self.outputs@, i as int),
            decreases self.outputs.len() - i,
        {
            let o = &self.outputs[i];
            let ghost before = derefs(out@);
            let mut j: usize = 0;
            while j < o.findings.len()
                invariant
                    j <= o.findings@.len(),
                    derefs(out@) == before + o.findings@.take(j as int),
                decreases o.findings.len() - j,
            {
                let ghost prev = out@;
                let f = &o.findings[j];
                assert(*f == o.findings@[j as int]);
                out.push(f);
                assert(derefs(out@) =~= derefs(prev).push(o.findings@[j as int]));
                assert(o.findings@.take(j + 1) =~= o.findings@.take(j as int).push(
                    o.findings@[j as int],
                ));
                j += 1;
                assert(derefs(out@) =~= before + o.findings@.take(j as int));
            }
            assert(o.findings@.take(j as int) =~= o.findings@);
            i += 1;
        }
        out
    }

    /// Total number of findings.
    pub fn finding_count(&self) -> (r: usize)
        requires
            self.total_findings() <= usize::MAX,
        ensures
            r == self.total_findings(),
    {
        let mut total: usize = 0;
        let mut i: usize = 0;
        while i < self.outputs.len()
            invariant
                i <= self.outputs@.len(),
                total == findings_upto(self.outputs@, i as int),
                self.total_findings() <= usize::MAX,
            decreases self.outputs.len() - i,
        {
            proof {
                lemma_findings_mono(self.outputs@, i + 1, self.outputs@.len() as int);
                lemma_flat_len(self.outputs@, i as int);
            }
            total = total + self.outputs[i].findings.len();
            i += 1;
        }
        total
    }

    /// `true` when every output succeeded with zero findings.
    pub fn is_clean(&self) -> (r: bool)
        ensures
            r == all_clean(self.outputs@),
    {
        let mut i: usize = 0;
        while i < self.outputs.len()
            invariant
                i <= self.outputs@.len(),
                forall|k: int|
                    0 <= k < i ==> (#[trigger] self.outputs@[k]).findings@.len() == 0
                        && self.outputs@[k].success,
            decreases self.outputs.len() - i,
        {
            if !(self.outputs[i].is_clean() && self.outputs[i].success) {
                return false;
            }
            i += 1;
        }
        true
    }
}

/// The flattened findings are exactly as many as the count reports.
pub proof fn law_all_findings_matches_count(s: SessionOutput)
    ensures
        flat_findings(s.outputs@, s.outputs@.len() as int).len() == s.total_findings(),
{
    lemma_flat_len(s.outputs@, s.outputs@.len() as int);
}

/// A clean session has no findings at all.
pub proof fn law_clean_means_no_findings(s: SessionOutput)
    requires
        all_clean(s.outputs@),
    ensures
        s.total_findings() == 0,
{
    lemma_clean_zero(s.outputs@, s.outputs@.len() as int);
}

proof fn lemma_clean_zero(os: Seq<AnalysisOutput>, n: int)
    requires
        0 <= n <= os.len(),
        all_clean(os),
    ensures
        findings_upto(os, n) == 0,
    decreases n,
{
    if n > 0 {
        lemma_clean_zero(os, n - 1);
        assert(os[n - 1].findings@.len() == 0);
    }
}

/// Recording an output adds its findings to the session's count.
pub proof fn law_push_adds_findings(s: SessionOutput, o: AnalysisOutput)
    ensures
        findings_upto(s.outputs@.push(o), s.outputs@.len() + 1int) == s.total_findings()
            + o.findings@.len(),
{
    lemma_findings_prefix(s.outputs@, o, s.outputs@.len() as int);
}

proof fn lemma_findings_prefix(os: Seq<AnalysisOutput>, o: AnalysisOutput, n: int)
    requires
        0 <= n <= os.len(),
    ensures
        findings_upto(os.push(o), n) == findings_upto(os, n),
    decreases n,
{
    if n > 0 {
        lemma_findings_prefix(os, o, n - 1);
        assert(os.push(o)[n - 1] == os[n - 1]);
    }
}

} // verus!
