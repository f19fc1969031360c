//! Soroban-specific linting rules: contract macros, `Env` parameters and
//! storage patterns.

use vstd::prelude::*;
use crate::rules::SorobanLintRule;
use crate::text::{
    chars_of, contains_str, count_matches, count_sub, has_sub, line_views, lines, lines_exec,
    window_exec, window_of,
};
use crate::violation::{make_violation, RuleViolation, ViolationSeverity, ViolationView, views, vview};

verus! {

/// Ensures proper use of the Soroban contract macros.
pub struct ContractMacroRule;

/// Ensures the `Env` parameter is present where storage is touched.
pub struct EnvParameterRule;

/// Checks storage access patterns.
pub struct StoragePatternRule;

pub const MACRO_RULE_ID: &'static str = "soroban-contract-macro";

pub const ENV_RULE_ID: &'static str = "soroban-env-parameter";

pub const STORAGE_RULE_ID: &'static str = "soroban-storage-pattern";

/// A whole-file finding at line 1.
pub open spec fn file_finding(
    id: Seq<char>,
    description: Seq<char>,
    suggestion: Seq<char>,
    severity: ViolationSeverity,
    file_path: Seq<char>,
) -> Seq<ViolationView> {
    seq![vview(id, description, severity, 1, 0, file_path, suggestion)]
}

/// The findings of the duplicate-attribute scan over the first `n` lines.
pub open spec fn duplicate_impl_findings(ls: Seq<Seq<char>>, n: int, file_path: Seq<char>) -> Seq<
    ViolationView,
>
    decreases n,
{
    if n <= 0 {
        seq![]
    } else {
        duplicate_impl_findings(ls, n - 1, file_path) + if count_sub(
            ls[n - 1],
            "#[contractimpl]"@,
        ) > 1 {
            seq![
                vview(
                    MACRO_RULE_ID@,
                    "Duplicate #[contractimpl] attribute detected"@,
                    ViolationSeverity::Critical,
                    n,
                    0,
                    file_path,
                    "Remove duplicate #[contractimpl] attributes"@,
                ),
            ]
        } else {
            seq![]
        }
    }
}

/// Every finding of `ContractMacroRule` for `s`.
pub open spec fn macro_violations(s: Seq<char>, file_path: Seq<char>) -> Seq<ViolationView> {
    (if !has_sub(s, "soroban_sdk"@) {
        file_finding(
            MACRO_RULE_ID@,
            "Soroban contracts should import soroban_sdk"@,
            "Add `use soroban_sdk::{contract, contractimpl, contracttype};`"@,
            ViolationSeverity::High,
            file_path,
        )
    } else {
        seq![]
    }) + (if has_sub(s, "#[contractimpl]"@) && !has_sub(s, "#[contracttype]"@) {
        file_finding(
            MACRO_RULE_ID@,
            "Contract uses #[contractimpl] but missing #[contracttype]"@,
            "Define contract state struct with #[contracttype] macro"@,
            ViolationSeverity::High,
            file_path,
        )
    } else {
        seq![]
    }) + duplicate_impl_findings(lines(s), lines(s).len() as int, file_path)
}

/// The finding of `EnvParameterRule` for line index `i`.
pub open spec fn env_param_finding(ls: Seq<Seq<char>>, i: int, file_path: Seq<char>) -> Seq<
    ViolationView,
> {
    if has_sub(ls[i], "pub fn"@) && !has_sub(ls[i], "Env"@) && i + 1 < ls.len() && (has_sub(
        window_of(ls, i, 10),
        ".set("@,
    ) || has_sub(window_of(ls, i, 10), ".put("@)) {
        seq![
            vview(
                ENV_RULE_ID@,
                "Function performs storage operations but lacks Env parameter"@,
                ViolationSeverity::Medium,
                i + 1,
                0,
                file_path,
                "Add `env: &Env` parameter to function signature"@,
            ),
        ]
    } else {
        seq![]
    }
}

/// The findings of `EnvParameterRule` over the first `n` lines.
pub open spec fn env_param_findings(ls: Seq<Seq<char>>, n: int, file_path: Seq<char>) -> Seq<
    ViolationView,
>
    decreases n,
{
    if n <= 0 {
        seq![]
    } else {
        env_param_findings(ls, n - 1, file_path) + env_param_finding(ls, n - 1, file_path)
    }
}

/// Every finding of `StoragePatternRule` for `s`.
pub open spec fn storage_violations(s: Seq<char>, file_path: Seq<char>) -> Seq<ViolationView> {
    (if has_sub(s, "Persistent"@) && !has_sub(s, "StorageKey"@) {
        file_finding(
            STORAGE_RULE_ID@,
            "Using Persistent storage without StorageKey"@,
            "Use StorageKey for type-safe storage key management"@,
            ViolationSeverity::Medium,
            file_path,
        )
    } else {
        seq![]
    }) + (if has_sub(s, "Instance"@) && !has_sub(s, "new("@) {
        file_finding(
            STORAGE_RULE_ID@,
            "Using Instance storage without initialization"@,
            "Initialize Instance storage with `Instance::new(&env, key)`"@,
            ViolationSeverity::Warning,
            file_path,
        )
    } else {
        seq![]
    })
}

/// `None` for no findings, else the findings.
pub open spec fn as_option_matches(r: Option<Vec<RuleViolation>>, expected: Seq<ViolationView>) -> bool {
    match r {
        Some(v) => views(v@) == expected && v@.len() > 0,
        None => expected.len() == 0,
    }
}

/// Wraps a findings list as the rules report it.
pub fn into_option(v: Vec<RuleViolation>) -> (r: Option<Vec<RuleViolation>>)
    ensures
        as_option_matches(r, views(v@)),
{
    if v.len() == 0 {
        None
    } else {
        Some(v)
    }
}

impl SorobanLintRule for ContractMacroRule {
    fn id(&self) -> (r: &'static str)
        ensures
            r@ == MACRO_RULE_ID@,
    {
        MACRO_RULE_ID
    }

    fn name(&self) -> (r: &'static str)
        ensures
            r@ == "Soroban Contract Macro Usage"@,
    {
        "Soroban Contract Macro Usage"
    }

    fn description(&self) -> (r: &'static str)
        ensures
            r@ == "Ensures proper use of #[contract], #[contractimpl], and #[contracttype] macros"@,
    {
        "Ensures proper use of #[contract], #[contractimpl], and #[contracttype] macros"
    }

    fn severity(&self) -> (r: ViolationSeverity)
        ensures
            r == ViolationSeverity::High,
    {
        ViolationSeverity::High
    }

    fn check(&self, source: &str, file_path: &str) -> (r: Option<Vec<RuleViolation>>)
        ensures
            as_option_matches(r, macro_violations(source@, file_path@)),
    {
        let s = chars_of(source);
        let mut violations: Vec<RuleViolation> = Vec::new();
        if !contains_str(&s, "soroban_sdk") {
            violations.push(
                make_violation(
                    MACRO_RULE_ID,
                    "Soroban contracts should import soroban_sdk",
                    self.severity(),
                    1,
                    0,
                    file_path,
                    "Add `use soroban_sdk::{contract, contractimpl, contracttype};`",
                ),
            );
        }
        if contains_str(&s, "#[contractimpl]") && !contains_str(&s, "#[contracttype]") {
            violations.push(
                make_violation(
                    MACRO_RULE_ID,
                    "Contract uses #[contractimpl] but missing #[contracttype]",
                    ViolationSeverity::High,
                    1,
                    0,
                    file_path,
                    "Define contract state struct with #[contracttype] macro",
                ),
            );
        }
        let ghost head = views(violations@);
        let ls = lines_exec(&s);
        let ghost lv = line_views(ls@);
        let attr = chars_of("#[contractimpl]");
        proof {
            reveal_strlit("#[contractimpl]");
        }
        let mut i: usize = 0;
        while i < ls.len()
            invariant
                i <= ls@.len(),
                lv == line_views(ls@),
                attr@ == "#[contractimpl]"@,
                attr@.len() > 0,
                views(violations@) == head + duplicate_impl_findings(lv, i as int, file_path@),
            decreases ls.len() - i,
        {
            assert(lv[i as int] == ls@[i as int]@);
            let ghost before = views(violations@);
            let cnt = count_matches(&ls[i], &attr);
            assert(cnt == count_sub(lv[i as int], "#[contractimpl]"@));
            if cnt > 1 {
                violations.push(
                    make_violation(
                        MACRO_RULE_ID,
                        "Duplicate #[contractimpl] attribute detected",
                        ViolationSeverity::Critical,
                        i + 1,
                        0,
                        file_path,
                        "Remove duplicate #[contractimpl] attributes",
                    ),
                );
                assert(views(violations@) =~= before.push(
                    vview(
                        MACRO_RULE_ID@,
                        "Duplicate #[contractimpl] attribute detected"@,
                        ViolationSeverity::Critical,
                        i + 1,
                        0,
                        file_path@,
                        "Remove duplicate #[contractimpl] attributes"@,
                    ),
                ));
            } else {
                assert(views(violations@) =~= before);
            }
            i += 1;
            proof {
                assert(duplicate_impl_findings(lv, i as int, file_path@) =~= duplicate_impl_findings(
                    lv,
                    i - 1,
                    file_path@,
                ) + (if count_sub(lv[i - 1], "#[contractimpl]"@) > 1 {
                    seq![
                        vview(
                            MACRO_RULE_ID@,
                            "Duplicate #[contractimpl] attribute detected"@,
                            ViolationSeverity::Critical,
                            i as int,
                            0,
                            file_path@,
                            "Remove duplicate #[contractimpl] attributes"@,
                        ),
                    ]
                } else {
                    seq![]
                }));
                assert(views(violations@) =~= head + duplicate_impl_findings(
                    lv,
                    i as int,
                    file_path@,
                ));
            }
        }
        proof {
            assert(views(violations@) =~= macro_violations(source@, file_path@));
        }
        into_option(violations)
    }
}

impl SorobanLintRule for EnvParameterRule {
    fn id(&self) -> (r: &'static str)
        ensures
            r@ == ENV_RULE_ID@,
    {
        ENV_RULE_ID
    }

    fn name(&self) -> (r: &'static str)
        ensures
            r@ == "Soroban Env Parameter Usage"@,
    {
        "Soroban Env Parameter Usage"
    }

    fn description(&self) -> (r: &'static str)
        ensures
            r@ == "Ensures Env parameter is properly used in contract functions"@,
    {
        "Ensures Env parameter is properly used in contract functions"
    }

    fn severity(&self) -> (r: ViolationSeverity)
        ensures
            r == ViolationSeverity::Medium,
    {
        ViolationSeverity::Medium
    }

    fn check(&self, source: &str, file_path: &str) -> (r: Option<Vec<RuleViolation>>)
        ensures
            as_option_matches(
                r,
                env_param_findings(lines(source@), lines(source@).len() as int, file_path@),
            ),
    {
        let s = chars_of(source);
        let ls = lines_exec(&s);
        let ghost lv = line_views(ls@);
        let mut violations: Vec<RuleViolation> = Vec::new();
        let mut i: usize = 0;
        while i < ls.len()
            invariant
                i <= ls@.len(),
                lv == line_views(ls@),
                views(violations@) == env_param_findings(lv, i as int, file_path@),
            decreases ls.len() - i,
        {
            let line = &ls[i];
            assert(lv[i as int] == line@);
            let ghost before = views(violations@);
            if contains_str(line, "pub fn") && !contains_str(line, "Env") {
                if i + 1 < ls.len() {
                    let next_lines = window_exec(&ls, i, 10);
                    if contains_str(&next_lines, ".set(") || contains_str(&next_lines, ".put(") {
                        violations.push(
                            make_violation(
                                ENV_RULE_ID,
                                "Function performs storage operations but lacks Env parameter",
                                self.severity(),
                                i + 1,
                                0,
                                file_path,
                                "Add `env: &Env` parameter to function signature",
                            ),
                        );
                    }
                }
            }
            i += 1;
            proof {
                assert(views(violations@) =~= env_param_findings(lv, i as int, file_path@));
            }
        }
        into_option(violations)
    }
}

impl SorobanLintRule for StoragePatternRule {
    fn id(&self) -> (r: &'static str)
        ensures
            r@ == STORAGE_RULE_ID@,
    {
        STORAGE_RULE_ID
    }

    fn name(&self) -> (r: &'static str)
        ensures
            r@ == "Soroban Storage Pattern"@,
    {
        "Soroban Storage Pattern"
    }

    fn description(&self) -> (r: &'static str)
        ensures
            r@ == "Checks for proper storage access patterns in Soroban contracts"@,
    {
        "Checks for proper storage access patterns in Soroban contracts"
    }

    fn severity(&self) -> (r: ViolationSeverity)
        ensures
            r == ViolationSeverity::Medium,
    {
        ViolationSeverity::Medium
    }

    fn check(&self, source: &str, file_path: &str) -> (r: Option<Vec<RuleViolation>>)
        ensures
            as_option_matches(r, storage_violations(source@, file_path@)),
    {
        let s = chars_of(source);
        let mut violations: Vec<RuleViolation> = Vec::new();
        if contains_str(&s, "Persistent") && !contains_str(&s, "StorageKey") {
            violations.push(
                make_violation(
                    STORAGE_RULE_ID,
                    "Using Persistent storage without StorageKey",
                    self.severity(),
                    1,
                    0,
                    file_path,
                    "Use StorageKey for type-safe storage key management",
                ),
            );
        }
        if contains_str(&s, "Instance") && !contains_str(&s, "new(") {
            violations.push(
                make_violation(
                    STORAGE_RULE_ID,
                    "Using Instance storage without initialization",
                    ViolationSeverity::Warning,
                    1,
                    0,
                    file_path,
                    "Initialize Instance storage with `Instance::new(&env, key)`",
                ),
            );
        }
        proof {
            assert(views(violations@) =~= storage_violations(source@, file_path@));
        }
        into_option(violations)
    }
}

} // verus!
