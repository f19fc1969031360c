//! Stellar SDK usage rules: authorization around `Address` and typed
//! `BytesN` / `Map` usage.

use vstd::prelude::*;
use crate::rules::SorobanLintRule;
use crate::rules::soroban_lint::{as_option_matches, file_finding, into_option};
use crate::text::{chars_of, contains_str, has_sub, line_views, lines, lines_exec, window_exec, window_of};
use crate::violation::{make_violation, RuleViolation, ViolationSeverity, ViolationView, views, vview};

verus! {

/// Ensures proper usage of Stellar SDK components.
pub struct SdkUsageRule;

/// Ensures functions that take an `Address` validate the caller.
pub struct AddressValidationRule;

pub const SDK_RULE_ID: &'static str = "stellar-sdk-usage";

pub const ADDRESS_RULE_ID: &'static str = "stellar-address-validation";

/// Every finding of `SdkUsageRule` for `s`. (The rule's per-line check for a
/// `Map<` without type parameters can never fire: it requires a text that both
/// contains and does not contain `Map<`.)
pub open spec fn sdk_violations(s: Seq<char>, file_path: Seq<char>) -> Seq<ViolationView> {
    (if has_sub(s, "Address"@) && !has_sub(s, "require_auth"@) && !has_sub(
        s,
        "require_auth_for_args"@,
    ) {
        file_finding(
            SDK_RULE_ID@,
            "Contract uses Address type without authorization checks"@,
            "Add require_auth() or require_auth_for_args() for Address parameters"@,
            ViolationSeverity::High,
            file_path,
        )
    } else {
        seq![]
    }) + (if has_sub(s, "BytesN"@) && !has_sub(s, "BytesN::<"@) {
        file_finding(
            SDK_RULE_ID@,
            "BytesN used without explicit length specification"@,
            "Use BytesN::<N> with explicit length for type safety"@,
            ViolationSeverity::Warning,
            file_path,
        )
    } else {
        seq![]
    })
}

/// The finding of `AddressValidationRule` for line index `i`.
pub open spec fn address_finding(ls: Seq<Seq<char>>, i: int, file_path: Seq<char>) -> Seq<
    ViolationView,
> {
    let w = window_of(ls, i, 15);
    if has_sub(ls[i], "Address"@) && (has_sub(ls[i], "pub fn"@) || has_sub(ls[i], "fn "@))
        && !has_sub(w, "require_auth"@) && !has_sub(w, "require_auth_for_args"@) && !has_sub(
        w,
        "try_from_xdr"@,
    ) {
        seq![
            vview(
                ADDRESS_RULE_ID@,
                "Function with Address parameter lacks authorization validation"@,
                ViolationSeverity::High,
                i + 1,
                0,
                file_path,
                "Add require_auth() or require_auth_for_args() to validate caller"@,
            ),
        ]
    } else {
        seq![]
    }
}

/// The findings of `AddressValidationRule` over the first `n` lines.
pub open spec fn address_findings(ls: Seq<Seq<char>>, n: int, file_path: Seq<char>) -> Seq<
    ViolationView,
>
    decreases n,
{
    if n <= 0 {
        seq![]
    } else {
        address_findings(ls, n - 1, file_path) + address_finding(ls, n - 1, file_path)
    }
}

impl SorobanLintRule for SdkUsageRule {
    fn id(&self) -> (r: &'static str)
        ensures
            r@ == SDK_RULE_ID@,
    {
        SDK_RULE_ID
    }

    fn name(&self) -> (r: &'static str)
        ensures
            r@ == "Stellar SDK Usage"@,
    {
        "Stellar SDK Usage"
    }

    fn description(&self) -> (r: &'static str)
        ensures
            r@ == "Ensures proper usage of Stellar SDK components and types"@,
    {
        "Ensures proper usage of Stellar SDK components and types"
    }

    fn severity(&self) -> (r: ViolationSeverity)
        ensures
            r == ViolationSeverity::Medium,
    {
        ViolationSeverity::Medium
    }

    fn check(&self, source: &str, file_path: &str) -> (r: Option<Vec<RuleViolation>>)
        ensures
            as_option_matches(r, sdk_violations(source@, file_path@)),
    {
        let s = chars_of(source);
        let mut violations: Vec<RuleViolation> = Vec::new();
        if contains_str(&s, "Address") && !contains_str(&s, "require_auth") && !contains_str(
            &s,
            "require_auth_for_args",
        ) {
            violations.push(
                make_violation(
                    SDK_RULE_ID,
                    "Contract uses Address type without authorization checks",
                    ViolationSeverity::High,
                    1,
                    0,
                    file_path,
                    "Add require_auth() or require_auth_for_args() for Address parameters",
                ),
            );
        }
        if contains_str(&s, "BytesN") && !contains_str(&s, "BytesN::<") {
            violations.push(
                make_violation(
                    SDK_RULE_ID,
                    "BytesN used without explicit length specification",
                    ViolationSeverity::Warning,
                    1,
                    0,
                    file_path,
                    "Use BytesN::<N> with explicit length for type safety",
                ),
            );
        }
        let ghost head = views(violations@);
        if contains_str(&s, "Map<") && !contains_str(&s, "Map<") {
            let ls = lines_exec(&s);
            let mut i: usize = 0;
            while i < ls.len()
                invariant
                    i <= ls@.len(),
                    views(violations@) == head,
                decreases ls.len() - i,
            {
                let line = &ls[i];
                if contains_str(line, "Map<") && !contains_str(line, "Map<") {
                    violations.push(
                        make_violation(
                            SDK_RULE_ID,
                            "Map used without explicit type parameters",
                            ViolationSeverity::Warning,
                            i + 1,
                            0,
                            file_path,
                            "Use Map<Key, Value> with explicit type parameters",
                        ),
                    );
                }
                i += 1;
            }
        }
        proof {
            assert(views(violations@) =~= sdk_violations(source@, file_path@));
        }
        into_option(violations)
    }
}

impl SorobanLintRule for AddressValidationRule {
    fn id(&self) -> (r: &'static str)
        ensures
            r@ == ADDRESS_RULE_ID@,
    {
        ADDRESS_RULE_ID
    }

    fn name(&self) -> (r: &'static str)
        ensures
            r@ == "Stellar Address Validation"@,
    {
        "Stellar Address Validation"
    }

    fn description(&self) -> (r: &'static str)
        ensures
            r@ == "Ensures proper validation of Stellar addresses in contract functions"@,
    {
        "Ensures proper validation of Stellar addresses in contract functions"
    }

    fn severity(&self) -> (r: ViolationSeverity)
        ensures
            r == ViolationSeverity::High,
    {
        ViolationSeverity::High
    }

    fn check(&self, source: &str, file_path: &str) -> (r: Option<Vec<RuleViolation>>)
        ensures
            as_option_matches(
                r,
                address_findings(lines(source@), lines(source@).len() as int, file_path@),
            ),
    {
        let s = chars_of(source);
        let ls = lines_exec(&s);
        let ghost lv = line_views(ls@);
        let mut violations: Vec<RuleViolation> = Vec::new();
        let mut i: usize = 0;
        while i < ls.len()
            invariant
                i <= ls@.len(),
                lv == line_views(ls@),
                views(violations@) == address_findings(lv, i as int, file_path@),
            decreases ls.len() - i,
        {
            let line = &ls[i];
            assert(lv[i as int] == line@);
            let ghost before = views(violations@);
            if contains_str(line, "Address") && (contains_str(line, "pub fn") || contains_str(
                line,
                "fn ",
            )) {
                let next_lines = window_exec(&ls, i, 15);
                if !contains_str(&next_lines, "require_auth") && !contains_str(
                    &next_lines,
                    "require_auth_for_args",
                ) && !contains_str(&next_lines, "try_from_xdr") {
                    violations.push(
                        make_violation(
                            ADDRESS_RULE_ID,
                            "Function with Address parameter lacks authorization validation",
                            self.severity(),
                            i + 1,
                            0,
                            file_path,
                            "Add require_auth() or require_auth_for_args() to validate caller",
                        ),
                    );
                }
            }
            i += 1;
            proof {
                assert(views(violations@) =~= address_findings(lv, i as int, file_path@));
            }
        }
        into_option(violations)
    }
}

} // verus!
