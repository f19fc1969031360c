//! Network validation rule.
//!
//! Detects contracts that lack network/environment validation. Soroban
//! contracts should validate they are running on the expected network to
//! prevent issues when deployed across different Stellar networks.

use vstd::prelude::*;
use crate::rules::SorobanLintRule;
use crate::text::{
    chars_of, contains_str, decimal, decimal_exec, find, find_sub, has_sub, join_lines_range,
    join_nl, line_views, lines, lines_exec, occurs_at, owned, push_chars, push_str, slice_chars,
    string_of, trim, trim_exec,
};
use crate::violation::{RuleViolation, ViolationSeverity, ViolationView, views, vview};

verus! {

/// Flags Soroban contracts that never check which network they run on.
pub struct NetworkValidationRule;

pub const NETWORK_RULE_ID: &'static str = "stellar-network-validation";

pub const ENV_DESCRIPTION: &'static str = "Contract uses Env but lacks network validation. This may cause issues across different Stellar networks (mainnet, testnet, futurenet).";

pub const ENV_SUGGESTION: &'static str = "Add network validation using `env.ledger().network_passphrase()` or check for expected network conditions. Example: `let network = env.ledger().network_passphrase(); assert!(network.to_bytes() == expected_network);`";

pub const FN_SUGGESTION: &'static str = "Add network validation at the beginning of the function to ensure it runs on the expected network";

pub const ADDRESS_DESCRIPTION: &'static str = "Contract creates or uses addresses without network validation. Addresses may differ across networks.";

pub const ADDRESS_SUGGESTION: &'static str = "Validate the network before creating or using addresses to ensure they're valid for the current network";

pub const IMPL_DESCRIPTION: &'static str = "Contract implementation lacks network environment validation. Consider adding checks to ensure correct behavior across Stellar networks.";

pub const IMPL_SUGGESTION: &'static str = "Implement network validation in constructor or critical functions. Use `env.ledger().network_passphrase()` to detect the current network.";

/// The source mentions the Soroban environment.
pub open spec fn uses_env(s: Seq<char>) -> bool {
    has_sub(s, "Env"@) || has_sub(s, "env."@)
}

/// Any of the markers that count as network validation for an `Env` user.
pub open spec fn has_network_validation(s: Seq<char>) -> bool {
    ||| has_sub(s, "get_network_passphrase"@)
    ||| has_sub(s, "network_passphrase"@)
    ||| has_sub(s, "is_testnet"@)
    ||| has_sub(s, "is_mainnet"@)
    ||| has_sub(s, "NETWORK"@)
    ||| has_sub(s, "Network"@)
    ||| has_sub(s, "env.ledger().network_passphrase()"@)
}

/// The line declares a function whose name suggests a sensitive operation.
pub open spec fn sensitive_fn_line(l: Seq<char>) -> bool {
    &&& (has_sub(l, "pub fn"@) || has_sub(l, "fn "@))
    &&& (has_sub(l, "transfer"@) || has_sub(l, "withdraw"@) || has_sub(l, "deposit"@) || has_sub(
        l,
        "mint"@,
    ) || has_sub(l, "burn"@) || has_sub(l, "swap"@))
}

/// The line takes an `Env` parameter.
pub open spec fn has_env_param(l: Seq<char>) -> bool {
    has_sub(l, "env: Env"@) || has_sub(l, "env: &Env"@)
}

/// The up-to-20 lines starting at line index `i`, joined with `\n`.
pub open spec fn window(ls: Seq<Seq<char>>, i: int) -> Seq<char> {
    join_nl(ls.subrange(i, if i + 20 <= ls.len() { i + 20 } else { ls.len() as int }))
}

/// The window holds a passphrase or network check.
pub open spec fn window_checks_network(w: Seq<char>) -> bool {
    has_sub(w, "network_passphrase"@) || has_sub(w, "get_network_passphrase"@) || has_sub(
        w,
        "is_testnet"@,
    ) || has_sub(w, "is_mainnet"@)
}

/// What `extract_function_name` gives for a line.
pub open spec fn fn_name_of(line: Seq<char>) -> Seq<char> {
    match find_sub(line, "fn "@) {
        Some(i) => {
            let after = line.skip(i + 3);
            match find_sub(after, "("@) {
                Some(p) => trim(after.take(p)),
                None => "unknown"@,
            }
        },
        None => "unknown"@,
    }
}

/// The finding for a sensitive function on line index `i`, if any.
pub open spec fn fn_violation(ls: Seq<Seq<char>>, i: int, file_path: Seq<char>) -> Seq<
    ViolationView,
> {
    if sensitive_fn_line(ls[i]) && has_env_param(ls[i]) && !window_checks_network(window(ls, i)) {
        seq![
            vview(
                NETWORK_RULE_ID@,
                "Function '"@ + fn_name_of(ls[i]) + "' at line "@ + decimal((i + 1) as nat)
                    + " performs sensitive operations without network validation"@,
                ViolationSeverity::Medium,
                i + 1,
                0,
                file_path,
                FN_SUGGESTION@,
            ),
        ]
    } else {
        seq![]
    }
}

/// Findings for sensitive functions on the first `n` lines.
pub open spec fn fn_violations(ls: Seq<Seq<char>>, n: int, file_path: Seq<char>) -> Seq<
    ViolationView,
>
    decreases n,
{
    if n <= 0 {
        seq![]
    } else {
        fn_violations(ls, n - 1, file_path) + fn_violation(ls, n - 1, file_path)
    }
}

/// The whole-file finding for an `Env` user without network validation.
pub open spec fn env_violation(s: Seq<char>, file_path: Seq<char>) -> Seq<ViolationView> {
    if uses_env(s) && !has_network_validation(s) {
        seq![
            vview(
                NETWORK_RULE_ID@,
                ENV_DESCRIPTION@,
                ViolationSeverity::High,
                1,
                0,
                file_path,
                ENV_SUGGESTION@,
            ),
        ]
    } else {
        seq![]
    }
}

/// The finding for address creation without a network check.
pub open spec fn address_violation(s: Seq<char>, file_path: Seq<char>) -> Seq<ViolationView> {
    if (has_sub(s, "Address::from"@) || has_sub(s, "Address::generate"@)) && !(has_sub(
        s,
        "network_passphrase"@,
    ) || has_sub(s, "is_testnet"@) || has_sub(s, "is_mainnet"@)) {
        seq![
            vview(
                NETWORK_RULE_ID@,
                ADDRESS_DESCRIPTION@,
                ViolationSeverity::Medium,
                1,
                0,
                file_path,
                ADDRESS_SUGGESTION@,
            ),
        ]
    } else {
        seq![]
    }
}

/// The finding for a contract implementation without any network check,
/// given only when no other finding was made.
pub open spec fn impl_violation(s: Seq<char>, file_path: Seq<char>, none_before: bool) -> Seq<
    ViolationView,
> {
    if has_sub(s, "#[contractimpl]"@) && !(has_sub(s, "network_passphrase"@) || has_sub(
        s,
        "ledger().network"@,
    ) || has_sub(s, "is_testnet"@) || has_sub(s, "is_mainnet"@) || has_sub(s, "NETWORK"@))
        && none_before {
        seq![
            vview(
                NETWORK_RULE_ID@,
                IMPL_DESCRIPTION@,
                ViolationSeverity::Low,
                1,
                0,
                file_path,
                IMPL_SUGGESTION@,
            ),
        ]
    } else {
        seq![]
    }
}

/// Every finding of the rule for `s`, in the order the rule reports them.
pub open spec fn network_violations(s: Seq<char>, file_path: Seq<char>) -> Seq<ViolationView> {
    let ls = lines(s);
    let first = env_violation(s, file_path) + fn_violations(ls, ls.len() as int, file_path)
        + address_violation(s, file_path);
    first + impl_violation(s, file_path, first.len() == 0)
}

/// The name of the function declared on `line`, or `unknown`.
pub fn extract_function_name(line: &str) -> (r: String)
    ensures
        r@ == fn_name_of(line@),
{
    let l = chars_of(line);
    let f = chars_of("fn ");
    match find(&l, &f) {
        Some(i) => {
            let n = l.len();
            proof {
                reveal_strlit("fn ");
            }
            assert(i + 3 <= n);
            let after = slice_chars(&l, i + 3, n);
            let p = chars_of("(");
            match find(&after, &p) {
                Some(k) => {
                    assert(k <= after@.len());
                    let name = slice_chars(&after, 0, k);
                    let t = trim_exec(&name);
                    string_of(&t)
                },
                None => owned("unknown"),
            }
        },
        None => owned("unknown"),
    }
}

fn violation(
    description: String,
    suggestion: &str,
    severity: ViolationSeverity,
    line_number: usize,
    file_path: &str,
) -> (r: RuleViolation)
    ensures
        r@ == vview(
            NETWORK_RULE_ID@,
            description@,
            severity,
            line_number as int,
            0,
            file_path@,
            suggestion@,
        ),
{
    RuleViolation {
        rule_name: owned(NETWORK_RULE_ID),
        description,
        severity,
        line_number,
        column_number: 0,
        variable_name: owned(file_path),
        suggestion: owned(suggestion),
    }
}

impl NetworkValidationRule {
    /// The findings for sensitive functions, line by line.
    fn function_findings(ls: &Vec<Vec<char>>, file_path: &str) -> (r: Vec<RuleViolation>)
        ensures
            views(r@) == fn_violations(line_views(ls@), ls@.len() as int, file_path@),
    {
        let ghost lv = line_views(ls@);
        let mut out: Vec<RuleViolation> = Vec::new();
        let mut i: usize = 0;
        while i < ls.len()
            invariant
                i <= ls@.len(),
                lv == line_views(ls@),
                views(out@) == fn_violations(lv, i as int, file_path@),
            decreases ls.len() - i,
        {
            let line = &ls[i];
            assert(lv[i as int] == line@);
            let ghost before = views(out@);
            let sensitive = (contains_str(line, "pub fn") || contains_str(line, "fn ")) && (
            contains_str(line, "transfer") || contains_str(line, "withdraw") || contains_str(
                line,
                "deposit",
            ) || contains_str(line, "mint") || contains_str(line, "burn") || contains_str(
                line,
                "swap",
            ));
            if sensitive {
                let has_env = contains_str(line, "env: Env") || contains_str(line, "env: &Env");
                if has_env {
                    let end = if ls.len() - i >= 20 {
                        i + 20
                    } else {
                        ls.len()
                    };
                    let w = join_lines_range(ls, i, end);
                    assert(w@ == window(lv, i as int));
                    if !(contains_str(&w, "network_passphrase") || contains_str(
                        &w,
                        "get_network_passphrase",
                    ) || contains_str(&w, "is_testnet") || contains_str(&w, "is_mainnet")) {
                        let mut d: Vec<char> = Vec::new();
                        push_str(&mut d, "Function '");
                        let name = extract_function_name(string_of(line).as_str());
                        let nc = chars_of(name.as_str());
                        push_chars(&mut d, &nc);
                        push_str(&mut d, "' at line ");
                        let num = decimal_exec(i + 1);
                        push_chars(&mut d, &num);
                        push_str(
                            &mut d,
                            " performs sensitive operations without network validation",
                        );
                        let v = violation(
                            string_of(&d),
                            FN_SUGGESTION,
                            ViolationSeverity::Medium,
                            i + 1,
                            file_path,
                        );
                        out.push(v);
                        proof {
                            assert(views(out@) =~= before + fn_violation(lv, i as int, file_path@));
                        }
                    }
                }
            }
            i += 1;
            proof {
                assert(views(out@) =~= fn_violations(lv, i as int, file_path@));
            }
        }
        out
    }
}

impl SorobanLintRule for NetworkValidationRule {
    fn id(&self) -> (r: &'static str)
        ensures
            r@ == NETWORK_RULE_ID@,
    {
        NETWORK_RULE_ID
    }

    fn name(&self) -> (r: &'static str)
        ensures
            r@ == "Stellar Network Validation"@,
    {
        "Stellar Network Validation"
    }

    fn description(&self) -> (r: &'static str)
        ensures
            r@ == "Detects contracts lacking network/environment validation. Contracts may behave incorrectly across networks."@,
    {
        "Detects contracts lacking network/environment validation. Contracts may behave incorrectly across networks."
    }

    fn severity(&self) -> (r: ViolationSeverity)
        ensures
            r == ViolationSeverity::High,
    {
        ViolationSeverity::High
    }

    fn check(&self, source: &str, file_path: &str) -> (r: Option<Vec<RuleViolation>>)
        ensures
            match r {
                Some(v) => views(v@) == network_violations(source@, file_path@) && v@.len() > 0,
                None => network_violations(source@, file_path@).len() == 0,
            },
    {
        let s = chars_of(source);
        let mut violations: Vec<RuleViolation> = Vec::new();
        if contains_str(&s, "Env") || contains_str(&s, "env.") {
            let has_network_validation = contains_str(&s, "get_network_passphrase")
                || contains_str(&s, "network_passphrase") || contains_str(&s, "is_testnet")
                || contains_str(&s, "is_mainnet") || contains_str(&s, "NETWORK") || contains_str(
                &s,
                "Network",
            ) || contains_str(&s, "env.ledger().network_passphrase()");
            if !has_network_validation {
                violations.push(
                    violation(
                        owned(ENV_DESCRIPTION),
                        ENV_SUGGESTION,
                        self.severity(),
                        1,
                        file_path,
                    ),
                );
            }
        }
        let ghost a = views(violations@);
        assert(a =~= env_violation(source@, file_path@));
        let ls = lines_exec(&s);
        let fv = Self::function_findings(&ls, file_path);
        crate::violation::append_all(&mut violations, fv);
        let ghost b = views(violations@);
        if contains_str(&s, "Address::from") || contains_str(&s, "Address::generate") {
            let has_network_check = contains_str(&s, "network_passphrase") || contains_str(
                &s,
                "is_testnet",
            ) || contains_str(&s, "is_mainnet");
            if !has_network_check {
                violations.push(
                    violation(
                        owned(ADDRESS_DESCRIPTION),
                        ADDRESS_SUGGESTION,
                        ViolationSeverity::Medium,
                        1,
                        file_path,
                    ),
                );
            }
        }
        let ghost c = views(violations@);
        assert(c =~= b + address_violation(source@, file_path@));
        if contains_str(&s, "#[contractimpl]") {
            let has_any_network_check = contains_str(&s, "network_passphrase") || contains_str(
                &s,
                "ledger().network",
            ) || contains_str(&s, "is_testnet") || contains_str(&s, "is_mainnet") || contains_str(
                &s,
                "NETWORK",
            );
            if !has_any_network_check {
                if violations.len() == 0 {
                    violations.push(
                        violation(
                            owned(IMPL_DESCRIPTION),
                            IMPL_SUGGESTION,
                            ViolationSeverity::Low,
                            1,
                            file_path,
                        ),
                    );
                }
            }
        }
        proof {
            assert(views(violations@) =~= network_violations(source@, file_path@));
        }
        if violations.len() == 0 {
            None
        } else {
            Some(violations)
        }
    }
}

} // verus!
