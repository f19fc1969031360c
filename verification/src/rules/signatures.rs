//! Detect missing signature domain separation (EIP-712).
//!
//! Flags ECDSA signature verification without EIP-712 domain separation,
//! which enables replay attacks across chains or contracts, and reports the
//! parts of an EIP-712 setup that are missing when one is present.

use vstd::prelude::*;
use crate::rules::syntax::{item_token_text, token_texts};
use crate::text::{chars_of, contains_str, has_sub, push_chars, push_str, string_of, string_views};
use crate::violation::{
    RuleViolation, ViolationSeverity, ViolationView, append_all, concat_over, make_violation,
    views, vview,
};

verus! {

pub const DOMAIN_RULE_NAME: &'static str = "missing-domain-separation";

pub const MISSING_DOMAIN_DESCRIPTION: &'static str = "Signature verification detected without EIP-712 domain separation. This enables replay attacks.";

pub const MISSING_DOMAIN_SUGGESTION: &'static str = "Implement EIP-712 domain separation by: 1. Define DOMAIN_TYPEHASH constant 2. Compute domainSeparator including chainId 3. Include domainSeparator in message hash 4. Verify signature against the domain-separated hash. See https://eips.ethereum.org/EIPS/eip-712";

pub const INCOMPLETE_PREFIX: &'static str = "Incomplete EIP-712 domain separation: ";

pub const INCOMPLETE_SUGGESTION: &'static str = "Ensure complete EIP-712 implementation: include chainId, address, and version in domain separator calculation.";

pub const ISSUE_TYPEHASH: &'static str = "Missing DOMAIN_TYPEHASH constant";

pub const ISSUE_SEPARATOR: &'static str = "Missing domainSeparator variable or computation";

pub const ISSUE_MESSAGE_TYPE: &'static str = "Incomplete EIP-712 message type configuration";

pub const ISSUE_CHAIN_ID: &'static str = "Domain separator may not include chain ID (potential cross-chain replay vulnerability)";

/// Finds signature verification without (complete) EIP-712 domain separation.
pub struct MissingDomainSeparationRule;

/// `code` verifies a signature: it mentions `ecrecover`, `ECDSA.recover`,
/// `signature`, `_recover` or `recoverSigner`.
pub open spec fn signature_verification_spec(code: Seq<char>) -> bool {
    ||| has_sub(code, "ecrecover"@)
    ||| has_sub(code, "ECDSA.recover"@)
    ||| has_sub(code, "signature"@)
    ||| has_sub(code, "_recover"@)
    ||| has_sub(code, "recoverSigner"@)
}

/// `code` has EIP-712 domain separation: it mentions `DOMAIN_TYPEHASH`,
/// `domainSeparator`, `domain_separator`, `DOMAIN_SEPARATOR` or
/// `EIP712DOMAIN`.
pub open spec fn domain_separation_spec(code: Seq<char>) -> bool {
    ||| has_sub(code, "DOMAIN_TYPEHASH"@)
    ||| has_sub(code, "domainSeparator"@)
    ||| has_sub(code, "domain_separator"@)
    ||| has_sub(code, "DOMAIN_SEPARATOR"@)
    ||| has_sub(code, "EIP712DOMAIN"@)
}

/// `seq![x]` when `b` holds, else the empty sequence.
pub open spec fn when(b: bool, x: Seq<char>) -> Seq<Seq<char>> {
    if b {
        seq![x]
    } else {
        seq![]
    }
}

/// The EIP-712 issues of `code`, in the order they are checked.
pub open spec fn eip712_issues(code: Seq<char>) -> Seq<Seq<char>> {
    when(
        has_sub(code, "ecrecover"@) && !has_sub(code, "DOMAIN_TYPEHASH"@),
        ISSUE_TYPEHASH@,
    ) + when(
        has_sub(code, "ecrecover"@) && !has_sub(code, "DOMAIN_SEPARATOR"@) && !has_sub(
            code,
            "domainSeparator"@,
        ) && !has_sub(code, "domain_separator"@),
        ISSUE_SEPARATOR@,
    ) + when(
        has_sub(code, "keccak256(abi.encode"@) && !has_sub(code, "TYPEHASH"@),
        ISSUE_MESSAGE_TYPE@,
    ) + when(
        has_sub(code, "DOMAIN_SEPARATOR"@) && !has_sub(code, "block.chainid"@) && !has_sub(
            code,
            "chainid()"@,
        ),
        ISSUE_CHAIN_ID@,
    )
}

/// The finding for one incomplete-configuration issue.
pub open spec fn incomplete_view(issue: Seq<char>) -> ViolationView {
    vview(
        DOMAIN_RULE_NAME@,
        INCOMPLETE_PREFIX@ + issue,
        ViolationSeverity::High,
        0,
        0,
        "eip712_config"@,
        INCOMPLETE_SUGGESTION@,
    )
}

/// The findings for the text of one item.
pub open spec fn domain_findings(code: Seq<char>) -> Seq<ViolationView> {
    if !signature_verification_spec(code) {
        seq![]
    } else if !domain_separation_spec(code) {
        seq![
            vview(
                DOMAIN_RULE_NAME@,
                MISSING_DOMAIN_DESCRIPTION@,
                ViolationSeverity::Critical,
                0,
                0,
                "signature_verification"@,
                MISSING_DOMAIN_SUGGESTION@,
            ),
        ]
    } else {
        eip712_issues(code).map_values(|i: Seq<char>| incomplete_view(i))
    }
}

/// `domain_findings` as a function value.
pub open spec fn domain_findings_fn() -> spec_fn(Seq<char>) -> Seq<ViolationView> {
    |t: Seq<char>| domain_findings(t)
}

fn push_when(out: &mut Vec<String>, b: bool, s: &str)
    ensures
        string_views(final(out)@) == string_views(old(out)@) + when(b, s@),
{
    if b {
        out.push(crate::text::owned(s));
    }
    proof {
        assert(string_views(out@) =~= string_views(old(out)@) + when(b, s@));
    }
}

impl MissingDomainSeparationRule {
    /// Whether `code` contains a signature verification pattern.
    pub fn has_signature_verification(code: &str) -> (r: bool)
        ensures
            r == signature_verification_spec(code@),
    {
        let cs = chars_of(code);
        contains_str(&cs, "ecrecover") || contains_str(&cs, "ECDSA.recover") || contains_str(
            &cs,
            "signature",
        ) || contains_str(&cs, "_recover") || contains_str(&cs, "recoverSigner")
    }

    /// Whether `code` contains an EIP-712 domain separation pattern.
    pub fn has_domain_separation(code: &str) -> (r: bool)
        ensures
            r == domain_separation_spec(code@),
    {
        let cs = chars_of(code);
        contains_str(&cs, "DOMAIN_TYPEHASH") || contains_str(&cs, "domainSeparator")
            || contains_str(&cs, "domain_separator") || contains_str(&cs, "DOMAIN_SEPARATOR")
            || contains_str(&cs, "EIP712DOMAIN")
    }

    /// The missing parts of an EIP-712 configuration in `code`.
    pub fn check_incomplete_eip712(code: &str) -> (r: Vec<String>)
        ensures
            string_views(r@) == eip712_issues(code@),
    {
        let cs = chars_of(code);
        let mut issues: Vec<String> = Vec::new();
        let ecrecover = contains_str(&cs, "ecrecover");
        let b1 = ecrecover && !contains_str(&cs, "DOMAIN_TYPEHASH");
        push_when(&mut issues, b1, ISSUE_TYPEHASH);
        let b2 = ecrecover && !contains_str(&cs, "DOMAIN_SEPARATOR") && !contains_str(
            &cs,
            "domainSeparator",
        ) && !contains_str(&cs, "domain_separator");
        push_when(&mut issues, b2, ISSUE_SEPARATOR);
        let b3 = contains_str(&cs, "keccak256(abi.encode") && !contains_str(&cs, "TYPEHASH");
        push_when(&mut issues, b3, ISSUE_MESSAGE_TYPE);
        let b4 = contains_str(&cs, "DOMAIN_SEPARATOR") && !contains_str(&cs, "block.chainid")
            && !contains_str(&cs, "chainid()");
        push_when(&mut issues, b4, ISSUE_CHAIN_ID);
        proof {
            assert(string_views(issues@) =~= eip712_issues(code@));
        }
        issues
    }

    /// The findings for the printed text of one item.
    pub fn check_item_text(&self, token_str: &str) -> (r: Vec<RuleViolation>)
        ensures
            views(r@) == domain_findings(token_str@),
    {
        let mut violations: Vec<RuleViolation> = Vec::new();
        if !Self::has_signature_verification(token_str) {
            return violations;
        }
        if !Self::has_domain_separation(token_str) {
            violations.push(
                make_violation(
                    DOMAIN_RULE_NAME,
                    MISSING_DOMAIN_DESCRIPTION,
                    ViolationSeverity::Critical,
                    0,
                    0,
                    "signature_verification",
                    MISSING_DOMAIN_SUGGESTION,
                ),
            );
            proof {
                assert(views(violations@) =~= domain_findings(token_str@));
            }
            return violations;
        }
        let issues = Self::check_incomplete_eip712(token_str);
        let ghost is = eip712_issues(token_str@);
        let mut i: usize = 0;
        while i < issues.len()
            invariant
                i <= issues@.len(),
                string_views(issues@) == is,
                views(violations@) == is.take(i as int).map_values(
                    |x: Seq<char>| incomplete_view(x),
                ),
            decreases issues.len() - i,
        {
            let mut d: Vec<char> = Vec::new();
            push_str(&mut d, INCOMPLETE_PREFIX);
            let issue = chars_of(issues[i].as_str());
            push_chars(&mut d, &issue);
            let description = string_of(&d);
            let v = RuleViolation {
                rule_name: crate::text::owned(DOMAIN_RULE_NAME),
                description,
                severity: ViolationSeverity::High,
                line_number: 0,
                column_number: 0,
                variable_name: crate::text::owned("eip712_config"),
                suggestion: crate::text::owned(INCOMPLETE_SUGGESTION),
            };
            let ghost before = views(violations@);
            violations.push(v);
            proof {
                assert(is[i as int] == issues@[i as int]@);
                assert(views(violations@) =~= before.push(incomplete_view(is[i as int])));
                assert(is.take(i + 1) =~= is.take(i as int).push(is[i as int]));
                assert(views(violations@) =~= is.take(i + 1).map_values(
                    |x: Seq<char>| incomplete_view(x),
                ));
            }
            i += 1;
        }
        proof {
            assert(is.take(i as int) =~= is);
        }
        violations
    }
}

impl crate::rules::Rule for MissingDomainSeparationRule {
    fn name(&self) -> (r: &str)
        ensures
            r@ == DOMAIN_RULE_NAME@,
    {
        DOMAIN_RULE_NAME
    }

    fn description(&self) -> (r: &str)
        ensures
            r@ == "Detects signatures lacking proper EIP-712 domain separation. Missing domain separation enables replay attacks across different chains or contract contexts."@,
    {
        "Detects signatures lacking proper EIP-712 domain separation. Missing domain separation enables replay attacks across different chains or contract contexts."
    }

    /// Checks the printed tokens of each item; the findings are those of
    /// `check_item_text` over the items' token texts, in item order.
    fn check(&self, ast: &[syn::Item]) -> (r: Vec<RuleViolation>)
        ensures
            views(r@) == concat_over(token_texts(ast@), domain_findings_fn()),
    {
        let mut violations: Vec<RuleViolation> = Vec::new();
        let mut i: usize = 0;
        while i < ast.len()
            invariant
                i <= ast@.len(),
                views(violations@) == concat_over(token_texts(ast@.take(i as int)), domain_findings_fn()),
            decreases ast.len() - i,
        {
            let token_str = item_token_text(&ast[i]);
            let more = self.check_item_text(token_str.as_str());
            append_all(&mut violations, more);
            proof {
                let ts = token_texts(ast@.take(i as int + 1));
                assert(ts.drop_last() =~= token_texts(ast@.take(i as int)));
                assert(ts.last() == token_str@);
            }
            i += 1;
        }
        assert(ast@.take(ast@.len() as int) =~= ast@);
        violations
    }
}


/// Law: a critical finding is reported exactly for signature verification
/// with no domain separation at all; otherwise every finding is a
/// high-severity report of an incomplete configuration.
pub proof fn law_critical_only_without_domain(code: Seq<char>)
    ensures
        forall|k: int|
            0 <= k < domain_findings(code).len() ==> ((#[trigger] domain_findings(code)[k]).severity
                == ViolationSeverity::Critical <==> !domain_separation_spec(code)),
        signature_verification_spec(code) && !domain_separation_spec(code) ==> domain_findings(
            code,
        ).len() == 1,
        !signature_verification_spec(code) ==> domain_findings(code).len() == 0,
{
}


/// Law: an item text that verifies a signature by any of the recognised
/// calls (`ecrecover`, `ECDSA.recover`, a `signature`, `_recover`,
/// `recoverSigner`) and mentions none of the domain-separation markers
/// (`DOMAIN_TYPEHASH`, `domainSeparator`, `domain_separator`,
/// `DOMAIN_SEPARATOR`, `EIP712DOMAIN`) gets exactly one finding, the
/// critical missing-domain-separation one. Where a marker is present, no
/// finding is critical.
pub proof fn law_signature_without_domain_is_critical(code: Seq<char>)
    ensures
        (has_sub(code, "ecrecover"@) || has_sub(code, "ECDSA.recover"@) || has_sub(code, "signature"@)
            || has_sub(code, "_recover"@) || has_sub(code, "recoverSigner"@)) && !has_sub(
            code,
            "DOMAIN_TYPEHASH"@,
        ) && !has_sub(code, "domainSeparator"@) && !has_sub(code, "domain_separator"@) && !has_sub(
            code,
            "DOMAIN_SEPARATOR"@,
        ) && !has_sub(code, "EIP712DOMAIN"@) ==> domain_findings(code) == seq![
            vview(
                "missing-domain-separation"@,
                "Signature verification detected without EIP-712 domain separation. This enables replay attacks."@,
                ViolationSeverity::Critical,
                0,
                0,
                "signature_verification"@,
                MISSING_DOMAIN_SUGGESTION@,
            ),
        ],
        has_sub(code, "DOMAIN_TYPEHASH"@) || has_sub(code, "domainSeparator"@) || has_sub(
            code,
            "domain_separator"@,
        ) || has_sub(code, "DOMAIN_SEPARATOR"@) || has_sub(code, "EIP712DOMAIN"@) ==> forall|k: int|
            0 <= k < domain_findings(code).len() ==> (#[trigger] domain_findings(code)[k]).severity
                == ViolationSeverity::High,
{
    assert(DOMAIN_RULE_NAME@ == "missing-domain-separation"@);
    assert(MISSING_DOMAIN_DESCRIPTION@
        == "Signature verification detected without EIP-712 domain separation. This enables replay attacks."@);
}

} // verus!
