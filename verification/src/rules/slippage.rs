//! Detect missing slippage validation in DeFi operations.
//!
//! Functions whose names suggest a swap, trade or liquidity operation must
//! take a parameter that bounds slippage (`min_out`, `limit`, ...); without
//! one, callers are exposed to front-running and sandwich attacks.

use vstd::prelude::*;
use crate::rules::syntax::{
    fn_signature, impl_item_signature, item_as_fn, item_impl_items, signature_name,
    signature_param_names, opt_views, fn_sig, impl_item_sig, impl_items_of, item_fn_of, sig_name,
    sig_param_names,
};
use crate::text::{chars_of, concat3, contains_str, has_sub, owned, to_lowercase, unicode_lowercase};
use crate::violation::{RuleViolation, ViolationSeverity, ViolationView, append_all, views, vview};

verus! {

pub const SLIPPAGE_RULE_NAME: &'static str = "missing-slippage-validation";

pub const SLIPPAGE_DESCRIPTION_START: &'static str = "Function '";

pub const SLIPPAGE_DESCRIPTION_END: &'static str = "' lacks a slippage protection parameter (e.g., min_amount_out).";

pub const SLIPPAGE_SUGGESTION: &'static str = "Add a slippage limit parameter to protect against front-running and sandwich attacks.";

/// Flags DeFi operations without a slippage-limit parameter.
pub struct MissingSlippageValidationRule;

/// A function name that signals a trading or liquidity operation: in
/// lowercase it contains `swap`, `trade`, `exchange`, `add_liquidity`,
/// `remove_liquidity`, `buy` or `sell`.
pub open spec fn is_defi_spec(name: Seq<char>) -> bool {
    defi_name_lower(unicode_lowercase(name))
}

/// A lowercased function name that signals a trading or liquidity
/// operation.
pub open spec fn defi_name_lower(n: Seq<char>) -> bool {
    ||| has_sub(n, "swap"@)
    ||| has_sub(n, "trade"@)
    ||| has_sub(n, "exchange"@)
    ||| has_sub(n, "add_liquidity"@)
    ||| has_sub(n, "remove_liquidity"@)
    ||| has_sub(n, "buy"@)
    ||| has_sub(n, "sell"@)
}

/// A parameter name that bounds slippage: in lowercase it contains
/// `min_amount`, `min_out`, `limit`, `slippage`, `min_recv` or
/// `amount_out_min`.
pub open spec fn is_slippage_name(name: Seq<char>) -> bool {
    slippage_name_lower(unicode_lowercase(name))
}

/// A lowercased parameter name that bounds slippage.
pub open spec fn slippage_name_lower(n: Seq<char>) -> bool {
    ||| has_sub(n, "min_amount"@)
    ||| has_sub(n, "min_out"@)
    ||| has_sub(n, "limit"@)
    ||| has_sub(n, "slippage"@)
    ||| has_sub(n, "min_recv"@)
    ||| has_sub(n, "amount_out_min"@)
}

/// A parameter bound by a plain identifier whose name bounds slippage.
pub open spec fn is_slippage_param(p: Option<Seq<char>>) -> bool {
    match p {
        Some(n) => is_slippage_name(n),
        None => false,
    }
}

/// Some parameter bound by a plain identifier has a slippage name.
pub open spec fn has_slippage_spec(params: Seq<Option<Seq<char>>>) -> bool {
    exists|i: int| 0 <= i < params.len() && #[trigger] is_slippage_param(params[i])
}

/// The finding for a function `name` with parameters `params`, if any.
pub open spec fn slippage_finding(name: Seq<char>, params: Seq<Option<Seq<char>>>) -> Seq<
    ViolationView,
> {
    if is_defi_spec(name) && !has_slippage_spec(params) {
        seq![
            vview(
                SLIPPAGE_RULE_NAME@,
                SLIPPAGE_DESCRIPTION_START@ + name + SLIPPAGE_DESCRIPTION_END@,
                ViolationSeverity::High,
                0,
                0,
                name,
                SLIPPAGE_SUGGESTION@,
            ),
        ]
    } else {
        seq![]
    }
}

/// The findings for a list of functions, each given by its name and
/// parameter names, in order.
pub open spec fn slippage_over(fs: Seq<(Seq<char>, Seq<Option<Seq<char>>>)>) -> Seq<ViolationView>
    decreases fs.len(),
{
    if fs.len() == 0 {
        seq![]
    } else {
        slippage_over(fs.drop_last()) + slippage_finding(fs.last().0, fs.last().1)
    }
}

/// A signature as the rule reads it: its name and its parameter names.
pub open spec fn sig_entry(s: syn::Signature) -> (Seq<char>, Seq<Option<Seq<char>>>) {
    (sig_name(s), sig_param_names(s))
}

/// The signatures of the functions among the items of an `impl` block.
pub open spec fn impl_entries(iis: Seq<syn::ImplItem>) -> Seq<(Seq<char>, Seq<Option<Seq<char>>>)>
    decreases iis.len(),
{
    if iis.len() == 0 {
        seq![]
    } else {
        impl_entries(iis.drop_last()) + match impl_item_sig(iis.last()) {
            Some(s) => seq![sig_entry(s)],
            None => seq![],
        }
    }
}

/// The signatures that the rule reads in one item: that of a free function,
/// or those of the functions of an `impl` block; none in other items.
pub open spec fn item_entries(item: syn::Item) -> Seq<(Seq<char>, Seq<Option<Seq<char>>>)> {
    match item_fn_of(item) {
        Some(f) => seq![sig_entry(fn_sig(f))],
        None => match impl_items_of(item) {
            Some(iis) => impl_entries(iis),
            None => seq![],
        },
    }
}

/// The signatures that the rule reads in a list of items, in source order.
pub open spec fn items_entries(items: Seq<syn::Item>) -> Seq<(Seq<char>, Seq<Option<Seq<char>>>)>
    decreases items.len(),
{
    if items.len() == 0 {
        seq![]
    } else {
        items_entries(items.drop_last()) + item_entries(items.last())
    }
}

impl MissingSlippageValidationRule {
    /// Whether `name` names a trading or liquidity operation.
    pub fn is_defi_operation(name: &str) -> (r: bool)
        ensures
            r == is_defi_spec(name@),
    {
        let lower = to_lowercase(name);
        Self::is_defi_name_lower(lower.as_str())
    }

    /// Whether a lowercased name names a trading or liquidity operation.
    pub fn is_defi_name_lower(lower: &str) -> (r: bool)
        ensures
            r == defi_name_lower(lower@),
    {
        let n = chars_of(lower);
        contains_str(&n, "swap") || contains_str(&n, "trade") || contains_str(&n, "exchange")
            || contains_str(&n, "add_liquidity") || contains_str(&n, "remove_liquidity")
            || contains_str(&n, "buy") || contains_str(&n, "sell")
    }

    /// Whether `name` is a slippage-limit parameter name.
    fn is_slippage_parameter_name(name: &str) -> (r: bool)
        ensures
            r == is_slippage_name(name@),
    {
        let lower = to_lowercase(name);
        Self::is_slippage_name_lower(lower.as_str())
    }

    /// Whether a lowercased parameter name is a slippage limit.
    pub fn is_slippage_name_lower(lower: &str) -> (r: bool)
        ensures
            r == slippage_name_lower(lower@),
    {
        let n = chars_of(lower);
        contains_str(&n, "min_amount") || contains_str(&n, "min_out") || contains_str(&n, "limit")
            || contains_str(&n, "slippage") || contains_str(&n, "min_recv") || contains_str(
            &n,
            "amount_out_min",
        )
    }

    /// Whether one of the parameters (given by name, `None` for receivers
    /// and patterns) is a slippage limit.
    pub fn has_slippage_in_params(params: &[Option<String>]) -> (r: bool)
        ensures
            r == has_slippage_spec(opt_views(params@)),
    {
        let ghost pv = opt_views(params@);
        let mut i: usize = 0;
        while i < params.len()
            invariant
                i <= params@.len(),
                pv == opt_views(params@),
                forall|j: int| 0 <= j < i ==> !#[trigger] is_slippage_param(pv[j]),
            decreases params.len() - i,
        {
            match &params[i] {
                Some(n) => {
                    if Self::is_slippage_parameter_name(n.as_str()) {
                        assert(pv[i as int] == Some(n@));
                        assert(is_slippage_param(pv[i as int]));
                        return true;
                    }
                    assert(pv[i as int] == Some(n@));
                },
                None => {
                    assert(pv[i as int] is None);
                },
            }
            i += 1;
        }
        false
    }

    /// The finding for one function, given its name and parameter names.
    pub fn check_function(&self, fn_name: &str, params: &[Option<String>]) -> (r: Vec<
        RuleViolation,
    >)
        ensures
            views(r@) == slippage_finding(fn_name@, opt_views(params@)),
    {
        let mut out: Vec<RuleViolation> = Vec::new();
        if Self::is_defi_operation(fn_name) && !Self::has_slippage_in_params(params) {
            let n = chars_of(fn_name);
            out.push(
                RuleViolation {
                    rule_name: owned(SLIPPAGE_RULE_NAME),
                    description: concat3(SLIPPAGE_DESCRIPTION_START, &n, SLIPPAGE_DESCRIPTION_END),
                    severity: ViolationSeverity::High,
                    line_number: 0,
                    column_number: 0,
                    variable_name: owned(fn_name),
                    suggestion: owned(SLIPPAGE_SUGGESTION),
                },
            );
            proof {
                assert(views(out@) =~= slippage_finding(fn_name@, opt_views(params@)));
            }
        } else {
            assert(views(out@) =~= slippage_finding(fn_name@, opt_views(params@)));
        }
        out
    }
}

impl crate::rules::Rule for MissingSlippageValidationRule {
    fn name(&self) -> (r: &str)
        ensures
            r@ == SLIPPAGE_RULE_NAME@,
    {
        SLIPPAGE_RULE_NAME
    }

    fn description(&self) -> (r: &str)
        ensures
            r@ == "Detects DeFi operations (e.g., swaps or liquidity provision) lacking slippage limit parameters. Without slippage limits, transactions are vulnerable to front-running and sandwich attacks, potentially resulting in user fund loss."@,
    {
        "Detects DeFi operations (e.g., swaps or liquidity provision) lacking slippage limit parameters. Without slippage limits, transactions are vulnerable to front-running and sandwich attacks, potentially resulting in user fund loss."
    }

    /// Checks every free function and every function of an `impl` block; the
    /// findings are those of `check_function` over the functions' names and
    /// parameter names, in source order.
    fn check(&self, ast: &[syn::Item]) -> (r: Vec<RuleViolation>)
        ensures
            views(r@) == slippage_over(items_entries(ast@)),
    {
        let mut violations: Vec<RuleViolation> = Vec::new();
        let ghost mut fs: Seq<(Seq<char>, Seq<Option<Seq<char>>>)> = seq![];
        let mut i: usize = 0;
        while i < ast.len()
            invariant
                i <= ast@.len(),
                fs == items_entries(ast@.take(i as int)),
                views(violations@) == slippage_over(fs),
            decreases ast.len() - i,
        {
            let item = &ast[i];
            let ghost prefix = items_entries(ast@.take(i as int));
            proof {
                assert(ast@.take(i as int + 1).drop_last() =~= ast@.take(i as int));
                assert(items_entries(ast@.take(i as int + 1)) == prefix + item_entries(ast@[i as int]));
            }
            if let Some(item_fn) = item_as_fn(item) {
                let sig = fn_signature(item_fn);
                let fn_name = signature_name(sig);
                let params = signature_param_names(sig);
                let more = self.check_function(fn_name.as_str(), params.as_slice());
                let ghost before = fs;
                append_all(&mut violations, more);
                proof {
                    fs = fs.push((fn_name@, opt_views(params@)));
                    assert(fs.drop_last() =~= before);
                    assert(item_entries(ast@[i as int]) =~= seq![sig_entry(*sig)]);
                    assert(fs =~= prefix + item_entries(ast@[i as int]));
                }
            } else if let Some(impl_items) = item_impl_items(item) {
                let ghost iis = impl_items@;
                let mut k: usize = 0;
                while k < impl_items.len()
                    invariant
                        k <= impl_items@.len(),
                        iis == impl_items@,
                        fs == prefix + impl_entries(iis.take(k as int)),
                        views(violations@) == slippage_over(fs),
                    decreases impl_items.len() - k,
                {
                    proof {
                        assert(iis.take(k as int + 1).drop_last() =~= iis.take(k as int));
                    }
                    if let Some(sig) = impl_item_signature(&impl_items[k]) {
                        let fn_name = signature_name(sig);
                        let params = signature_param_names(sig);
                        let more = self.check_function(fn_name.as_str(), params.as_slice());
                        let ghost before = fs;
                        append_all(&mut violations, more);
                        proof {
                            fs = fs.push((fn_name@, opt_views(params@)));
                            assert(fs.drop_last() =~= before);
                            assert(impl_entries(iis.take(k as int + 1)) =~= impl_entries(
                                iis.take(k as int),
                            ) + seq![sig_entry(*sig)]);
                            assert(fs =~= prefix + impl_entries(iis.take(k as int + 1)));
                        }
                    } else {
                        proof {
                            assert(impl_entries(iis.take(k as int + 1)) =~= impl_entries(
                                iis.take(k as int),
                            ));
                        }
                    }
                    k += 1;
                }
                proof {
                    assert(iis.take(iis.len() as int) =~= iis);
                }
            } else {
                proof {
                    assert(fs =~= prefix + item_entries(ast@[i as int]));
                }
            }
            i += 1;
        }
        assert(ast@.take(ast@.len() as int) =~= ast@);
        violations
    }
}

} // verus!
