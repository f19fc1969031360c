//! Detect missing NatSpec documentation.
//!
//! Flags public functions that carry no documentation comment; poor
//! documentation reduces auditability and maintainability.

use vstd::prelude::*;
use crate::rules::syntax::{
    attribute_path, fn_attributes, fn_is_public, fn_signature, item_as_fn, path_is_ident,
    signature_name, attr_path, fn_attrs, fn_public, fn_sig, item_fn_of, path_ident_is, sig_name,
};
use crate::text::{chars_of, concat3, owned};
use crate::violation::{RuleViolation, ViolationSeverity, ViolationView, append_all, views, vview};

verus! {

pub const NATSPEC_RULE_NAME: &'static str = "missing-natspec";

pub const NATSPEC_DESCRIPTION_START: &'static str = "Public function `";

pub const NATSPEC_DESCRIPTION_END: &'static str = "` is missing NatSpec documentation.";

pub const NATSPEC_SUGGESTION: &'static str = "Add `/// @notice`, `/// @param`, and `/// @return` NatSpec comments above the function.";

/// Flags public functions without documentation comments.
pub struct MissingNatspecRule;

/// The finding for a function `name`, given whether it is public and
/// whether it has a doc attribute.
pub open spec fn natspec_finding(name: Seq<char>, is_public: bool, has_doc: bool) -> Seq<
    ViolationView,
> {
    if is_public && !has_doc {
        seq![
            vview(
                NATSPEC_RULE_NAME@,
                NATSPEC_DESCRIPTION_START@ + name + NATSPEC_DESCRIPTION_END@,
                ViolationSeverity::Low,
                0,
                0,
                name,
                NATSPEC_SUGGESTION@,
            ),
        ]
    } else {
        seq![]
    }
}

/// The findings for a list of free functions, each given by its name,
/// whether it is public and whether it is documented, in order.
pub open spec fn natspec_over(fs: Seq<(Seq<char>, bool, bool)>) -> Seq<ViolationView>
    decreases fs.len(),
{
    if fs.len() == 0 {
        seq![]
    } else {
        natspec_over(fs.drop_last()) + natspec_finding(fs.last().0, fs.last().1, fs.last().2)
    }
}

/// A function item has a `doc` attribute (a doc comment).
pub open spec fn fn_documented(f: syn::ItemFn) -> bool {
    exists|k: int|
        0 <= k < fn_attrs(f).len() && #[trigger] path_ident_is(attr_path(fn_attrs(f)[k]), "doc"@)
}

/// A free function as the rule reads it: its name, whether it is public and
/// whether it is documented.
pub open spec fn fn_entry(f: syn::ItemFn) -> (Seq<char>, bool, bool) {
    (sig_name(fn_sig(f)), fn_public(f), fn_documented(f))
}

/// The free functions among a list of items, in source order.
pub open spec fn natspec_entries(items: Seq<syn::Item>) -> Seq<(Seq<char>, bool, bool)>
    decreases items.len(),
{
    if items.len() == 0 {
        seq![]
    } else {
        natspec_entries(items.drop_last()) + match item_fn_of(items.last()) {
            Some(f) => seq![fn_entry(f)],
            None => seq![],
        }
    }
}

impl MissingNatspecRule {
    /// The finding for one free function.
    pub fn check_function(&self, fn_name: &str, is_public: bool, has_doc: bool) -> (r: Vec<
        RuleViolation,
    >)
        ensures
            views(r@) == natspec_finding(fn_name@, is_public, has_doc),
    {
        let mut out: Vec<RuleViolation> = Vec::new();
        if is_public && !has_doc {
            let n = chars_of(fn_name);
            out.push(
                RuleViolation {
                    rule_name: owned(NATSPEC_RULE_NAME),
                    description: concat3(NATSPEC_DESCRIPTION_START, &n, NATSPEC_DESCRIPTION_END),
                    severity: ViolationSeverity::Low,
                    line_number: 0,
                    column_number: 0,
                    variable_name: owned(fn_name),
                    suggestion: owned(NATSPEC_SUGGESTION),
                },
            );
        }
        proof {
            assert(views(out@) =~= natspec_finding(fn_name@, is_public, has_doc));
        }
        out
    }
}

impl crate::rules::Rule for MissingNatspecRule {
    fn name(&self) -> (r: &str)
        ensures
            r@ == NATSPEC_RULE_NAME@,
    {
        NATSPEC_RULE_NAME
    }

    fn description(&self) -> (r: &str)
        ensures
            r@ == "Detects public functions missing NatSpec documentation comments."@,
    {
        "Detects public functions missing NatSpec documentation comments."
    }

    /// Checks every free function; the findings are those of
    /// `check_function` over the functions' names, visibility and doc
    /// attributes, in source order.
    fn check(&self, ast: &[syn::Item]) -> (r: Vec<RuleViolation>)
        ensures
            views(r@) == natspec_over(natspec_entries(ast@)),
    {
        let mut violations: Vec<RuleViolation> = Vec::new();
        let ghost mut fs: Seq<(Seq<char>, bool, bool)> = seq![];
        let mut i: usize = 0;
        while i < ast.len()
            invariant
                i <= ast@.len(),
                fs == natspec_entries(ast@.take(i as int)),
                views(violations@) == natspec_over(fs),
            decreases ast.len() - i,
        {
            proof {
                assert(ast@.take(i as int + 1).drop_last() =~= ast@.take(i as int));
            }
            if let Some(func) = item_as_fn(&ast[i]) {
                let is_public = fn_is_public(func);
                let attrs = fn_attributes(func);
                let mut has_doc = false;
                let mut k: usize = 0;
                while k < attrs.len() && !has_doc
                    invariant
                        k <= attrs@.len(),
                        attrs@ == fn_attrs(*func),
                        has_doc ==> fn_documented(*func),
                        !has_doc ==> forall|j: int|
                            0 <= j < k ==> !#[trigger] path_ident_is(attr_path(attrs@[j]), "doc"@),
                    decreases attrs.len() - k,
                {
                    if path_is_ident(attribute_path(&attrs[k]), "doc") {
                        has_doc = true;
                        assert(path_ident_is(attr_path(attrs@[k as int]), "doc"@));
                    }
                    k += 1;
                }
                assert(has_doc == fn_documented(*func));
                let fn_name = signature_name(fn_signature(func));
                let more = self.check_function(fn_name.as_str(), is_public, has_doc);
                let ghost before = fs;
                append_all(&mut violations, more);
                proof {
                    fs = fs.push((fn_name@, is_public, has_doc));
                    assert(fs.drop_last() =~= before);
                    assert(fs =~= natspec_entries(ast@.take(i as int + 1)));
                }
            } else {
                proof {
                    assert(fs =~= natspec_entries(ast@.take(i as int + 1)));
                }
            }
            i += 1;
        }
        assert(ast@.take(ast@.len() as int) =~= ast@);
        violations
    }
}

} // verus!
