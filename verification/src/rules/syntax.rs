//! The parts of a parsed Rust file (`syn`) that the item-level rules read.
//!
//! `syn` values are opaque here: each accessor below makes one `syn` or
//! `quote` call and converts what it returns to plain values. What each one
//! returns is a function of its argument alone, and is named by an
//! uninterpreted spec function over the `syn` value; the rules state their
//! findings over those names.

use vstd::prelude::*;

verus! {

/// `syn::Item`, one top-level item of a parsed file.
#[verifier::external_type_specification]
#[verifier::external_body]
pub struct ExItem(syn::Item);

/// `syn::ItemFn`, a free function item.
#[verifier::external_type_specification]
#[verifier::external_body]
pub struct ExItemFn(syn::ItemFn);

/// `syn::ImplItem`, one item of an `impl` block.
#[verifier::external_type_specification]
#[verifier::external_body]
pub struct ExImplItem(syn::ImplItem);

/// `syn::Signature`, a function signature.
#[verifier::external_type_specification]
#[verifier::external_body]
pub struct ExSignature(syn::Signature);

/// `syn::Attribute`, one attribute (doc comments included).
#[verifier::external_type_specification]
#[verifier::external_body]
pub struct ExAttribute(syn::Attribute);

/// The text of an item printed as tokens.
pub uninterp spec fn item_tokens(item: syn::Item) -> Seq<char>;

/// The `Debug` rendering of an item.
pub uninterp spec fn item_debug(item: syn::Item) -> Seq<char>;

/// The function of an `Item::Fn`; `None` for other items.
pub uninterp spec fn item_fn_of(item: syn::Item) -> Option<syn::ItemFn>;

/// The items of an `Item::Impl` block; `None` for other items.
pub uninterp spec fn impl_items_of(item: syn::Item) -> Option<Seq<syn::ImplItem>>;

/// The signature of an `ImplItem::Fn`; `None` for other impl items.
pub uninterp spec fn impl_item_sig(item: syn::ImplItem) -> Option<syn::Signature>;

/// The signature of a function item.
pub uninterp spec fn fn_sig(f: syn::ItemFn) -> syn::Signature;

/// Whether a function item is declared `pub`.
pub uninterp spec fn fn_public(f: syn::ItemFn) -> bool;

/// The attributes of a function item, doc comments included.
pub uninterp spec fn fn_attrs(f: syn::ItemFn) -> Seq<syn::Attribute>;

/// The path of an attribute.
pub uninterp spec fn attr_path(a: syn::Attribute) -> syn::Path;

/// Whether a path is the single identifier `name`.
pub uninterp spec fn path_ident_is(p: syn::Path, name: Seq<char>) -> bool;

/// The identifier of a signature, as text.
pub uninterp spec fn sig_name(s: syn::Signature) -> Seq<char>;

/// For each input of a signature, its identifier where it is a typed input
/// bound by a plain identifier pattern, else `None`.
pub uninterp spec fn sig_param_names(s: syn::Signature) -> Seq<Option<Seq<char>>>;

/// The token texts of a list of items.
pub open spec fn token_texts(items: Seq<syn::Item>) -> Seq<Seq<char>> {
    items.map_values(|it: syn::Item| item_tokens(it))
}

/// The `Debug` texts of a list of items.
pub open spec fn debug_texts(items: Seq<syn::Item>) -> Seq<Seq<char>> {
    items.map_values(|it: syn::Item| item_debug(it))
}

/// The views of a list of optional names.
pub open spec fn opt_views(v: Seq<Option<String>>) -> Seq<Option<Seq<char>>> {
    v.map_values(
        |o: Option<String>|
            match o {
                Some(s) => Some(s@),
                None => None,
            },
    )
}

/// The item printed as tokens (`quote::ToTokens::to_token_stream` followed by
/// `to_string`); the contract names the text `item_tokens`.
#[verifier::external_body]
pub(crate) fn item_token_text(item: &syn::Item) -> (r: String)
    ensures
        r@ == item_tokens(*item),
{
    quote::ToTokens::to_token_stream(item).to_string()
}

/// The item's `Debug` rendering (`format!("{:?}", item)`); the contract
/// names the text `item_debug`.
#[verifier::external_body]
pub(crate) fn item_debug_text(item: &syn::Item) -> (r: String)
    ensures
        r@ == item_debug(*item),
{
    format!("{:?}", item)
}

/// The function inside an `Item::Fn`, or `None` for other items.
#[verifier::external_body]
pub(crate) fn item_as_fn(item: &syn::Item) -> (r: Option<&syn::ItemFn>)
    ensures
        r.is_some() == item_fn_of(*item).is_some(),
        r.is_some() ==> *r.unwrap() == item_fn_of(*item).unwrap(),
{
    match item {
        syn::Item::Fn(f) => Some(f),
        _ => None,
    }
}

/// The items of an `Item::Impl` block, or `None` for other items.
#[verifier::external_body]
pub(crate) fn item_impl_items(item: &syn::Item) -> (r: Option<&[syn::ImplItem]>)
    ensures
        r.is_some() == impl_items_of(*item).is_some(),
        r.is_some() ==> r.unwrap()@ == impl_items_of(*item).unwrap(),
{
    match item {
        syn::Item::Impl(i) => Some(i.items.as_slice()),
        _ => None,
    }
}

/// The signature of an `ImplItem::Fn`, or `None` for other impl items.
#[verifier::external_body]
pub(crate) fn impl_item_signature(item: &syn::ImplItem) -> (r: Option<&syn::Signature>)
    ensures
        r.is_some() == impl_item_sig(*item).is_some(),
        r.is_some() ==> *r.unwrap() == impl_item_sig(*item).unwrap(),
{
    match item {
        syn::ImplItem::Fn(f) => Some(&f.sig),
        _ => None,
    }
}

/// The signature of a function item (its `sig` field).
#[verifier::external_body]
pub(crate) fn fn_signature(f: &syn::ItemFn) -> (r: &syn::Signature)
    ensures
        *r == fn_sig(*f),
{
    &f.sig
}

/// Whether the function's visibility is `Visibility::Public` (`pub`).
#[verifier::external_body]
pub(crate) fn fn_is_public(f: &syn::ItemFn) -> (r: bool)
    ensures
        r == fn_public(*f),
{
    matches!(f.vis, syn::Visibility::Public(_))
}

/// The function's attributes (its `attrs` field).
#[verifier::external_body]
pub(crate) fn fn_attributes(f: &syn::ItemFn) -> (r: &[syn::Attribute])
    ensures
        r@ == fn_attrs(*f),
{
    f.attrs.as_slice()
}

/// `syn::Path`, a path such as an attribute's name.
#[verifier::external_type_specification]
#[verifier::external_body]
pub struct ExPath(syn::Path);

/// The attribute's path (`Attribute::path`).
#[verifier::external_body]
pub(crate) fn attribute_path(a: &syn::Attribute) -> (r: &syn::Path)
    ensures
        *r == attr_path(*a),
{
    a.path()
}

/// Whether the path is the single identifier `name` (`Path::is_ident`).
#[verifier::external_body]
pub(crate) fn path_is_ident(p: &syn::Path, name: &str) -> (r: bool)
    ensures
        r == path_ident_is(*p, name@),
{
    p.is_ident(name)
}

/// The name of the function (`sig.ident` rendered with `to_string`).
#[verifier::external_body]
pub(crate) fn signature_name(sig: &syn::Signature) -> (r: String)
    ensures
        r@ == sig_name(*sig),
{
    sig.ident.to_string()
}

/// For each input of the signature, the parameter's identifier when it is a
/// typed input bound by a plain identifier pattern (`FnArg::Typed` with
/// `Pat::Ident`), else `None` (receivers and destructuring patterns).
#[verifier::external_body]
pub(crate) fn signature_param_names(sig: &syn::Signature) -> (r: Vec<Option<String>>)
    ensures
        opt_views(r@) == sig_param_names(*sig),
{
    sig.inputs.iter().map(|arg| match arg {
        syn::FnArg::Typed(syn::PatType { pat, .. }) => match &**pat {
            syn::Pat::Ident(p) => Some(p.ident.to_string()),
            _ => None,
        },
        _ => None,
    }).collect()
}

} // verus!
