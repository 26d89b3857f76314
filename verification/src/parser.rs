//! What the syntax parser says of a text.
//!
//! The expansions rewrite token text and must know whether the outcome still
//! reads as syntax. That question goes to `syn`; the answers are named here
//! and nothing else is claimed of them.
//!
//! `syn` reads and prints through `proc_macro2`. This crate builds both
//! without the `proc-macro` feature, so that text is always read and printed
//! by `proc_macro2` itself and an answer depends on the text alone, not on
//! whether a macro is being expanded.

use crate::syntax::{fn_args, FnArg, FnArgView};
use quote::ToTokens;
use syn::parse::Parser;
use vstd::prelude::*;

verus! {

/// Whether `syn` reads `text` as one implementation block.
pub uninterp spec fn is_item_impl(text: Seq<char>) -> bool;

/// Whether `syn` reads `text` as one free function.
pub uninterp spec fn is_item_fn(text: Seq<char>) -> bool;

/// Whether `syn` reads `text` as one type.
pub uninterp spec fn is_type(text: Seq<char>) -> bool;

/// Whether `syn` reads `text` as one identifier.
pub uninterp spec fn is_ident(text: Seq<char>) -> bool;

/// The parameters that `syn` reads from `text` as a list of function
/// parameters separated by commas, or `None` where it reads no such list.
pub uninterp spec fn fn_args_of(text: Seq<char>) -> Option<Seq<FnArgView>>;

/// Calls `syn::parse_str::<syn::ItemImpl>` and tells whether it returned `Ok`.
#[verifier::external_body]
pub(crate) fn parses_as_item_impl(text: &str) -> (r: bool)
    ensures
        r == is_item_impl(text@),
{
    syn::parse_str::<syn::ItemImpl>(text).is_ok()
}

/// Calls `syn::parse_str::<syn::ItemFn>` and tells whether it returned `Ok`.
#[verifier::external_body]
pub(crate) fn parses_as_item_fn(text: &str) -> (r: bool)
    ensures
        r == is_item_fn(text@),
{
    syn::parse_str::<syn::ItemFn>(text).is_ok()
}

/// Calls `syn::parse_str::<syn::Type>` and tells whether it returned `Ok`.
#[verifier::external_body]
pub(crate) fn parses_as_type(text: &str) -> (r: bool)
    ensures
        r == is_type(text@),
{
    syn::parse_str::<syn::Type>(text).is_ok()
}

/// Calls `syn::parse_str::<syn::Ident>` and tells whether it returned `Ok`.
#[verifier::external_body]
pub(crate) fn parses_as_ident(text: &str) -> (r: bool)
    ensures
        r == is_ident(text@),
{
    syn::parse_str::<syn::Ident>(text).is_ok()
}

/// Calls `Punctuated::<syn::FnArg, Comma>::parse_terminated` on `text` through
/// `Parser::parse_str`. Of each parameter read it hands on the kind and, for a
/// typed one, the token text of the pattern and of the type.
#[verifier::external_body]
pub(crate) fn parse_fn_args(text: &str) -> (r: Option<Vec<FnArg>>)
    ensures
        match r {
            Some(args) => fn_args_of(text@) == Some(fn_args(args@)),
            None => fn_args_of(text@) is None,
        },
{
    let parser = syn::punctuated::Punctuated::<syn::FnArg, syn::token::Comma>::parse_terminated;
    let args = parser.parse_str(text).ok()?;
    Some(args.iter().map(|arg| match arg {
        syn::FnArg::Receiver(_) => FnArg::Receiver,
        syn::FnArg::Typed(typed) => FnArg::Typed {
            pat: typed.pat.to_token_stream().to_string(),
            ty: typed.ty.to_token_stream().to_string(),
        },
    }).collect())
}

} // verus!
