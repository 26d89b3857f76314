//! The fallback for builds without automatic differentiation: the trait as
//! declared where the feature is enabled, and where it is not, an empty trait
//! of the same name with an empty implementation for every device.

use crate::expansion::{Expansion, Gate, GatedItem, GatedItemView};
use crate::syntax::{texts, GenericParam, ItemTrait};
use crate::text::{spaced, TokenWriter};
use crate::trait_builds::{
    append_decl, count_type_params, decl_of, extract_lhs_generics_to_len,
    extract_rhs_generics_to_len, lhs_decls, listed, rhs_idents, separate_tokens, separated,
    type_params,
};
use vstd::prelude::*;
use vstd::string::*;

verus! {

/// A parameter as the trait declares it: with its default, where it has one.
pub open spec fn full_decl_of(p: GenericParam) -> Seq<char> {
    match p {
        GenericParam::Type { default: Some(ty), .. } => decl_of(p) + " = "@ + ty@,
        _ => decl_of(p),
    }
}

/// All parameters as the trait declares them.
pub open spec fn full_decls(params: Seq<GenericParam>) -> Seq<Seq<char>> {
    params.map_values(|p: GenericParam| full_decl_of(p))
}

/// The parameters of a declaration between their angle brackets; nothing
/// where there are none.
pub open spec fn generics_tokens(params: Seq<GenericParam>) -> Seq<char> {
    if params.len() == 0 {
        Seq::empty()
    } else {
        "< "@ + separated(full_decls(params)) + " >"@
    }
}

/// The parts of the empty trait: the name, the parameters as declared, and
/// the supertraits.
pub open spec fn empty_trait_parts(input: ItemTrait) -> Seq<Seq<char>> {
    seq![
        "pub trait"@,
        input.ident@,
        generics_tokens(input.generics.params@),
        ":"@,
        input.supertraits@,
        "{ }"@,
    ]
}

/// The parts of the empty implementation, for every device `D`: declared
/// over the trait's first parameters, as many as it has type parameters,
/// with the names of its type parameters as the trait's arguments.
pub open spec fn empty_impl_parts(input: ItemTrait) -> Seq<Seq<char>> {
    let count = type_params(input.generics.params@).len() as int;
    seq![
        "impl <"@,
        listed(lhs_decls(input.generics.params@, count)),
        ">"@,
        input.ident@,
        "<"@,
        listed(rhs_idents(input.generics.params@, count)),
        "> for D { }"@,
    ]
}

/// The three items of the expansion.
pub open spec fn autograd_items(input: ItemTrait) -> Seq<GatedItemView> {
    seq![
        GatedItemView { gate: Gate::Autograd, tokens: input.tokens@ },
        GatedItemView { gate: Gate::NotAutograd, tokens: spaced(empty_trait_parts(input)) },
        GatedItemView { gate: Gate::NotAutograd, tokens: spaced(empty_impl_parts(input)) },
    ]
}

/// A parameter as the trait declares it.
fn full_decl(param: &GenericParam) -> (tokens: String)
    ensures
        tokens@ == full_decl_of(*param),
{
    let mut tokens = String::new();
    append_decl(&mut tokens, param);
    match param {
        GenericParam::Type { default: Some(ty), .. } => {
            tokens.append(" = ");
            tokens.append(ty.as_str());
        },
        _ => {},
    }
    tokens
}

/// The parameters of a declaration between their angle brackets.
fn declared_generics(params: &Vec<GenericParam>) -> (tokens: String)
    ensures
        tokens@ == generics_tokens(params@),
{
    let mut decls: Vec<String> = Vec::new();
    let mut i: usize = 0;
    while i < params.len()
        invariant
            i <= params.len(),
            decls.len() == i,
            forall|j: int| 0 <= j < i ==> (#[trigger] decls@[j])@ == full_decl_of(params@[j]),
        decreases params.len() - i,
    {
        decls.push(full_decl(&params[i]));
        i += 1;
    }
    proof {
        assert(texts(decls@) =~= full_decls(params@));
    }
    let mut tokens = String::new();
    if params.len() > 0 {
        tokens.append("< ");
        tokens.append(separate_tokens(&decls).as_str());
        tokens.append(" >");
    }
    tokens
}

/// Expands a trait into the trait itself, compiled with automatic
/// differentiation, and an empty trait with an empty implementation, compiled
/// without it.
pub fn add_maybe_empty_trait(input: &ItemTrait) -> (expansion: Expansion)
    ensures
        expansion@ == autograd_items(*input),
{
    let type_params_len = count_type_params(&input.generics);
    proof {
        input.generics.params@.lemma_filter_len(|p: GenericParam| p is Type);
    }
    let lhs_generics = extract_lhs_generics_to_len(&input.generics, type_params_len);
    let rhs_generics = extract_rhs_generics_to_len(&input.generics, type_params_len);
    let generics = declared_generics(&input.generics.params);

    let mut empty_trait = TokenWriter::new();
    empty_trait.put("pub trait");
    empty_trait.put(input.ident.as_str());
    empty_trait.put(generics.as_str());
    empty_trait.put(":");
    empty_trait.put(input.supertraits.as_str());
    empty_trait.put("{ }");
    proof {
        assert(empty_trait.parts() =~= empty_trait_parts(*input));
    }
    let mut empty_impl = TokenWriter::new();
    empty_impl.put("impl <");
    empty_impl.put(lhs_generics.as_str());
    empty_impl.put(">");
    empty_impl.put(input.ident.as_str());
    empty_impl.put("<");
    empty_impl.put(rhs_generics.tokens.as_str());
    empty_impl.put("> for D { }");
    proof {
        assert(empty_impl.parts() =~= empty_impl_parts(*input));
    }
    let mut items: Vec<GatedItem> = Vec::new();
    items.push(GatedItem { gate: Gate::Autograd, tokens: input.tokens.clone() });
    items.push(GatedItem { gate: Gate::NotAutograd, tokens: empty_trait.finish() });
    items.push(GatedItem { gate: Gate::NotAutograd, tokens: empty_impl.finish() });
    let expansion = Expansion { items };
    proof {
        assert(expansion@ =~= autograd_items(*input));
    }
    expansion
}

/// The trait that was given is the first item, as it was given and compiled
/// with automatic differentiation; the two items behind it are compiled
/// without.
pub proof fn law_trait_is_kept(input: ItemTrait)
    ensures
        autograd_items(input).len() == 3,
        autograd_items(input)[0] == (GatedItemView {
            gate: Gate::Autograd,
            tokens: input.tokens@,
        }),
        autograd_items(input)[1].gate == Gate::NotAutograd,
        autograd_items(input)[2].gate == Gate::NotAutograd,
{
}

} // verus!
