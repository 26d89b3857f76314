//! The generic parameters of a declaration, as an implementation needs them.

use crate::syntax::{texts, GenericParam, Generics};
use vstd::prelude::*;
use vstd::string::*;

verus! {

/// The type parameters among `params`, in order.
pub open spec fn type_params(params: Seq<GenericParam>) -> Seq<GenericParam> {
    params.filter(|p: GenericParam| p is Type)
}

/// The name of a type parameter; of any other parameter, its declaration.
pub open spec fn ident_of(p: GenericParam) -> Seq<char> {
    match p {
        GenericParam::Type { ident, .. } => ident@,
        GenericParam::Lifetime { decl } => decl@,
        GenericParam::Const { decl } => decl@,
    }
}

/// The bounds of a type parameter behind their colon; nothing where there
/// are none.
pub open spec fn bounds_tokens(bounds: Seq<char>) -> Seq<char> {
    if bounds.len() == 0 {
        Seq::empty()
    } else {
        " : "@ + bounds
    }
}

/// A parameter as an implementation declares it: a type parameter with its
/// attributes, name and bounds but without its default, any other parameter
/// as it stands.
pub open spec fn decl_of(p: GenericParam) -> Seq<char> {
    match p {
        GenericParam::Type { attrs, ident, bounds, .. } => attrs@ + " "@ + ident@ + bounds_tokens(
            bounds@,
        ),
        GenericParam::Lifetime { decl } => decl@,
        GenericParam::Const { decl } => decl@,
    }
}

/// The items in order, a comma behind each.
pub open spec fn listed(items: Seq<Seq<char>>) -> Seq<char>
    decreases items.len(),
{
    if items.len() == 0 {
        Seq::empty()
    } else {
        listed(items.drop_last()) + items.last() + " , "@
    }
}

/// The items in order, a comma between each two.
pub open spec fn separated(items: Seq<Seq<char>>) -> Seq<char>
    decreases items.len(),
{
    if items.len() == 0 {
        Seq::empty()
    } else if items.len() == 1 {
        items[0]
    } else {
        separated(items.drop_last()) + " , "@ + items.last()
    }
}

/// The names of the first `n` type parameters.
pub open spec fn rhs_idents(params: Seq<GenericParam>, n: int) -> Seq<Seq<char>> {
    type_params(params).take(n).map_values(|p: GenericParam| ident_of(p))
}

/// The first `n` parameters as an implementation declares them.
pub open spec fn lhs_decls(params: Seq<GenericParam>, n: int) -> Seq<Seq<char>> {
    params.take(n).map_values(|p: GenericParam| decl_of(p))
}

/// One more item at the end adds that item and a comma.
pub proof fn lemma_listed_push(items: Seq<Seq<char>>, item: Seq<char>)
    ensures
        listed(items.push(item)) == listed(items) + item + " , "@,
{
    assert(items.push(item).drop_last() =~= items);
}

/// One more item behind others adds a comma and that item.
pub proof fn lemma_separated_push(items: Seq<Seq<char>>, item: Seq<char>)
    ensures
        separated(items.push(item)) == if items.len() == 0 {
            item
        } else {
            separated(items) + " , "@ + item
        },
{
    assert(items.push(item).drop_last() =~= items);
}

/// The type parameters of a prefix are a prefix of the type parameters.
pub proof fn lemma_type_params_prefix(params: Seq<GenericParam>, i: int)
    requires
        0 <= i <= params.len(),
    ensures
        type_params(params.take(i)).len() <= type_params(params).len(),
        type_params(params.take(i)) == type_params(params).take(
            type_params(params.take(i)).len() as int,
        ),
{
    let pred = |p: GenericParam| p is Type;
    Seq::filter_distributes_over_add(params.take(i), params.skip(i), pred);
    assert(params.take(i) + params.skip(i) =~= params);
    assert(type_params(params).take(type_params(params.take(i)).len() as int) =~= type_params(
        params.take(i),
    ));
}

/// The generic arguments of a trait, for the position behind its name.
pub struct RhsGenerics {
    /// The names, a comma behind each.
    pub tokens: String,
    /// The names, in the order in which they were met.
    pub idents: Vec<String>,
}

/// How many of the parameters are type parameters.
pub fn count_type_params(generics: &Generics) -> (n: usize)
    ensures
        n == type_params(generics.params@).len(),
{
    let mut n: usize = 0;
    let mut i: usize = 0;
    while i < generics.params.len()
        invariant
            i <= generics.params.len(),
            n == type_params(generics.params@.take(i as int)).len(),
            n <= i,
        decreases generics.params.len() - i,
    {
        proof {
            let pred = |p: GenericParam| p is Type;
            assert(generics.params@.take(i + 1) =~= generics.params@.take(i as int).push(
                generics.params@[i as int],
            ));
            Seq::lemma_filter_push(generics.params@.take(i as int), generics.params@[i as int], pred);
        }
        match &generics.params[i] {
            GenericParam::Type { .. } => {
                n += 1;
            },
            _ => {},
        }
        i += 1;
    }
    proof {
        assert(generics.params@.take(i as int) =~= generics.params@);
    }
    n
}

/// The first `type_params_len` type parameters as bare names, for use as a
/// trait's generic arguments, together with the names themselves in order.
pub fn extract_rhs_generics_to_len(generics: &Generics, type_params_len: usize) -> (r: RhsGenerics)
    requires
        type_params_len <= type_params(generics.params@).len(),
    ensures
        texts(r.idents@) == rhs_idents(generics.params@, type_params_len as int),
        r.tokens@ == listed(rhs_idents(generics.params@, type_params_len as int)),
{
    let mut tokens = String::new();
    let mut idents: Vec<String> = Vec::new();
    let mut i: usize = 0;
    let ghost pred = |p: GenericParam| p is Type;
    let ghost name = |p: GenericParam| ident_of(p);
    proof {
        reveal(Seq::filter);
        assert(generics.params@.take(0) =~= Seq::<GenericParam>::empty());
        assert(texts(idents@) =~= type_params(generics.params@.take(0)).map_values(name));
    }
    while i < generics.params.len() && idents.len() < type_params_len
        invariant
            i <= generics.params.len(),
            idents.len() <= type_params_len,
            pred == (|p: GenericParam| p is Type),
            name == (|p: GenericParam| ident_of(p)),
            texts(idents@) == type_params(generics.params@.take(i as int)).map_values(name),
            tokens@ == listed(texts(idents@)),
        decreases generics.params.len() - i,
    {
        let ghost seen = generics.params@.take(i as int);
        let ghost before = texts(idents@);
        proof {
            assert(generics.params@.take(i + 1) =~= seen.push(generics.params@[i as int]));
            Seq::lemma_filter_push(seen, generics.params@[i as int], pred);
        }
        match &generics.params[i] {
            GenericParam::Type { ident, .. } => {
                idents.push(ident.clone());
                tokens.append(ident.as_str());
                tokens.append(" , ");
                proof {
                    assert(texts(idents@) =~= before.push(ident@));
                    lemma_listed_push(before, ident@);
                    assert(type_params(seen).push(generics.params@[i as int]).map_values(name)
                        =~= type_params(seen).map_values(name).push(ident@));
                }
            },
            _ => {},
        }
        i += 1;
    }
    proof {
        lemma_type_params_prefix(generics.params@, i as int);
        if idents.len() < type_params_len {
            assert(generics.params@.take(i as int) =~= generics.params@);
        }
        assert(texts(idents@).len() == idents.len());
        assert(type_params(generics.params@.take(i as int)).len() == idents.len());
    }
    RhsGenerics { tokens, idents }
}

/// The items in order, a comma between each two.
pub fn separate_tokens(items: &Vec<String>) -> (tokens: String)
    ensures
        tokens@ == separated(texts(items@)),
{
    let mut tokens = String::new();
    let mut i: usize = 0;
    proof {
        assert(texts(items@).take(0) =~= Seq::<Seq<char>>::empty());
    }
    while i < items.len()
        invariant
            i <= items.len(),
            tokens@ == separated(texts(items@).take(i as int)),
        decreases items.len() - i,
    {
        proof {
            assert(texts(items@).take(i + 1) =~= texts(items@).take(i as int).push(items@[i as int]@));
            lemma_separated_push(texts(items@).take(i as int), items@[i as int]@);
        }
        if i > 0 {
            tokens.append(" , ");
        }
        tokens.append(items[i].as_str());
        i += 1;
    }
    proof {
        assert(texts(items@).take(i as int) =~= texts(items@));
    }
    tokens
}

/// The items in order, a comma behind each.
pub fn list_tokens(items: &Vec<String>) -> (tokens: String)
    ensures
        tokens@ == listed(texts(items@)),
{
    let mut tokens = String::new();
    let mut i: usize = 0;
    proof {
        assert(texts(items@).take(0) =~= Seq::<Seq<char>>::empty());
    }
    while i < items.len()
        invariant
            i <= items.len(),
            tokens@ == listed(texts(items@).take(i as int)),
        decreases items.len() - i,
    {
        proof {
            assert(texts(items@).take(i + 1) =~= texts(items@).take(i as int).push(items@[i as int]@));
            lemma_listed_push(texts(items@).take(i as int), items@[i as int]@);
        }
        tokens.append(items[i].as_str());
        tokens.append(" , ");
        i += 1;
    }
    proof {
        assert(texts(items@).take(i as int) =~= texts(items@));
    }
    tokens
}

/// Appends a parameter as an implementation declares it.
pub fn append_decl(tokens: &mut String, param: &GenericParam)
    ensures
        final(tokens)@ == old(tokens)@ + decl_of(*param),
{
    match param {
        GenericParam::Type { attrs, ident, bounds, .. } => {
            let ghost before = tokens@;
            tokens.append(attrs.as_str());
            tokens.append(" ");
            tokens.append(ident.as_str());
            if !bounds.as_str().is_empty() {
                tokens.append(" : ");
                tokens.append(bounds.as_str());
            }
            proof {
                assert(tokens@ =~= before + decl_of(*param));
            }
        },
        GenericParam::Lifetime { decl } => {
            tokens.append(decl.as_str());
        },
        GenericParam::Const { decl } => {
            tokens.append(decl.as_str());
        },
    }
}

/// The first `type_params_len` parameters as an implementation declares
/// them: type parameters lose their defaults, other parameters stay as they
/// are.
pub fn extract_lhs_generics_to_len(generics: &Generics, type_params_len: usize) -> (tokens: String)
    requires
        type_params_len <= generics.params@.len(),
    ensures
        tokens@ == listed(lhs_decls(generics.params@, type_params_len as int)),
{
    let mut tokens = String::new();
    let mut i: usize = 0;
    let ghost decl = |p: GenericParam| decl_of(p);
    proof {
        assert(lhs_decls(generics.params@, 0) =~= Seq::<Seq<char>>::empty());
    }
    while i < type_params_len
        invariant
            i <= type_params_len <= generics.params.len(),
            tokens@ == listed(lhs_decls(generics.params@, i as int)),
        decreases type_params_len - i,
    {
        proof {
            assert(lhs_decls(generics.params@, i + 1) =~= lhs_decls(generics.params@, i as int).push(
                decl_of(generics.params@[i as int]),
            ));
            lemma_listed_push(
                lhs_decls(generics.params@, i as int),
                decl_of(generics.params@[i as int]),
            );
        }
        append_decl(&mut tokens, &generics.params[i]);
        tokens.append(" , ");
        i += 1;
    }
    tokens
}

} // verus!
