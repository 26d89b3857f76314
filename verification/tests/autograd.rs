use custos_macro::expansion::Gate;
use custos_macro::impl_using_autograd::add_maybe_empty_trait;
use custos_macro::syntax::{GenericParam, Generics, ItemTrait, TraitItem};
use proc_macro2::{Delimiter, TokenStream, TokenTree};

fn flatten(stream: TokenStream, out: &mut Vec<String>) {
    for tree in stream {
        match tree {
            TokenTree::Group(group) => {
                let (open, close) = match group.delimiter() {
                    Delimiter::Parenthesis => ("(", ")"),
                    Delimiter::Brace => ("{", "}"),
                    Delimiter::Bracket => ("[", "]"),
                    Delimiter::None => ("", ""),
                };
                out.push(open.to_string());
                flatten(group.stream(), out);
                out.push(close.to_string());
            }
            other => out.push(other.to_string()),
        }
    }
}

fn tokens(source: &str) -> Vec<String> {
    let mut out = Vec::new();
    flatten(source.parse::<TokenStream>().unwrap(), &mut out);
    out
}

fn type_param(ident: &str, bounds: &str, default: Option<&str>) -> GenericParam {
    GenericParam::Type {
        attrs: String::new(),
        ident: ident.to_string(),
        bounds: bounds.to_string(),
        default: default.map(|ty| ty.to_string()),
    }
}

#[test]
fn trait_gets_an_empty_fallback() {
    let source = "pub trait UnaryGrad<T, S: Shape = (), D: Device = Self>: Device {
        fn add_unary_grad(&self, lhs: &Buffer<T, D, S>, out: &Buffer<T, D, S>);
    }";
    let input = ItemTrait {
        tokens: source.to_string(),
        ident: "UnaryGrad".to_string(),
        generics: Generics {
            params: vec![
                type_param("T", "", None),
                type_param("S", "Shape", Some("()")),
                type_param("D", "Device", Some("Self")),
            ],
        },
        supertraits: "Device".to_string(),
        items: vec![TraitItem::Other],
    };
    let expansion = add_maybe_empty_trait(&input);
    assert_eq!(expansion.items.len(), 3);
    assert_eq!(expansion.items[0].gate, Gate::Autograd);
    assert_eq!(expansion.items[0].tokens, source);
    assert_eq!(expansion.items[1].gate, Gate::NotAutograd);
    assert_eq!(
        tokens(&expansion.items[1].tokens),
        tokens("pub trait UnaryGrad<T, S: Shape = (), D: Device = Self>: Device {}")
    );
    assert_eq!(expansion.items[2].gate, Gate::NotAutograd);
    assert_eq!(
        tokens(&expansion.items[2].tokens),
        tokens("impl<T, S: Shape, D: Device,> UnaryGrad<T, S, D,> for D {}")
    );
    let file = syn::parse_str::<syn::File>(&expansion.render()).unwrap();
    assert_eq!(file.items.len(), 3);
}

#[test]
fn trait_without_generics_has_no_angle_brackets() {
    let input = ItemTrait {
        tokens: "pub trait Plain : Device { }".to_string(),
        ident: "Plain".to_string(),
        generics: Generics { params: Vec::new() },
        supertraits: "Device".to_string(),
        items: Vec::new(),
    };
    let expansion = add_maybe_empty_trait(&input);
    assert_eq!(tokens(&expansion.items[1].tokens), tokens("pub trait Plain: Device {}"));
    assert_eq!(tokens(&expansion.items[2].tokens), tokens("impl<> Plain<> for D {}"));
}

#[test]
fn fallback_impl_is_declared_over_as_many_parameters_as_there_are_types() {
    let input = ItemTrait {
        tokens: "pub trait Sized2 < 'a , T , const N : usize > : { }".to_string(),
        ident: "Sized2".to_string(),
        generics: Generics {
            params: vec![
                GenericParam::Lifetime { decl: "'a".to_string() },
                type_param("T", "", None),
                GenericParam::Const { decl: "const N : usize".to_string() },
            ],
        },
        supertraits: String::new(),
        items: Vec::new(),
    };
    let expansion = add_maybe_empty_trait(&input);
    assert_eq!(
        tokens(&expansion.items[1].tokens),
        tokens("pub trait Sized2<'a, T, const N: usize>: {}")
    );
    assert_eq!(tokens(&expansion.items[2].tokens), tokens("impl<'a,> Sized2<T,> for D {}"));
}
