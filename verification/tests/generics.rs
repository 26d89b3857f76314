use custos_macro::syntax::{GenericParam, Generics};
use custos_macro::trait_builds::{
    count_type_params, extract_lhs_generics_to_len, extract_rhs_generics_to_len, list_tokens,
    separate_tokens,
};

fn type_param(ident: &str, bounds: &str, default: Option<&str>) -> GenericParam {
    GenericParam::Type {
        attrs: String::new(),
        ident: ident.to_string(),
        bounds: bounds.to_string(),
        default: default.map(|ty| ty.to_string()),
    }
}

/// `<'a, T, S: Shape = (), const N: usize, D: Device = Self>`
fn sample() -> Generics {
    Generics {
        params: vec![
            GenericParam::Lifetime { decl: "'a".to_string() },
            type_param("T", "", None),
            type_param("S", "Shape", Some("()")),
            GenericParam::Const { decl: "const N : usize".to_string() },
            type_param("D", "Device", Some("Self")),
        ],
    }
}

fn strings(names: &[&str]) -> Vec<String> {
    names.iter().map(|name| name.to_string()).collect()
}

#[test]
fn type_parameters_are_counted() {
    assert_eq!(count_type_params(&sample()), 3);
    assert_eq!(count_type_params(&Generics { params: Vec::new() }), 0);
}

#[test]
fn rhs_takes_the_names_of_the_first_type_parameters() {
    let rhs = extract_rhs_generics_to_len(&sample(), 2);
    assert_eq!(rhs.idents, strings(&["T", "S"]));
    assert_eq!(rhs.tokens, "T , S , ");
}

#[test]
fn rhs_of_all_and_of_none() {
    let all = extract_rhs_generics_to_len(&sample(), 3);
    assert_eq!(all.idents, strings(&["T", "S", "D"]));
    assert_eq!(all.tokens, "T , S , D , ");
    let none = extract_rhs_generics_to_len(&sample(), 0);
    assert!(none.idents.is_empty());
    assert_eq!(none.tokens, "");
}

#[test]
fn rhs_keeps_names_that_occur_twice() {
    let generics = Generics { params: vec![type_param("T", "", None), type_param("T", "", None)] };
    let rhs = extract_rhs_generics_to_len(&generics, 2);
    assert_eq!(rhs.idents, strings(&["T", "T"]));
}

#[test]
fn lhs_drops_defaults_and_keeps_other_parameters() {
    assert_eq!(extract_lhs_generics_to_len(&sample(), 3), "'a ,  T ,  S : Shape , ");
    assert_eq!(
        extract_lhs_generics_to_len(&sample(), 5),
        "'a ,  T ,  S : Shape , const N : usize ,  D : Device , "
    );
    assert_eq!(extract_lhs_generics_to_len(&sample(), 0), "");
}

#[test]
fn lhs_keeps_the_attributes_of_a_type_parameter() {
    let generics = Generics {
        params: vec![GenericParam::Type {
            attrs: "# [doc = \"element\"]".to_string(),
            ident: "T".to_string(),
            bounds: "Copy + 'static".to_string(),
            default: Some("f32".to_string()),
        }],
    };
    assert_eq!(
        extract_lhs_generics_to_len(&generics, 1),
        "# [doc = \"element\"] T : Copy + 'static , "
    );
}

#[test]
fn lists_with_commas_behind_and_between() {
    assert_eq!(list_tokens(&strings(&["a", "b", "c"])), "a , b , c , ");
    assert_eq!(separate_tokens(&strings(&["a", "b", "c"])), "a , b , c");
    assert_eq!(separate_tokens(&strings(&["a"])), "a");
    assert_eq!(list_tokens(&strings(&[])), "");
    assert_eq!(separate_tokens(&strings(&[])), "");
}
