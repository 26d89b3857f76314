use custos_macro::error::{ErrorKind, ExpandError};
use custos_macro::expansion::Gate;
use custos_macro::impl_nnapi_op::{
    add_nnapi_op_impl, attr_idents, collect_operands, describe_method, expand_method,
    impl_nnapi_op, is_comma_separated, lowering_of, method_body, operation_inputs, opcodes_of,
    shape_of, Lowering, ShapeParam,
};
use custos_macro::syntax::{
    AttrToken, FnArg, GenericParam, Generics, ItemTrait, Signature, TraitItem,
};
use proc_macro2::{Delimiter, TokenStream, TokenTree};
use quote::ToTokens;

fn text<T: ToTokens>(node: &T) -> String {
    node.to_token_stream().to_string()
}

fn flatten(stream: TokenStream, out: &mut Vec<String>) {
    for tree in stream {
        match tree {
            TokenTree::Group(group) => {
                let (open, close) = match group.delimiter() {
                    Delimiter::Parenthesis => ("(", ")"),
                    Delimiter::Brace => ("{", "}"),
                    Delimiter::Bracket => ("[", "]"),
                    Delimiter::None => ("", ""),
                };
                out.push(open.to_string());
                flatten(group.stream(), out);
                out.push(close.to_string());
            }
            other => out.push(other.to_string()),
        }
    }
}

/// The tokens of a text, one string each, whatever blanks stand between them.
fn tokens(source: &str) -> Vec<String> {
    let mut out = Vec::new();
    flatten(source.parse::<TokenStream>().unwrap(), &mut out);
    out
}

fn generics_of(generics: &syn::Generics) -> Generics {
    let params = generics
        .params
        .iter()
        .map(|param| match param {
            syn::GenericParam::Type(ty) => GenericParam::Type {
                attrs: ty.attrs.iter().map(text).collect::<Vec<_>>().join(" "),
                ident: ty.ident.to_string(),
                bounds: text(&ty.bounds),
                default: ty.default.as_ref().map(text),
            },
            syn::GenericParam::Lifetime(lifetime) => GenericParam::Lifetime { decl: text(lifetime) },
            syn::GenericParam::Const(constant) => GenericParam::Const { decl: text(constant) },
        })
        .collect();
    Generics { params }
}

fn signature_of(sig: &syn::Signature) -> Signature {
    let mut head = TokenStream::new();
    sig.constness.to_tokens(&mut head);
    sig.asyncness.to_tokens(&mut head);
    sig.unsafety.to_tokens(&mut head);
    sig.abi.to_tokens(&mut head);
    sig.fn_token.to_tokens(&mut head);
    sig.ident.to_tokens(&mut head);
    sig.generics.to_tokens(&mut head);
    Signature {
        head: head.to_string(),
        inputs: text(&sig.inputs),
        output: match &sig.output {
            syn::ReturnType::Default => None,
            syn::ReturnType::Type(_, ty) => Some(text(ty)),
        },
        where_clause: text(&sig.generics.where_clause),
    }
}

fn trait_of(source: &str) -> ItemTrait {
    let item = syn::parse_str::<syn::ItemTrait>(source).unwrap();
    let items = item
        .items
        .iter()
        .map(|item| match item {
            syn::TraitItem::Fn(function) if function.sig.variadic.is_none() => TraitItem::Fn {
                sig: signature_of(&function.sig),
                has_body: function.default.is_some(),
            },
            _ => TraitItem::Other,
        })
        .collect();
    ItemTrait {
        tokens: text(&item),
        ident: item.ident.to_string(),
        generics: generics_of(&item.generics),
        supertraits: text(&item.supertraits),
        items,
    }
}

fn opcodes(names: &[&str]) -> Vec<String> {
    names.iter().map(|name| name.to_string()).collect()
}

fn strings(names: &[&str]) -> Vec<String> {
    names.iter().map(|name| name.to_string()).collect()
}

const ADD_SUB: &str = "pub trait BinaryElementWise<T, S: Shape = (), D: Device = Self>: Device {
    fn add(&self, lhs: &Buffer<T, D, S>, rhs: &Buffer<T, D, S>) -> Buffer<T, D, S>;
    fn sub(&self, lhs: &Buffer<T, D, S>, rhs: &Buffer<T, D, S>) -> Buffer<T, D, S>;
}";

const ADD_SUB_IMPL: &str = "impl<T, S: Shape,> BinaryElementWise<T, S,> for custos::NnapiDevice
where
    T: custos::AsOperandCode
{
    fn add(
        &self,
        lhs: &Buffer<T, custos::NnapiDevice, S>,
        rhs: &Buffer<T, custos::NnapiDevice, S>
    ) -> Buffer<T, custos::NnapiDevice, S> {
        self.retrieve_with_init::<T, S>(S::LEN, |out| {
            let mut model = self.model.borrow_mut();
            let activation_idx = self.add_operand(&Operand::activation()).unwrap();
            model.set_activation_operand_value(activation_idx as i32).unwrap();
            model
                .add_operation(
                    OperationCode::ANEURALNETWORKS_ADD,
                    &[lhs.ptr.idx, rhs.ptr.idx, activation_idx],
                    &[out.ptr.idx],
                )
                .unwrap();
        })
    }
    fn sub(
        &self,
        lhs: &Buffer<T, custos::NnapiDevice, S>,
        rhs: &Buffer<T, custos::NnapiDevice, S>
    ) -> Buffer<T, custos::NnapiDevice, S> {
        unimplemented!(\"This operation is not supported by NNAPI.\");
        #[allow(unreachable_code)]
        self.retrieve_with_init::<T, S>(S::LEN, |out| {
            let mut model = self.model.borrow_mut();
            model.add_operation(OperationCode::None, &[], &[out.ptr.idx],).unwrap();
        })
    }
}";

#[test]
fn add_and_sub_scenario() {
    let input = trait_of(ADD_SUB);
    let expansion = add_nnapi_op_impl(&input, &opcodes(&["ANEURALNETWORKS_ADD", "None"])).unwrap();
    assert_eq!(expansion.items.len(), 2);
    assert_eq!(expansion.items[0].gate, Gate::Nnapi);
    assert_eq!(tokens(&expansion.items[0].tokens), tokens(ADD_SUB));
    assert_eq!(expansion.items[1].gate, Gate::Nnapi);
    assert_eq!(tokens(&expansion.items[1].tokens), tokens(ADD_SUB_IMPL));
}

#[test]
fn add_and_sub_scenario_reads_as_rust() {
    let input = trait_of(ADD_SUB);
    let expansion = add_nnapi_op_impl(&input, &opcodes(&["ANEURALNETWORKS_ADD", "None"])).unwrap();
    let file = syn::parse_str::<syn::File>(&expansion.render()).unwrap();
    assert_eq!(file.items.len(), 2);
    match &file.items[1] {
        syn::Item::Impl(block) => {
            assert_eq!(block.items.len(), 2);
            assert_eq!(block.attrs.len(), 1);
        }
        _ => panic!("the second item is the implementation"),
    }
    assert!(matches!(&file.items[0], syn::Item::Trait(_)));
}

#[test]
fn add_body_has_activation_as_third_input() {
    let inputs = operation_inputs(Lowering::BinaryWithActivation, &strings(&["lhs", "rhs"]));
    assert_eq!(inputs, strings(&["lhs . ptr . idx", "rhs . ptr . idx", "activation_idx"]));
    let body = method_body("ANEURALNETWORKS_ADD", &strings(&["lhs", "rhs"]), ShapeParam::Default);
    assert_eq!(body.matches("add_operand").count(), 1);
    assert!(body.contains("& [ lhs . ptr . idx , rhs . ptr . idx , activation_idx ]"));
    assert!(!body.contains("unimplemented"));
}

#[test]
fn activation_inputs_are_the_buffers_as_they_are_named() {
    let inputs = operation_inputs(Lowering::BinaryWithActivation, &strings(&["a", "b"]));
    assert_eq!(inputs, strings(&["a . ptr . idx", "b . ptr . idx", "activation_idx"]));
    let body = method_body("ANEURALNETWORKS_MUL", &strings(&["a", "b"]), ShapeParam::Default);
    assert!(body.contains("& [ a . ptr . idx , b . ptr . idx , activation_idx ]"));
    assert!(!body.contains("lhs"));
    let one = operation_inputs(Lowering::BinaryWithActivation, &strings(&["x"]));
    assert_eq!(one, strings(&["x . ptr . idx", "activation_idx"]));
}

#[test]
fn activation_follows_the_buffers_in_declaration_order() {
    let input = trait_of(
        "pub trait Scale<T, S: Shape = (), D: Device = Self>: Device {
            fn scale(&self, factor: &Buffer<T, D, S>, len: usize, values: &Buffer<T, D, S>) -> Buffer<T, D, S>;
        }",
    );
    let expansion = add_nnapi_op_impl(&input, &opcodes(&["ANEURALNETWORKS_DIV"])).unwrap();
    let tokens = &expansion.items[1].tokens;
    assert!(tokens.contains("& [ factor . ptr . idx , values . ptr . idx , activation_idx ]"));
    assert_eq!(tokens.matches("add_operand").count(), 1);
}

#[test]
fn unsupported_body_aborts_first_and_has_no_inputs() {
    assert_eq!(operation_inputs(Lowering::Unsupported, &strings(&["lhs", "rhs"])).len(), 0);
    let body = method_body("None", &strings(&["lhs", "rhs"]), ShapeParam::Default);
    assert!(body.starts_with(
        "{ unimplemented ! (\"This operation is not supported by NNAPI.\") ; # [allow (unreachable_code)] self"
    ));
    assert!(body.contains("OperationCode :: None , & [  ]"));
    assert!(!body.contains("ptr . idx ,"));
    assert!(!body.contains("add_operand"));
}

#[test]
fn default_body_takes_the_buffer_parameters_in_order() {
    let inputs = operation_inputs(Lowering::Default, &strings(&["x", "weights", "bias"]));
    assert_eq!(inputs, strings(&["x . ptr . idx", "weights . ptr . idx", "bias . ptr . idx"]));
    let body = method_body("ANEURALNETWORKS_RELU", &strings(&["x"]), ShapeParam::Alternate);
    assert_eq!(
        tokens(&body),
        tokens(
            "{ self.retrieve_with_init::<T, OS>(OS::LEN, |out| {
                let mut model = self.model.borrow_mut();
                model.add_operation(OperationCode::ANEURALNETWORKS_RELU, &[x.ptr.idx,], &[out.ptr.idx],).unwrap();
            }) }"
        )
    );
}

#[test]
fn lowering_is_chosen_by_the_opcode_name() {
    assert_eq!(lowering_of("ANEURALNETWORKS_ADD"), Lowering::BinaryWithActivation);
    assert_eq!(lowering_of("ANEURALNETWORKS_MUL"), Lowering::BinaryWithActivation);
    assert_eq!(lowering_of("ANEURALNETWORKS_DIV"), Lowering::BinaryWithActivation);
    assert_eq!(lowering_of("None"), Lowering::Unsupported);
    assert_eq!(lowering_of("ANEURALNETWORKS_SUB"), Lowering::Default);
    assert_eq!(lowering_of("none"), Lowering::Default);
    assert_eq!(lowering_of(""), Lowering::Default);
}

#[test]
fn shape_is_decided_by_the_second_to_last_type_parameter() {
    assert_eq!(shape_of(&strings(&["T", "S"])), ShapeParam::Default);
    assert_eq!(shape_of(&strings(&["T", "IS", "OS"])), ShapeParam::Alternate);
    assert_eq!(shape_of(&strings(&["OS"])), ShapeParam::Alternate);
    assert_eq!(shape_of(&strings(&["OS", "T"])), ShapeParam::Default);
    assert_eq!(shape_of(&strings(&["OS", "S"])), ShapeParam::Default);
    assert_eq!(shape_of(&strings(&[])), ShapeParam::Default);
    assert_eq!(ShapeParam::Default.name(), "S");
    assert_eq!(ShapeParam::Alternate.name(), "OS");
}

#[test]
fn alternate_shape_sizes_the_output() {
    let input = trait_of(
        "pub trait Transpose<T, IS: Shape = (), OS: Shape = (), D: Device = Self>: Device {
            fn transpose(&self, x: &Buffer<T, D, IS>) -> Buffer<T, D, OS>;
        }",
    );
    let expansion = add_nnapi_op_impl(&input, &opcodes(&["ANEURALNETWORKS_TRANSPOSE"])).unwrap();
    assert_eq!(
        tokens(&expansion.items[1].tokens),
        tokens(
            "impl<T, IS: Shape, OS: Shape,> Transpose<T, IS, OS,> for custos::NnapiDevice
            where T: custos::AsOperandCode {
                fn transpose(&self, x: &Buffer<T, custos::NnapiDevice, IS>) -> Buffer<T, custos::NnapiDevice, OS> {
                    self.retrieve_with_init::<T, OS>(OS::LEN, |out| {
                        let mut model = self.model.borrow_mut();
                        model.add_operation(OperationCode::ANEURALNETWORKS_TRANSPOSE, &[x.ptr.idx,], &[out.ptr.idx],).unwrap();
                    })
                }
            }"
        )
    );
}

#[test]
fn too_few_opcodes_is_an_arity_error() {
    let input = trait_of(ADD_SUB);
    let error = add_nnapi_op_impl(&input, &opcodes(&["ANEURALNETWORKS_ADD"])).err().unwrap();
    assert_eq!(error, ExpandError::Arity);
    assert_eq!(error.kind(), ErrorKind::Arity);
    assert_eq!(
        error.message(),
        "The length of the provided operations does not match with the number of methods."
    );
}

#[test]
fn too_many_opcodes_is_an_arity_error() {
    let input = trait_of(ADD_SUB);
    let error = add_nnapi_op_impl(&input, &opcodes(&["ANEURALNETWORKS_ADD", "None", "None"]));
    assert_eq!(error.err(), Some(ExpandError::Arity));
}

#[test]
fn arity_is_looked_at_before_the_items() {
    let input = trait_of("pub trait Odd<T, D> { const N: usize; }");
    assert_eq!(add_nnapi_op_impl(&input, &opcodes(&[])).err(), Some(ExpandError::Arity));
    assert_eq!(
        add_nnapi_op_impl(&input, &opcodes(&["None"])).err(),
        Some(ExpandError::UnsupportedItem)
    );
}

#[test]
fn trait_without_items_and_opcodes_gives_an_empty_implementation() {
    let input = trait_of("pub trait Marker<T, D>: Device {}");
    let expansion = add_nnapi_op_impl(&input, &opcodes(&[])).unwrap();
    assert_eq!(
        tokens(&expansion.items[1].tokens),
        tokens("impl<T,> Marker<T,> for custos::NnapiDevice where T: custos::AsOperandCode {}")
    );
}

#[test]
fn trait_without_type_parameter_has_no_device() {
    let input = trait_of("pub trait Plain { fn run(&self); }");
    let error = add_nnapi_op_impl(&input, &opcodes(&["None"])).err().unwrap();
    assert_eq!(error, ExpandError::MissingDeviceParam);
    assert_eq!(error.kind(), ErrorKind::Shape);
}

#[test]
fn associated_type_is_not_supported() {
    let input = trait_of(
        "pub trait WithType<T, D> {
            fn first(&self, x: &Buffer<T, D>) -> Buffer<T, D>;
            type Out;
        }",
    );
    let error = add_nnapi_op_impl(&input, &opcodes(&["None", "None"])).err().unwrap();
    assert_eq!(error, ExpandError::UnsupportedItem);
    assert_eq!(error.kind(), ErrorKind::Shape);
    assert_eq!(error.message(), "This trait is not supported for this macro.");
}

#[test]
fn method_with_a_body_is_not_supported() {
    let input = trait_of(
        "pub trait WithDefault<T, D> {
            fn same(&self, x: &Buffer<T, D>) -> Buffer<T, D> { x.clone() }
        }",
    );
    assert_eq!(
        add_nnapi_op_impl(&input, &opcodes(&["None"])).err(),
        Some(ExpandError::UnsupportedItem)
    );
}

#[test]
fn first_failing_item_decides_the_error() {
    let input = trait_of(
        "pub trait Two<T, D> {
            fn first(&self, (a, b): &Buffer<T, D>) -> Buffer<T, D>;
            type Out;
        }",
    );
    assert_eq!(
        add_nnapi_op_impl(&input, &opcodes(&["None", "None"])).err(),
        Some(ExpandError::InvalidIdent)
    );
}

#[test]
fn buffer_parameter_needs_a_plain_name() {
    let args = vec![
        FnArg::Receiver,
        FnArg::Typed { pat: "(a , b)".to_string(), ty: "& Buffer < T >".to_string() },
    ];
    let error = collect_operands(&args).err().unwrap();
    assert_eq!(error, ExpandError::InvalidIdent);
    assert_eq!(error.message(), "Invalid ident");
    let keyword = vec![FnArg::Typed { pat: "match".to_string(), ty: "Buffer < T >".to_string() }];
    assert_eq!(collect_operands(&keyword).err(), Some(ExpandError::InvalidIdent));
}

#[test]
fn only_buffer_parameters_are_operands() {
    let args = vec![
        FnArg::Receiver,
        FnArg::Typed { pat: "lhs".to_string(), ty: "& Buffer < T , D , S >".to_string() },
        FnArg::Typed { pat: "(x , y)".to_string(), ty: "(usize , usize)".to_string() },
        FnArg::Typed { pat: "rhs".to_string(), ty: "& mut MyBuffer < T >".to_string() },
        FnArg::Typed { pat: "len".to_string(), ty: "Buffer".to_string() },
    ];
    assert_eq!(collect_operands(&args).unwrap(), strings(&["lhs", "rhs"]));
}

#[test]
fn describe_method_reads_the_rewritten_parameters() {
    let input = trait_of(ADD_SUB);
    let sig = match &input.items[0] {
        TraitItem::Fn { sig, .. } => sig,
        TraitItem::Other => panic!("the first item is a method"),
    };
    let descriptor = describe_method(sig).unwrap();
    assert_eq!(descriptor.operands, strings(&["lhs", "rhs"]));
    assert_eq!(descriptor.params.len(), 3);
    assert!(matches!(&descriptor.params[0], FnArg::Receiver));
    match &descriptor.params[1] {
        FnArg::Typed { pat, ty } => {
            assert_eq!(pat, "lhs");
            assert_eq!(ty, "& Buffer < T , custos :: NnapiDevice , S >");
        }
        FnArg::Receiver => panic!("the second parameter is typed"),
    }
    assert_eq!(
        tokens(&descriptor.signature),
        tokens(
            "fn add(&self, lhs: &Buffer<T, custos::NnapiDevice, S>, rhs: &Buffer<T, custos::NnapiDevice, S>)
                -> Buffer<T, custos::NnapiDevice, S>"
        )
    );
}

#[test]
fn device_placeholder_is_replaced_inside_longer_names() {
    let sig = Signature {
        head: "fn run".to_string(),
        inputs: "& self , x : & Buffer < T , Device >".to_string(),
        output: None,
        where_clause: String::new(),
    };
    let descriptor = describe_method(&sig).unwrap();
    assert_eq!(
        descriptor.signature,
        "fn run ( & self , x : & Buffer < T , custos::NnapiDeviceevice > )  "
    );
}

#[test]
fn parameters_that_no_longer_read_are_refused() {
    let sig = Signature {
        head: "fn run".to_string(),
        inputs: "& self , x : [u8 ; 'D']".to_string(),
        output: None,
        where_clause: String::new(),
    };
    let error = describe_method(&sig).err().unwrap();
    assert_eq!(error, ExpandError::InvalidParams);
    assert_eq!(error.kind(), ErrorKind::Reparse);
    assert_eq!(error.message(), "Invalid");
}

#[test]
fn return_type_that_no_longer_reads_is_refused() {
    let sig = Signature {
        head: "fn run".to_string(),
        inputs: "& self".to_string(),
        output: Some("[u8 ; 'D']".to_string()),
        where_clause: String::new(),
    };
    let error = describe_method(&sig).err().unwrap();
    assert_eq!(error, ExpandError::InvalidReturnType);
    assert_eq!(error.kind(), ErrorKind::Reparse);
}

#[test]
fn method_without_return_type_and_with_where_clause() {
    let input = trait_of(
        "pub trait Clear<T, D> {
            fn clear<'a>(&self, buf: &'a mut Buffer<T, D>) where T: Default;
        }",
    );
    let method = expand_method(&input.items[0], "ANEURALNETWORKS_FILL", ShapeParam::Default).unwrap();
    assert_eq!(
        tokens(&method),
        tokens(
            "fn clear<'a>(&self, buf: &'a mut Buffer<T, custos::NnapiDevice>) where T: Default {
                self.retrieve_with_init::<T, S>(S::LEN, |out| {
                    let mut model = self.model.borrow_mut();
                    model.add_operation(OperationCode::ANEURALNETWORKS_FILL, &[buf.ptr.idx,], &[out.ptr.idx],).unwrap();
                })
            }"
        )
    );
}

#[test]
fn expand_method_refuses_other_items() {
    assert_eq!(
        expand_method(&TraitItem::Other, "None", ShapeParam::Default).err(),
        Some(ExpandError::UnsupportedItem)
    );
}

#[test]
fn each_method_names_its_own_opcode() {
    let input = trait_of(
        "pub trait Three<T, S: Shape, D> {
            fn a(&self, x: &Buffer<T, D, S>) -> Buffer<T, D, S>;
            fn b(&self, x: &Buffer<T, D, S>) -> Buffer<T, D, S>;
            fn c(&self, x: &Buffer<T, D, S>) -> Buffer<T, D, S>;
        }",
    );
    let codes = opcodes(&["ANEURALNETWORKS_ABS", "ANEURALNETWORKS_EXP", "ANEURALNETWORKS_LOG"]);
    let expansion = add_nnapi_op_impl(&input, &codes).unwrap();
    let block = syn::parse_str::<syn::ItemImpl>(&expansion.items[1].tokens).unwrap();
    assert_eq!(block.items.len(), 3);
    for (item, code) in block.items.iter().zip(codes.iter()) {
        let body = text(item);
        assert!(body.contains(&format!("OperationCode :: {code} ,")));
        assert_eq!(body.matches("OperationCode ::").count(), 1);
    }
}

#[test]
fn os_before_the_second_to_last_parameter_does_not_decide() {
    let input = trait_of(
        "pub trait Odd<OS, S: Shape, D: Device = Self>: Device {
            fn run(&self, x: &Buffer<OS, D, S>) -> Buffer<OS, D, S>;
        }",
    );
    let expansion = add_nnapi_op_impl(&input, &opcodes(&["ANEURALNETWORKS_ABS"])).unwrap();
    assert!(expansion.items[1].tokens.contains("retrieve_with_init :: < T , S > ( S :: LEN ,"));
}

fn ident(name: &str) -> AttrToken {
    AttrToken::Ident(name.to_string())
}

fn comma() -> AttrToken {
    AttrToken::Punct(',')
}

#[test]
fn opcodes_are_the_names_between_commas() {
    let list = vec![ident("ANEURALNETWORKS_ADD"), comma(), ident("None")];
    assert_eq!(opcodes_of(&list), Ok(strings(&["ANEURALNETWORKS_ADD", "None"])));
    assert!(is_comma_separated(&list));
    let trailing = vec![ident("A"), comma(), ident("B"), comma()];
    assert_eq!(opcodes_of(&trailing), Ok(strings(&["A", "B"])));
    assert_eq!(opcodes_of(&Vec::new()), Ok(Vec::new()));
    assert_eq!(opcodes_of(&vec![ident("A")]), Ok(strings(&["A"])));
}

#[test]
fn names_without_commas_between_them_are_refused() {
    let side_by_side = vec![ident("A"), ident("B")];
    assert_eq!(opcodes_of(&side_by_side), Err(ExpandError::MalformedOpcodes));
    assert_eq!(attr_idents(&side_by_side), Ok(strings(&["A", "B"])));
    assert!(!is_comma_separated(&side_by_side));
    let sum = vec![ident("A"), AttrToken::Punct('+'), ident("B")];
    assert_eq!(opcodes_of(&sum), Err(ExpandError::MalformedOpcodes));
    assert_eq!(opcodes_of(&vec![comma(), ident("A")]), Err(ExpandError::MalformedOpcodes));
    assert_eq!(opcodes_of(&vec![ident("A"), comma(), comma()]), Err(ExpandError::MalformedOpcodes));
    let error = ExpandError::MalformedOpcodes;
    assert_eq!(error.kind(), ErrorKind::Shape);
    assert_eq!(error.message(), "Too few NNAPI operation enums were provided.");
}

#[test]
fn token_that_is_no_name_is_refused() {
    let list = vec![ident("A"), comma(), AttrToken::Other];
    assert_eq!(opcodes_of(&list), Err(ExpandError::InvalidOpcode));
    assert_eq!(attr_idents(&list), Err(ExpandError::InvalidOpcode));
    assert_eq!(ExpandError::InvalidOpcode.kind(), ErrorKind::Shape);
    assert_eq!(ExpandError::InvalidOpcode.message(), "Invalid");
}

#[test]
fn macro_expands_the_scenario_from_its_arguments() {
    let input = trait_of(ADD_SUB);
    let attr = vec![ident("ANEURALNETWORKS_ADD"), comma(), ident("None")];
    let expansion = impl_nnapi_op(&attr, &input).unwrap();
    assert_eq!(tokens(&expansion.items[1].tokens), tokens(ADD_SUB_IMPL));
}

#[test]
fn macro_looks_at_the_arguments_in_order() {
    let input = trait_of(ADD_SUB);
    let literal = vec![AttrToken::Other];
    assert_eq!(impl_nnapi_op(&literal, &input).err(), Some(ExpandError::InvalidOpcode));
    let three = vec![ident("A"), ident("B"), ident("C")];
    assert_eq!(impl_nnapi_op(&three, &input).err(), Some(ExpandError::Arity));
    let sum = vec![ident("A"), AttrToken::Punct('+'), ident("B")];
    assert_eq!(impl_nnapi_op(&sum, &input).err(), Some(ExpandError::MalformedOpcodes));
    let side_by_side = vec![ident("A"), ident("B")];
    assert_eq!(impl_nnapi_op(&side_by_side, &input).err(), Some(ExpandError::MalformedOpcodes));
}
