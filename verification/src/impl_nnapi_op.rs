//! The operation table: from a trait of numeric operations and one opcode per
//! method to an implementation of the trait for the accelerator device.

use crate::error::ExpandError;
use crate::expansion::{Expansion, Gate, GatedItem, GatedItemView};
use crate::parser::{fn_args_of, is_ident, is_type, parse_fn_args, parses_as_ident, parses_as_type};
use crate::syntax::{
    fn_args, texts, AttrToken, FnArg, FnArgView, ItemTrait, Signature, TraitItem,
};
use crate::text::{
    concat, contains, lemma_concat_holds, lemma_concat_push, lemma_occurs_within,
    lemma_spaced_add, lemma_spaced_holds, occurs_at, occurs_in, replace, replace_all, same_text,
    spaced, TokenWriter,
};
use crate::trait_builds::{
    count_type_params, extract_lhs_generics_to_len, extract_rhs_generics_to_len, lhs_decls,
    list_tokens, listed, rhs_idents, separate_tokens, separated, type_params,
};
use vstd::prelude::*;
use vstd::string::*;

verus! {

/// How a method's body is built from its opcode.
#[derive(Clone, Copy, Debug, PartialEq, Eq, Structural)]
pub enum Lowering {
    /// The operation takes an activation operand behind its buffers.
    BinaryWithActivation,
    /// The operation cannot be lowered: the body aborts when it is run.
    Unsupported,
    /// The operation takes the method's buffer parameters as its inputs.
    Default,
}

/// The generic parameter that gives the shape of a method's result.
#[derive(Clone, Copy, Debug, PartialEq, Eq, Structural)]
pub enum ShapeParam {
    /// The parameter `S`.
    Default,
    /// The parameter `OS`, for a trait whose output shape has its own name.
    Alternate,
}

impl ShapeParam {
    /// The parameter's name.
    pub open spec fn spec_name(self) -> Seq<char> {
        match self {
            ShapeParam::Default => "S"@,
            ShapeParam::Alternate => "OS"@,
        }
    }

    /// The parameter's name.
    pub fn name(self) -> (n: &'static str)
        ensures
            n@ == self.spec_name(),
    {
        match self {
            ShapeParam::Default => "S",
            ShapeParam::Alternate => "OS",
        }
    }
}

/// The lowering that belongs to an opcode.
pub open spec fn lowering_for(opcode: Seq<char>) -> Lowering {
    if opcode == "ANEURALNETWORKS_ADD"@ || opcode == "ANEURALNETWORKS_MUL"@ || opcode
        == "ANEURALNETWORKS_DIV"@ {
        Lowering::BinaryWithActivation
    } else if opcode == "None"@ {
        Lowering::Unsupported
    } else {
        Lowering::Default
    }
}

/// The shape parameter of a trait whose type parameters but the last are
/// named `idents`: the alternate one exactly where the last of these, the
/// trait's second-to-last type parameter, is `OS`.
pub open spec fn shape_for(idents: Seq<Seq<char>>) -> ShapeParam {
    if idents.len() > 0 && idents.last() == "OS"@ {
        ShapeParam::Alternate
    } else {
        ShapeParam::Default
    }
}

/// A parameter whose type mentions the buffer type.
pub open spec fn is_buffer_arg(arg: FnArgView) -> bool {
    match arg {
        FnArgView::Receiver => false,
        FnArgView::Typed { ty, .. } => occurs_in(ty, "Buffer <"@),
    }
}

/// The pattern that binds a parameter.
pub open spec fn pat_of(arg: FnArgView) -> Seq<char> {
    match arg {
        FnArgView::Receiver => Seq::empty(),
        FnArgView::Typed { pat, .. } => pat,
    }
}

/// The buffer parameters among `args`, in order.
pub open spec fn buffer_args(args: Seq<FnArgView>) -> Seq<FnArgView> {
    args.filter(|arg: FnArgView| is_buffer_arg(arg))
}

/// The names of the buffer parameters among `args`, in order.
pub open spec fn operand_names(args: Seq<FnArgView>) -> Seq<Seq<char>> {
    buffer_args(args).map_values(|arg: FnArgView| pat_of(arg))
}

/// Every buffer parameter among `args` is bound by a plain name.
pub open spec fn operands_named(args: Seq<FnArgView>) -> bool {
    forall|i: int| 0 <= i < args.len() && is_buffer_arg(#[trigger] args[i]) ==> is_ident(pat_of(args[i]))
}

/// The operand index of the buffer named `operand`.
pub open spec fn index_of(operand: Seq<char>) -> Seq<char> {
    operand + " . ptr . idx"@
}

/// The indices of the buffers named `operands`, in that order.
pub open spec fn buffer_indices(operands: Seq<Seq<char>>) -> Seq<Seq<char>> {
    operands.map_values(|operand: Seq<char>| index_of(operand))
}

/// The input operand indices of the operation record, in order: the
/// method's buffer parameters as it declares them, and behind them the
/// activation operand where the operation takes one.
pub open spec fn input_indices(lowering: Lowering, operands: Seq<Seq<char>>) -> Seq<Seq<char>> {
    match lowering {
        Lowering::BinaryWithActivation => buffer_indices(operands).push("activation_idx"@),
        Lowering::Unsupported => Seq::empty(),
        Lowering::Default => buffer_indices(operands),
    }
}

/// The opcode as the operation record names it.
pub open spec fn opcode_reference(opcode: Seq<char>) -> Seq<char> {
    spaced(seq!["OperationCode ::"@, opcode])
}

/// The inputs between the brackets of the operation record: a comma behind
/// each input where all are buffer parameters, a comma between the inputs of
/// an operation with activation.
pub open spec fn index_list(lowering: Lowering, operands: Seq<Seq<char>>) -> Seq<char> {
    match lowering {
        Lowering::Default => listed(input_indices(lowering, operands)),
        _ => separated(input_indices(lowering, operands)),
    }
}

/// The statement that aborts an unsupported operation, and nothing for any
/// other.
pub open spec fn abort_tokens(lowering: Lowering) -> Seq<char> {
    match lowering {
        Lowering::Unsupported => "unimplemented ! (\"This operation is not supported by NNAPI.\") ; # [allow (unreachable_code)]"@,
        _ => Seq::empty(),
    }
}

/// The statements that allocate and register the activation operand, and
/// nothing where the operation takes none.
pub open spec fn activation_tokens(lowering: Lowering) -> Seq<char> {
    match lowering {
        Lowering::BinaryWithActivation => "let activation_idx = self . add_operand (& Operand :: activation ()) . unwrap () ; model . set_activation_operand_value (activation_idx as i32) . unwrap () ;"@,
        _ => Seq::empty(),
    }
}

/// The parts of a method's body: the abort where the operation is not
/// supported, then the call that allocates the output by the shape's length
/// and records the operation with its inputs and that output.
pub open spec fn body_parts(
    opcode: Seq<char>,
    operands: Seq<Seq<char>>,
    shape: ShapeParam,
) -> Seq<Seq<char>> {
    seq![
        "{"@,
        abort_tokens(lowering_for(opcode)),
        "self . retrieve_with_init :: < T ,"@,
        shape.spec_name(),
        "> ("@,
        shape.spec_name(),
        ":: LEN , | out | { let mut model = self . model . borrow_mut () ;"@,
        activation_tokens(lowering_for(opcode)),
        "model . add_operation ("@,
        "OperationCode ::"@,
        opcode,
        ", & ["@,
        index_list(lowering_for(opcode), operands),
        "] , & [out . ptr . idx] ,) . unwrap () ; }) }"@,
    ]
}

/// A method's parameters with the device type written for its placeholder.
pub open spec fn new_inputs(sig: Signature) -> Seq<char> {
    replace_all(sig.inputs@, "D"@, "custos::NnapiDevice"@)
}

/// A method's return type with the device type written for its placeholder.
pub open spec fn new_output(sig: Signature) -> Option<Seq<char>> {
    match sig.output {
        Some(ty) => Some(replace_all(ty@, "D"@, "custos::NnapiDevice"@)),
        None => None,
    }
}

/// The parts of a method's signature once the device type is written in.
pub open spec fn signature_parts(sig: Signature) -> Seq<Seq<char>> {
    seq![sig.head@, "("@, new_inputs(sig), ")"@] + (match new_output(sig) {
        Some(ty) => seq!["->"@, ty],
        None => Seq::empty(),
    }) + seq![sig.where_clause@]
}

/// The operands of a method, or why it cannot be implemented: its rewritten
/// parameters must read as parameters, its rewritten return type as a type,
/// and each buffer parameter must have a plain name.
pub open spec fn operands_of(sig: Signature) -> Result<Seq<Seq<char>>, ExpandError> {
    match fn_args_of(new_inputs(sig)) {
        None => Err(ExpandError::InvalidParams),
        Some(args) => {
            if new_output(sig) is Some && !is_type(new_output(sig)->0) {
                Err(ExpandError::InvalidReturnType)
            } else if !operands_named(args) {
                Err(ExpandError::InvalidIdent)
            } else {
                Ok(operand_names(args))
            }
        },
    }
}

/// The implementation of one trait item by `opcode`, or why there is none.
/// Only a method that the trait declares without a body has one.
pub open spec fn method_outcome(item: TraitItem, opcode: Seq<char>, shape: ShapeParam) -> Result<
    Seq<char>,
    ExpandError,
> {
    match item {
        TraitItem::Other => Err(ExpandError::UnsupportedItem),
        TraitItem::Fn { sig, has_body } => {
            if has_body {
                Err(ExpandError::UnsupportedItem)
            } else {
                match operands_of(sig) {
                    Err(e) => Err(e),
                    Ok(operands) => Ok(
                        spaced(signature_parts(sig) + body_parts(opcode, operands, shape)),
                    ),
                }
            }
        },
    }
}

/// The shape parameter of a trait: decided by its second-to-last type
/// parameter, the last one being the device.
pub open spec fn trait_shape(input: ItemTrait) -> ShapeParam {
    shape_for(
        rhs_idents(input.generics.params@, type_params(input.generics.params@).len() - 1),
    )
}

/// The implementation of the trait's item `i` by the opcode at `i`, or why
/// there is none.
pub open spec fn method_result(input: ItemTrait, opcodes: Seq<Seq<char>>, i: int) -> Result<
    Seq<char>,
    ExpandError,
> {
    method_outcome(input.items@[i], opcodes[i], trait_shape(input))
}

/// Item `i` is the first of the trait that cannot be implemented.
pub open spec fn first_failure(input: ItemTrait, opcodes: Seq<Seq<char>>, i: int) -> bool {
    &&& 0 <= i < input.items@.len()
    &&& method_result(input, opcodes, i) is Err
    &&& forall|j: int| 0 <= j < i ==> (#[trigger] method_result(input, opcodes, j)) is Ok
}

/// The trait can be implemented by the opcodes: they are as many as its
/// items, it has a type parameter for the device, and every item has an
/// implementation.
pub open spec fn implementable(input: ItemTrait, opcodes: Seq<Seq<char>>) -> bool {
    &&& opcodes.len() == input.items@.len()
    &&& type_params(input.generics.params@).len() > 0
    &&& forall|i: int|
        0 <= i < input.items@.len() ==> (#[trigger] method_result(input, opcodes, i)) is Ok
}

/// The implemented methods, one for each item of the trait, in order.
pub open spec fn method_texts(input: ItemTrait, opcodes: Seq<Seq<char>>) -> Seq<Seq<char>> {
    Seq::new(input.items@.len(), |i: int| method_result(input, opcodes, i)->Ok_0)
}

/// The parts that open the implementation: the trait's own parameters
/// without defaults, the trait with their names as arguments, the device
/// type, and the bound on the element type.
pub open spec fn impl_header_parts(input: ItemTrait) -> Seq<Seq<char>> {
    let own = type_params(input.generics.params@).len() - 1;
    seq![
        "impl <"@,
        listed(lhs_decls(input.generics.params@, own)),
        ">"@,
        input.ident@,
        "<"@,
        listed(rhs_idents(input.generics.params@, own)),
        "> for custos :: NnapiDevice where T : custos :: AsOperandCode {"@,
    ]
}

/// The implementation that holds `methods`.
pub open spec fn impl_tokens(input: ItemTrait, methods: Seq<Seq<char>>) -> Seq<char> {
    spaced(impl_header_parts(input)) + concat(methods) + "}"@
}

/// The whole expansion: the trait as it was declared, then its
/// implementation for the accelerator device, both compiled only where the
/// accelerator backend is enabled.
pub open spec fn nnapi_items(input: ItemTrait, opcodes: Seq<Seq<char>>) -> Seq<GatedItemView> {
    seq![
        GatedItemView { gate: Gate::Nnapi, tokens: input.tokens@ },
        GatedItemView {
            gate: Gate::Nnapi,
            tokens: impl_tokens(input, method_texts(input, opcodes)),
        },
    ]
}

/// `r` is the outcome of implementing the trait by the opcodes. It is `Ok`
/// exactly where the trait can be implemented, and then holds the whole
/// expansion. Otherwise the opcodes' number is looked at first, then the
/// device parameter, then the items in order: the first that has no
/// implementation decides the error.
pub open spec fn is_nnapi_outcome(
    input: ItemTrait,
    opcodes: Seq<Seq<char>>,
    r: Result<Expansion, ExpandError>,
) -> bool {
    &&& r is Ok <==> implementable(input, opcodes)
    &&& r matches Ok(expansion) ==> expansion@ == nnapi_items(input, opcodes)
    &&& opcodes.len() != input.items@.len() ==> r == Err::<Expansion, ExpandError>(
        ExpandError::Arity,
    )
    &&& opcodes.len() == input.items@.len() && type_params(input.generics.params@).len() == 0
        ==> r == Err::<Expansion, ExpandError>(ExpandError::MissingDeviceParam)
    &&& opcodes.len() == input.items@.len() && type_params(input.generics.params@).len() > 0
        ==> (r matches Err(e) ==> exists|i: int|
        first_failure(input, opcodes, i) && method_result(input, opcodes, i) == Err::<
            Seq<char>,
            ExpandError,
        >(e))
}

/// A comma.
pub open spec fn is_comma(token: AttrToken) -> bool {
    match token {
        AttrToken::Punct(c) => c == ',',
        _ => false,
    }
}

/// The name of an identifier; nothing for any other token.
pub open spec fn name_of_token(token: AttrToken) -> Seq<char> {
    match token {
        AttrToken::Ident(name) => name@,
        _ => Seq::empty(),
    }
}

/// One of the tokens is neither an identifier nor punctuation.
pub open spec fn has_other(tokens: Seq<AttrToken>) -> bool {
    exists|i: int| 0 <= i < tokens.len() && (#[trigger] tokens[i]) is Other
}

/// The names of the identifiers among `tokens`, in order.
pub open spec fn idents_of(tokens: Seq<AttrToken>) -> Seq<Seq<char>> {
    tokens.filter(|token: AttrToken| token is Ident).map_values(
        |token: AttrToken| name_of_token(token),
    )
}

/// The tokens are identifiers with one comma between each two; a comma may
/// follow the last.
pub open spec fn comma_separated_idents(tokens: Seq<AttrToken>) -> bool {
    forall|i: int|
        0 <= i < tokens.len() ==> if i % 2 == 0 {
            (#[trigger] tokens[i]) is Ident
        } else {
            is_comma(tokens[i])
        }
}

/// What the signature of a method gives to its implementation.
pub struct MethodDescriptor {
    /// The signature with the device type written in.
    pub signature: String,
    /// The parameters, as they read with the device type written in.
    pub params: Vec<FnArg>,
    /// The names of the buffer parameters, in the order of the parameters.
    pub operands: Vec<String>,
}

/// The lowering that belongs to an opcode.
pub fn lowering_of(opcode: &str) -> (lowering: Lowering)
    ensures
        lowering == lowering_for(opcode@),
{
    if same_text(opcode, "ANEURALNETWORKS_ADD") || same_text(opcode, "ANEURALNETWORKS_MUL")
        || same_text(opcode, "ANEURALNETWORKS_DIV") {
        Lowering::BinaryWithActivation
    } else if same_text(opcode, "None") {
        Lowering::Unsupported
    } else {
        Lowering::Default
    }
}

/// The shape parameter of a trait whose type parameters but the last are
/// named `idents`.
pub fn shape_of(idents: &Vec<String>) -> (shape: ShapeParam)
    ensures
        shape == shape_for(texts(idents@)),
{
    if idents.len() > 0 && same_text(idents[idents.len() - 1].as_str(), "OS") {
        ShapeParam::Alternate
    } else {
        ShapeParam::Default
    }
}

/// The names of the buffer parameters among `args`, in order; an error where
/// one of them is bound by anything but a plain name.
pub fn collect_operands(args: &Vec<FnArg>) -> (r: Result<Vec<String>, ExpandError>)
    ensures
        match r {
            Ok(operands) => operands_named(fn_args(args@)) && texts(operands@) == operand_names(
                fn_args(args@),
            ),
            Err(e) => e == ExpandError::InvalidIdent && !operands_named(fn_args(args@)),
        },
{
    let mut operands: Vec<String> = Vec::new();
    let mut i: usize = 0;
    let ghost all = fn_args(args@);
    let ghost pred = |arg: FnArgView| is_buffer_arg(arg);
    let ghost pat = |arg: FnArgView| pat_of(arg);
    proof {
        reveal(Seq::filter);
        assert(all.take(0) =~= Seq::<FnArgView>::empty());
        assert(texts(operands@) =~= operand_names(all.take(0)));
    }
    while i < args.len()
        invariant
            i <= args.len(),
            all == fn_args(args@),
            pred == (|arg: FnArgView| is_buffer_arg(arg)),
            pat == (|arg: FnArgView| pat_of(arg)),
            texts(operands@) == operand_names(all.take(i as int)),
            forall|j: int| 0 <= j < i && is_buffer_arg(#[trigger] all[j]) ==> is_ident(pat_of(all[j])),
        decreases args.len() - i,
    {
        let ghost before = texts(operands@);
        proof {
            assert(all.take(i + 1) =~= all.take(i as int).push(all[i as int]));
            Seq::lemma_filter_push(all.take(i as int), all[i as int], pred);
            assert(all[i as int] == args@[i as int]@);
        }
        match &args[i] {
            FnArg::Receiver => {},
            FnArg::Typed { pat: name, ty } => {
                if contains(ty.as_str(), "Buffer <") {
                    if !parses_as_ident(name.as_str()) {
                        return Err(ExpandError::InvalidIdent);
                    }
                    operands.push(name.clone());
                    proof {
                        assert(texts(operands@) =~= before.push(name@));
                        assert(buffer_args(all.take(i as int)).push(all[i as int]).map_values(pat)
                            =~= buffer_args(all.take(i as int)).map_values(pat).push(name@));
                    }
                }
            },
        }
        i += 1;
    }
    proof {
        assert(all.take(i as int) =~= all);
    }
    Ok(operands)
}

/// The input operand indices of the operation record, in order.
pub fn operation_inputs(lowering: Lowering, operands: &Vec<String>) -> (inputs: Vec<String>)
    ensures
        texts(inputs@) == input_indices(lowering, texts(operands@)),
{
    let mut inputs: Vec<String> = Vec::new();
    match lowering {
        Lowering::Unsupported => {},
        _ => {
            let mut i: usize = 0;
            while i < operands.len()
                invariant
                    i <= operands.len(),
                    inputs.len() == i,
                    forall|j: int| 0 <= j < i ==> (#[trigger] inputs@[j])@ == index_of(operands@[j]@),
                decreases operands.len() - i,
            {
                let mut index = operands[i].clone();
                index.append(" . ptr . idx");
                inputs.push(index);
                i += 1;
            }
            proof {
                assert(texts(inputs@) =~= buffer_indices(texts(operands@)));
            }
            match lowering {
                Lowering::BinaryWithActivation => {
                    inputs.push(String::from_str("activation_idx"));
                },
                _ => {},
            }
        },
    }
    proof {
        assert(texts(inputs@) =~= input_indices(lowering, texts(operands@)));
    }
    inputs
}

/// Reads a method's signature for its implementation: writes the device
/// type for its placeholder in the parameters and in the return type, and
/// collects the buffer parameters.
pub fn describe_method(sig: &Signature) -> (r: Result<MethodDescriptor, ExpandError>)
    ensures
        match r {
            Ok(d) => {
                &&& operands_of(*sig) == Ok::<Seq<Seq<char>>, ExpandError>(texts(d.operands@))
                &&& d.signature@ == spaced(signature_parts(*sig))
                &&& fn_args_of(new_inputs(*sig)) == Some(fn_args(d.params@))
            },
            Err(e) => operands_of(*sig) == Err::<Seq<Seq<char>>, ExpandError>(e),
        },
{
    let inputs = replace(sig.inputs.as_str(), "D", "custos::NnapiDevice");
    let params = match parse_fn_args(inputs.as_str()) {
        Some(params) => params,
        None => {
            return Err(ExpandError::InvalidParams);
        },
    };
    let mut w = TokenWriter::new();
    w.put(sig.head.as_str());
    w.put("(");
    w.put(inputs.as_str());
    w.put(")");
    match &sig.output {
        Some(ty) => {
            let output = replace(ty.as_str(), "D", "custos::NnapiDevice");
            if !parses_as_type(output.as_str()) {
                return Err(ExpandError::InvalidReturnType);
            }
            w.put("->");
            w.put(output.as_str());
        },
        None => {},
    }
    w.put(sig.where_clause.as_str());
    proof {
        assert(w.parts() =~= signature_parts(*sig));
    }
    let operands = match collect_operands(&params) {
        Ok(operands) => operands,
        Err(e) => {
            return Err(e);
        },
    };
    Ok(MethodDescriptor { signature: w.finish(), params, operands })
}

/// The statement that aborts an unsupported operation, and nothing for any
/// other.
fn abort_text(lowering: Lowering) -> (t: &'static str)
    ensures
        t@ == abort_tokens(lowering),
{
    proof {
        reveal_strlit("");
    }
    match lowering {
        Lowering::Unsupported => "unimplemented ! (\"This operation is not supported by NNAPI.\") ; # [allow (unreachable_code)]",
        _ => "",
    }
}

/// The statements that allocate and register the activation operand, and
/// nothing where the operation takes none.
fn activation_text(lowering: Lowering) -> (t: &'static str)
    ensures
        t@ == activation_tokens(lowering),
{
    proof {
        reveal_strlit("");
    }
    match lowering {
        Lowering::BinaryWithActivation => "let activation_idx = self . add_operand (& Operand :: activation ()) . unwrap () ; model . set_activation_operand_value (activation_idx as i32) . unwrap () ;",
        _ => "",
    }
}

/// The body that implements a method by `opcode`, for a method whose buffer
/// parameters are `operands`.
pub fn method_body(opcode: &str, operands: &Vec<String>, shape: ShapeParam) -> (body: String)
    ensures
        body@ == spaced(body_parts(opcode@, texts(operands@), shape)),
{
    let lowering = lowering_of(opcode);
    let inputs = operation_inputs(lowering, operands);
    let indices = match lowering {
        Lowering::Default => list_tokens(&inputs),
        _ => separate_tokens(&inputs),
    };
    let mut w = TokenWriter::new();
    w.put("{");
    w.put(abort_text(lowering));
    w.put("self . retrieve_with_init :: < T ,");
    w.put(shape.name());
    w.put("> (");
    w.put(shape.name());
    w.put(":: LEN , | out | { let mut model = self . model . borrow_mut () ;");
    w.put(activation_text(lowering));
    w.put("model . add_operation (");
    w.put("OperationCode ::");
    w.put(opcode);
    w.put(", & [");
    w.put(indices.as_str());
    w.put("] , & [out . ptr . idx] ,) . unwrap () ; }) }");
    proof {
        assert(w.parts() =~= body_parts(opcode@, texts(operands@), shape));
    }
    w.finish()
}

/// Implements one item of the trait by `opcode`.
pub fn expand_method(item: &TraitItem, opcode: &str, shape: ShapeParam) -> (r: Result<
    String,
    ExpandError,
>)
    ensures
        match r {
            Ok(tokens) => method_outcome(*item, opcode@, shape) == Ok::<Seq<char>, ExpandError>(
                tokens@,
            ),
            Err(e) => method_outcome(*item, opcode@, shape) == Err::<Seq<char>, ExpandError>(e),
        },
{
    match item {
        TraitItem::Other => Err(ExpandError::UnsupportedItem),
        TraitItem::Fn { sig, has_body } => {
            if *has_body {
                return Err(ExpandError::UnsupportedItem);
            }
            let descriptor = match describe_method(sig) {
                Ok(descriptor) => descriptor,
                Err(e) => {
                    return Err(e);
                },
            };
            let body = method_body(opcode, &descriptor.operands, shape);
            let mut tokens = descriptor.signature;
            tokens.append(body.as_str());
            proof {
                lemma_spaced_add(
                    signature_parts(*sig),
                    body_parts(opcode@, texts(descriptor.operands@), shape),
                );
            }
            Ok(tokens)
        },
    }
}

/// Implements the trait `input` for the accelerator device, the method at
/// each position by the opcode at that position.
///
/// The opcodes must be as many as the trait's items, and the trait must have
/// a type parameter for the device; then every item must be a method that
/// can be implemented. The first item that cannot decides the error. Nothing
/// is produced unless everything is.
pub fn add_nnapi_op_impl(input: &ItemTrait, opcodes: &Vec<String>) -> (r: Result<
    Expansion,
    ExpandError,
>)
    ensures
        is_nnapi_outcome(*input, texts(opcodes@), r),
{
    if opcodes.len() != input.items.len() {
        return Err(ExpandError::Arity);
    }
    let type_params_len = count_type_params(&input.generics);
    if type_params_len == 0 {
        return Err(ExpandError::MissingDeviceParam);
    }
    proof {
        input.generics.params@.lemma_filter_len(|p: crate::syntax::GenericParam| p is Type);
    }
    let rhs_generics = extract_rhs_generics_to_len(&input.generics, type_params_len - 1);
    let shape = shape_of(&rhs_generics.idents);
    let lhs_generics = extract_lhs_generics_to_len(&input.generics, type_params_len - 1);

    let mut methods = String::new();
    let ghost mut done: Seq<Seq<char>> = Seq::empty();
    let mut i: usize = 0;
    while i < input.items.len()
        invariant
            i <= input.items.len(),
            opcodes.len() == input.items.len(),
            type_params(input.generics.params@).len() > 0,
            shape == trait_shape(*input),
            done.len() == i,
            methods@ == concat(done),
            forall|j: int|
                0 <= j < i ==> (#[trigger] method_result(*input, texts(opcodes@), j)) == Ok::<
                    Seq<char>,
                    ExpandError,
                >(done[j]),
        decreases input.items.len() - i,
    {
        proof {
            assert(texts(opcodes@)[i as int] == opcodes@[i as int]@);
        }
        match expand_method(&input.items[i], opcodes[i].as_str(), shape) {
            Ok(method) => {
                proof {
                    lemma_concat_push(done, method@);
                    done = done.push(method@);
                }
                methods.append(method.as_str());
            },
            Err(e) => {
                proof {
                    assert(first_failure(*input, texts(opcodes@), i as int));
                }
                return Err(e);
            },
        }
        i += 1;
    }
    let mut w = TokenWriter::new();
    w.put("impl <");
    w.put(lhs_generics.as_str());
    w.put(">");
    w.put(input.ident.as_str());
    w.put("<");
    w.put(rhs_generics.tokens.as_str());
    w.put("> for custos :: NnapiDevice where T : custos :: AsOperandCode {");
    proof {
        assert(w.parts() =~= impl_header_parts(*input));
        assert(done =~= method_texts(*input, texts(opcodes@)));
    }
    let mut tokens = w.finish();
    tokens.append(methods.as_str());
    tokens.append("}");
    let mut items: Vec<GatedItem> = Vec::new();
    items.push(GatedItem { gate: Gate::Nnapi, tokens: input.tokens.clone() });
    items.push(GatedItem { gate: Gate::Nnapi, tokens });
    let expansion = Expansion { items };
    proof {
        assert(expansion@ =~= nnapi_items(*input, texts(opcodes@)));
    }
    Ok(expansion)
}

/// The names among the tokens of an opcode list, in order. A token that is
/// neither a name nor punctuation is refused.
pub fn attr_idents(tokens: &Vec<AttrToken>) -> (r: Result<Vec<String>, ExpandError>)
    ensures
        r is Ok <==> !has_other(tokens@),
        r matches Ok(names) ==> texts(names@) == idents_of(tokens@),
        r matches Err(e) ==> e == ExpandError::InvalidOpcode,
{
    let mut names: Vec<String> = Vec::new();
    let mut i: usize = 0;
    let ghost pred = |token: AttrToken| token is Ident;
    let ghost name = |token: AttrToken| name_of_token(token);
    proof {
        reveal(Seq::filter);
        assert(tokens@.take(0) =~= Seq::<AttrToken>::empty());
        assert(texts(names@) =~= idents_of(tokens@.take(0)));
    }
    while i < tokens.len()
        invariant
            i <= tokens.len(),
            pred == (|token: AttrToken| token is Ident),
            name == (|token: AttrToken| name_of_token(token)),
            texts(names@) == idents_of(tokens@.take(i as int)),
            forall|j: int| 0 <= j < i ==> !((#[trigger] tokens@[j]) is Other),
        decreases tokens.len() - i,
    {
        let ghost before = texts(names@);
        let ghost seen = tokens@.take(i as int);
        proof {
            assert(tokens@.take(i + 1) =~= seen.push(tokens@[i as int]));
            Seq::lemma_filter_push(seen, tokens@[i as int], pred);
        }
        match &tokens[i] {
            AttrToken::Ident(ident) => {
                names.push(ident.clone());
                proof {
                    assert(texts(names@) =~= before.push(ident@));
                    assert(seen.filter(pred).push(tokens@[i as int]).map_values(name)
                        =~= seen.filter(pred).map_values(name).push(ident@));
                }
            },
            AttrToken::Punct(_) => {},
            AttrToken::Other => {
                return Err(ExpandError::InvalidOpcode);
            },
        }
        i += 1;
    }
    proof {
        assert(tokens@.take(i as int) =~= tokens@);
    }
    Ok(names)
}

/// Whether the tokens are identifiers with one comma between each two.
pub fn is_comma_separated(tokens: &Vec<AttrToken>) -> (r: bool)
    ensures
        r == comma_separated_idents(tokens@),
{
    let mut i: usize = 0;
    while i < tokens.len()
        invariant
            i <= tokens.len(),
            forall|j: int|
                0 <= j < i ==> if j % 2 == 0 {
                    (#[trigger] tokens@[j]) is Ident
                } else {
                    is_comma(tokens@[j])
                },
        decreases tokens.len() - i,
    {
        let fits = match &tokens[i] {
            AttrToken::Ident(_) => i % 2 == 0,
            AttrToken::Punct(c) => i % 2 == 1 && *c == ',',
            AttrToken::Other => false,
        };
        if !fits {
            return false;
        }
        i += 1;
    }
    true
}

/// The opcodes that the arguments of the macro name: the identifiers, in
/// order, of a list of identifiers with one comma between each two.
pub fn opcodes_of(tokens: &Vec<AttrToken>) -> (r: Result<Vec<String>, ExpandError>)
    ensures
        r is Ok <==> comma_separated_idents(tokens@),
        r matches Ok(names) ==> texts(names@) == idents_of(tokens@),
        r matches Err(e) ==> e == if has_other(tokens@) {
            ExpandError::InvalidOpcode
        } else {
            ExpandError::MalformedOpcodes
        },
{
    let names = match attr_idents(tokens) {
        Ok(names) => names,
        Err(e) => {
            return Err(e);
        },
    };
    if !is_comma_separated(tokens) {
        return Err(ExpandError::MalformedOpcodes);
    }
    Ok(names)
}

/// Expands a trait under the macro whose arguments are `attr`: implements
/// it for the accelerator device by the opcodes that the arguments name.
///
/// A token that is neither a name nor punctuation is refused first. Then the
/// names must be as many as the trait's items, and then the arguments a list
/// of names with commas between them. What follows is the work of
/// [`add_nnapi_op_impl`].
pub fn impl_nnapi_op(attr: &Vec<AttrToken>, item: &ItemTrait) -> (r: Result<
    Expansion,
    ExpandError,
>)
    ensures
        has_other(attr@) ==> r == Err::<Expansion, ExpandError>(ExpandError::InvalidOpcode),
        !has_other(attr@) && idents_of(attr@).len() != item.items@.len() ==> r == Err::<
            Expansion,
            ExpandError,
        >(ExpandError::Arity),
        !has_other(attr@) && idents_of(attr@).len() == item.items@.len()
            && !comma_separated_idents(attr@) ==> r == Err::<Expansion, ExpandError>(
            ExpandError::MalformedOpcodes,
        ),
        comma_separated_idents(attr@) ==> is_nnapi_outcome(*item, idents_of(attr@), r),
{
    let opcodes = match attr_idents(attr) {
        Ok(opcodes) => opcodes,
        Err(e) => {
            return Err(e);
        },
    };
    if opcodes.len() != item.items.len() {
        return Err(ExpandError::Arity);
    }
    if !is_comma_separated(attr) {
        return Err(ExpandError::MalformedOpcodes);
    }
    add_nnapi_op_impl(item, &opcodes)
}

/// What stands in a text that stands in another stands in that other.
proof fn lemma_occurs_in_part(whole: Seq<char>, part: Seq<char>, pat: Seq<char>)
    requires
        occurs_in(whole, part),
        occurs_in(part, pat),
    ensures
        occurs_in(whole, pat),
{
    let at = choose|at: int| occurs_at(whole, part, at);
    lemma_occurs_within(whole.take(at), part, whole.skip(at + part.len()), pat);
    assert(whole.take(at) + part + whole.skip(at + part.len()) =~= whole);
}

/// With as many opcodes as items, the expansion holds the trait as it was
/// declared and exactly one implementation. The implementation holds one
/// method for each item of the trait, in the order of the items, and the
/// method at each position names the opcode of that position.
pub proof fn law_one_method_per_opcode(input: ItemTrait, opcodes: Seq<Seq<char>>, i: int)
    requires
        opcodes.len() == input.items@.len(),
        0 <= i < input.items@.len(),
    ensures
        nnapi_items(input, opcodes).len() == 2,
        nnapi_items(input, opcodes)[0].tokens == input.tokens@,
        nnapi_items(input, opcodes)[1].tokens == impl_tokens(input, method_texts(input, opcodes)),
        method_texts(input, opcodes).len() == input.items@.len(),
        occurs_in(nnapi_items(input, opcodes)[1].tokens, method_texts(input, opcodes)[i]),
        method_result(input, opcodes, i) is Ok ==> occurs_in(
            method_texts(input, opcodes)[i],
            opcode_reference(opcodes[i]),
        ),
        method_result(input, opcodes, i) is Ok ==> occurs_in(
            nnapi_items(input, opcodes)[1].tokens,
            opcode_reference(opcodes[i]),
        ),
{
    let methods = method_texts(input, opcodes);
    let whole = impl_tokens(input, methods);
    lemma_concat_holds(methods, i);
    lemma_occurs_within(spaced(impl_header_parts(input)), concat(methods), "}"@, methods[i]);
    if method_result(input, opcodes, i) is Ok {
        let shape = trait_shape(input);
        let sig = input.items@[i]->sig;
        let operands = operands_of(sig)->Ok_0;
        let body = body_parts(opcodes[i], operands, shape);
        let front = signature_parts(sig) + body.take(9);
        let mid = seq!["OperationCode ::"@, opcodes[i]];
        let back = body.skip(11);
        assert(front + mid + back =~= signature_parts(sig) + body);
        lemma_spaced_holds(front, mid, back);
        assert(methods[i] == spaced(signature_parts(sig) + body));
        assert(occurs_in(methods[i], opcode_reference(opcodes[i])));
        lemma_occurs_in_part(whole, methods[i], opcode_reference(opcodes[i]));
    }
}

/// The inputs of an operation with activation are the indices of the
/// method's buffer parameters, in the order in which the method declares
/// them, and behind them the activation operand. For a method of two
/// buffers these are exactly three, the activation operand the third. The
/// body allocates and registers that operand once, before it records the
/// operation. The body of any other operation allocates none.
pub proof fn law_activation_is_third_input(
    opcode: Seq<char>,
    operands: Seq<Seq<char>>,
    shape: ShapeParam,
)
    ensures
        lowering_for(opcode) == Lowering::BinaryWithActivation ==> {
            &&& input_indices(lowering_for(opcode), operands) == input_indices(
                Lowering::Default,
                operands,
            ).push("activation_idx"@)
            &&& input_indices(lowering_for(opcode), operands).len() == operands.len() + 1
            &&& input_indices(lowering_for(opcode), operands).last() == "activation_idx"@
            &&& forall|i: int|
                0 <= i < operands.len() ==> #[trigger] input_indices(
                    lowering_for(opcode),
                    operands,
                )[i] == index_of(operands[i])
            &&& body_parts(opcode, operands, shape)[7] == activation_tokens(
                Lowering::BinaryWithActivation,
            )
            &&& body_parts(opcode, operands, shape)[12] == separated(
                input_indices(lowering_for(opcode), operands),
            )
        },
        lowering_for(opcode) == Lowering::BinaryWithActivation && operands.len() == 2 ==> {
            &&& input_indices(lowering_for(opcode), operands).len() == 3
            &&& input_indices(lowering_for(opcode), operands)[0] == index_of(operands[0])
            &&& input_indices(lowering_for(opcode), operands)[1] == index_of(operands[1])
            &&& input_indices(lowering_for(opcode), operands)[2] == "activation_idx"@
        },
        lowering_for(opcode) != Lowering::BinaryWithActivation ==> body_parts(
            opcode,
            operands,
            shape,
        )[7] == Seq::<char>::empty(),
{
}

/// The opcode `None` stands for an operation that is not supported. Its
/// body begins with the abort, so that nothing behind it is ever run; its
/// operation record has no input, whatever the method's parameters are, and
/// no activation operand is allocated. The body of any other operation does
/// not abort.
pub proof fn law_unsupported_aborts(opcode: Seq<char>, operands: Seq<Seq<char>>, shape: ShapeParam)
    ensures
        lowering_for("None"@) == Lowering::Unsupported,
        lowering_for(opcode) == Lowering::Unsupported <==> opcode == "None"@,
        lowering_for(opcode) == Lowering::Unsupported ==> {
            &&& body_parts(opcode, operands, shape)[0] == "{"@
            &&& body_parts(opcode, operands, shape)[1] == abort_tokens(Lowering::Unsupported)
            &&& input_indices(lowering_for(opcode), operands) == Seq::<Seq<char>>::empty()
            &&& body_parts(opcode, operands, shape)[12] == Seq::<char>::empty()
            &&& body_parts(opcode, operands, shape)[7] == Seq::<char>::empty()
        },
        lowering_for(opcode) != Lowering::Unsupported ==> body_parts(opcode, operands, shape)[1]
            == Seq::<char>::empty(),
{
    reveal_strlit("None");
    reveal_strlit("ANEURALNETWORKS_ADD");
    reveal_strlit("ANEURALNETWORKS_MUL");
    reveal_strlit("ANEURALNETWORKS_DIV");
    assert("None"@.len() == 4);
    assert("ANEURALNETWORKS_ADD"@.len() == 19);
    assert("ANEURALNETWORKS_MUL"@.len() == 19);
    assert("ANEURALNETWORKS_DIV"@.len() == 19);
}

} // verus!
