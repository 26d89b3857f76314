//! The syntax that the expansions read, as token text.
//!
//! A construct is held as the text of its tokens, cut into the pieces that an
//! expansion looks at. Token text is what a token stream prints: the tokens
//! in order, one blank between two of them.

use vstd::prelude::*;

verus! {

/// One generic parameter of a declaration.
pub enum GenericParam {
    /// A type parameter: its attributes, its name, its bounds without the
    /// colon before them, and its default without the equals sign. `attrs`
    /// and `bounds` are empty where the parameter has none.
    Type { attrs: String, ident: String, bounds: String, default: Option<String> },
    /// A lifetime parameter, as declared.
    Lifetime { decl: String },
    /// A const parameter, as declared.
    Const { decl: String },
}

/// The generic parameters of a declaration, in the order in which they are
/// declared.
pub struct Generics {
    pub params: Vec<GenericParam>,
}

/// One parameter of a function.
pub enum FnArg {
    /// `self` in one of its forms.
    Receiver,
    /// A pattern and its type.
    Typed { pat: String, ty: String },
}

/// What a parameter of a function holds.
pub enum FnArgView {
    Receiver,
    Typed { pat: Seq<char>, ty: Seq<char> },
}

impl View for FnArg {
    type V = FnArgView;

    open spec fn view(&self) -> FnArgView {
        match self {
            FnArg::Receiver => FnArgView::Receiver,
            FnArg::Typed { pat, ty } => FnArgView::Typed { pat: pat@, ty: ty@ },
        }
    }
}

/// The signature of a function.
pub struct Signature {
    /// All that stands before the parameter list: qualifiers, `fn`, the name
    /// and its generic parameters.
    pub head: String,
    /// The parameters, without the parentheses around them.
    pub inputs: String,
    /// The return type, where one is written.
    pub output: Option<String>,
    /// The where clause; empty where there is none.
    pub where_clause: String,
}

/// One item of a trait.
pub enum TraitItem {
    /// A method. `has_body` says whether the trait gives it a default body.
    Fn { sig: Signature, has_body: bool },
    /// An associated constant or type, a macro call, or anything else.
    Other,
}

/// A trait declaration.
pub struct ItemTrait {
    /// The whole declaration.
    pub tokens: String,
    /// The trait's name.
    pub ident: String,
    pub generics: Generics,
    /// The supertraits, without the colon before them; empty where there are
    /// none.
    pub supertraits: String,
    pub items: Vec<TraitItem>,
}

/// One token of the arguments of a macro.
pub enum AttrToken {
    /// An identifier, by its name.
    Ident(String),
    /// One punctuation character.
    Punct(char),
    /// A literal or a group in brackets.
    Other,
}

/// An expression, as far as a call's expansion tells expressions apart.
pub enum Expr {
    /// A path. `ident` is its name where the path is one plain name.
    Path { ident: Option<String> },
    /// Any other expression.
    Other,
}

/// A function call.
pub struct ExprCall {
    pub func: Expr,
    pub args: Vec<Expr>,
}

/// The views of the strings of `v`.
pub open spec fn texts(v: Seq<String>) -> Seq<Seq<char>> {
    v.map_values(|s: String| s@)
}

/// The views of the parameters of `v`.
pub open spec fn fn_args(v: Seq<FnArg>) -> Seq<FnArgView> {
    v.map_values(|a: FnArg| a@)
}

} // verus!
