//! The expansion of a call into a recorded operation. It checks that the
//! call has the expected shape; it writes nothing yet.

use crate::error::ExpandError;
use crate::syntax::{Expr, ExprCall};
use vstd::prelude::*;
use vstd::string::*;

verus! {

/// The name that an expression stands for, or why it stands for none: it
/// must be a path, and the path one plain name.
pub open spec fn name_of(expr: Expr) -> Result<Seq<char>, ExpandError> {
    match expr {
        Expr::Other => Err(ExpandError::NotAPath),
        Expr::Path { ident } => match ident {
            Some(name) => Ok(name@),
            None => Err(ExpandError::NotAnIdent),
        },
    }
}

/// The callee and every argument of the call are plain names.
pub open spec fn all_named(input: ExprCall) -> bool {
    &&& name_of(input.func) is Ok
    &&& forall|i: int| 0 <= i < input.args@.len() ==> name_of(#[trigger] input.args@[i]) is Ok
}

/// Argument `i` is the first of the call that is not a plain name.
pub open spec fn first_bad_arg(input: ExprCall, i: int) -> bool {
    &&& 0 <= i < input.args@.len()
    &&& name_of(input.args@[i]) is Err
    &&& forall|j: int| 0 <= j < i ==> name_of(#[trigger] input.args@[j]) is Ok
}

/// The name that an expression stands for.
pub fn ident_of_expr(expr: &Expr) -> (r: Result<String, ExpandError>)
    ensures
        match r {
            Ok(name) => name_of(*expr) == Ok::<Seq<char>, ExpandError>(name@),
            Err(e) => name_of(*expr) == Err::<Seq<char>, ExpandError>(e),
        },
{
    match expr {
        Expr::Other => Err(ExpandError::NotAPath),
        Expr::Path { ident } => match ident {
            Some(name) => Ok(name.clone()),
            None => Err(ExpandError::NotAnIdent),
        },
    }
}

/// Expands a call of a named function on named arguments. The callee is
/// looked at first, then the arguments in order; the first that is not a
/// plain name decides the error. The expansion of a call that passes is
/// empty.
pub fn add_op_expansion(input: &ExprCall) -> (r: Result<String, ExpandError>)
    ensures
        r is Ok <==> all_named(*input),
        r matches Ok(tokens) ==> tokens@ == Seq::<char>::empty(),
        r matches Err(e) ==> {
            ||| name_of(input.func) == Err::<Seq<char>, ExpandError>(e)
            ||| name_of(input.func) is Ok && exists|i: int|
                first_bad_arg(*input, i) && name_of(input.args@[i]) == Err::<
                    Seq<char>,
                    ExpandError,
                >(e)
        },
{
    match ident_of_expr(&input.func) {
        Ok(_) => {},
        Err(e) => {
            return Err(e);
        },
    }
    let mut i: usize = 0;
    while i < input.args.len()
        invariant
            i <= input.args.len(),
            name_of(input.func) is Ok,
            forall|j: int| 0 <= j < i ==> name_of(#[trigger] input.args@[j]) is Ok,
        decreases input.args.len() - i,
    {
        match ident_of_expr(&input.args[i]) {
            Ok(_) => {},
            Err(e) => {
                proof {
                    assert(first_bad_arg(*input, i as int));
                }
                return Err(e);
            },
        }
        i += 1;
    }
    Ok(String::new())
}

} // verus!
