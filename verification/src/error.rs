//! The ways in which an expansion fails.

use vstd::prelude::*;
use vstd::string::*;

verus! {

/// The four classes of failure. None is recoverable: an expansion that fails
/// yields no output at all.
#[derive(Clone, Copy, Debug, PartialEq, Eq, Structural)]
pub enum ErrorKind {
    /// The input is not of the expected construct, or holds an item of a form
    /// that is not supported.
    Shape,
    /// The number of opcodes is not the number of methods.
    Arity,
    /// A text that was rewritten no longer reads as syntax.
    Reparse,
    /// The kernel compiler wrote diagnostics.
    ExternalTool,
}

/// Why an expansion failed.
#[derive(Clone, Copy, Debug, PartialEq, Eq, Structural)]
pub enum ExpandError {
    /// The opcode list holds a token that is neither a name nor punctuation.
    InvalidOpcode,
    /// The opcode list is not a list of names with one comma between each
    /// two.
    MalformedOpcodes,
    /// The opcode list and the trait's methods differ in number.
    Arity,
    /// The trait has no generic type parameter, so none names the device.
    MissingDeviceParam,
    /// An item of the trait is not a method declared without a body.
    UnsupportedItem,
    /// A method's parameter list no longer reads as one once the device type
    /// is written into it.
    InvalidParams,
    /// A method's return type no longer reads as a type once the device type
    /// is written into it.
    InvalidReturnType,
    /// A buffer parameter is bound by a pattern that is not a plain name.
    InvalidIdent,
    /// The implementation block no longer reads as one once the secondary
    /// backend is written into it.
    InvalidImplBlock,
    /// The test function no longer reads as one once the secondary backend is
    /// written into it.
    InvalidTestFn,
    /// The callee or an argument of a call is not a path.
    NotAPath,
    /// The callee or an argument of a call is a path of more than one name.
    NotAnIdent,
}

impl ExpandError {
    /// The class of the failure.
    pub open spec fn spec_kind(self) -> ErrorKind {
        match self {
            ExpandError::InvalidOpcode => ErrorKind::Shape,
            ExpandError::MalformedOpcodes => ErrorKind::Shape,
            ExpandError::Arity => ErrorKind::Arity,
            ExpandError::MissingDeviceParam => ErrorKind::Shape,
            ExpandError::UnsupportedItem => ErrorKind::Shape,
            ExpandError::InvalidParams => ErrorKind::Reparse,
            ExpandError::InvalidReturnType => ErrorKind::Reparse,
            ExpandError::InvalidIdent => ErrorKind::Shape,
            ExpandError::InvalidImplBlock => ErrorKind::Reparse,
            ExpandError::InvalidTestFn => ErrorKind::Reparse,
            ExpandError::NotAPath => ErrorKind::Shape,
            ExpandError::NotAnIdent => ErrorKind::Shape,
        }
    }

    /// The message shown for the failure.
    pub open spec fn spec_message(self) -> Seq<char> {
        match self {
            ExpandError::InvalidOpcode => "Invalid"@,
            ExpandError::MalformedOpcodes => "Too few NNAPI operation enums were provided."@,
            ExpandError::Arity => "The length of the provided operations does not match with the number of methods."@,
            ExpandError::MissingDeviceParam => "The trait has no generic type parameter for the device."@,
            ExpandError::UnsupportedItem => "This trait is not supported for this macro."@,
            ExpandError::InvalidParams => "Invalid"@,
            ExpandError::InvalidReturnType => "Invalid return type"@,
            ExpandError::InvalidIdent => "Invalid ident"@,
            ExpandError::InvalidImplBlock => "Can't use #[impl_stack] on this implement block."@,
            ExpandError::InvalidTestFn => "Can't use #[stack_cpu_test] on this implement block."@,
            ExpandError::NotAPath => "Expected a function call to an identifier"@,
            ExpandError::NotAnIdent => "Expected a path of a single identifier"@,
        }
    }

    /// The class of the failure.
    #[verifier::when_used_as_spec(spec_kind)]
    pub fn kind(self) -> (k: ErrorKind)
        ensures
            k == self.spec_kind(),
    {
        match self {
            ExpandError::InvalidOpcode => ErrorKind::Shape,
            ExpandError::MalformedOpcodes => ErrorKind::Shape,
            ExpandError::Arity => ErrorKind::Arity,
            ExpandError::MissingDeviceParam => ErrorKind::Shape,
            ExpandError::UnsupportedItem => ErrorKind::Shape,
            ExpandError::InvalidParams => ErrorKind::Reparse,
            ExpandError::InvalidReturnType => ErrorKind::Reparse,
            ExpandError::InvalidIdent => ErrorKind::Shape,
            ExpandError::InvalidImplBlock => ErrorKind::Reparse,
            ExpandError::InvalidTestFn => ErrorKind::Reparse,
            ExpandError::NotAPath => ErrorKind::Shape,
            ExpandError::NotAnIdent => ErrorKind::Shape,
        }
    }

    /// The message shown for the failure.
    pub fn message(self) -> (m: String)
        ensures
            m@ == self.spec_message(),
    {
        let text: &str = match self {
            ExpandError::InvalidOpcode => "Invalid",
            ExpandError::MalformedOpcodes => "Too few NNAPI operation enums were provided.",
            ExpandError::Arity => "The length of the provided operations does not match with the number of methods.",
            ExpandError::MissingDeviceParam => "The trait has no generic type parameter for the device.",
            ExpandError::UnsupportedItem => "This trait is not supported for this macro.",
            ExpandError::InvalidParams => "Invalid",
            ExpandError::InvalidReturnType => "Invalid return type",
            ExpandError::InvalidIdent => "Invalid ident",
            ExpandError::InvalidImplBlock => "Can't use #[impl_stack] on this implement block.",
            ExpandError::InvalidTestFn => "Can't use #[stack_cpu_test] on this implement block.",
            ExpandError::NotAPath => "Expected a function call to an identifier",
            ExpandError::NotAnIdent => "Expected a path of a single identifier",
        };
        String::from_str(text)
    }
}

} // verus!
