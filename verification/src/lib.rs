//! The expansion engine of a set of procedural macros for a tensor library.
//!
//! A macro hands the engine the token text of the item it stands on and gets
//! back an [`expansion::Expansion`]: items of token text, each behind the
//! feature that decides whether it is compiled. An expansion either succeeds
//! as a whole or fails with an [`error::ExpandError`]; nothing is produced in
//! part.
//!
//! - [`impl_stack`] duplicates a block written for the primary backend for
//!   the secondary backend.
//! - [`impl_nnapi_op`] implements a trait of operations for the accelerator
//!   device, each method by the opcode at its position.
//! - [`impl_using_autograd`] gives a trait an empty stand-in for builds
//!   without automatic differentiation.
//! - [`cuda`] names the files of a precompiled kernel and wraps the outcome.
//! - [`trait_builds`] and [`text`] hold what these share: the generic
//!   parameters of an implementation, and literal replacement on token text.
//! - [`parser`] holds the questions that go to the syntax parser.

pub mod add_op;
pub mod cuda;
pub mod error;
pub mod expansion;
pub mod impl_nnapi_op;
pub mod impl_stack;
pub mod impl_using_autograd;
pub mod parser;
pub mod syntax;
pub mod text;
pub mod trait_builds;
