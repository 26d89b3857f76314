//! Kernel precompilation, as far as it is computation: where the files of a
//! kernel lie, how the compiler is called, and what its outcome expands to.
//! Hashing the source, writing the files and running the compiler are the
//! caller's part.

use crate::error::ErrorKind;
use crate::syntax::texts;
use crate::text::{spaced, TokenWriter};
use vstd::prelude::*;
use vstd::string::*;

verus! {

/// The string literal that `proc_macro2` writes for `value`: the characters
/// between quotes, escaped where the language asks for it.
pub uninterp spec fn string_literal_of(value: Seq<char>) -> Seq<char>;

/// Calls `proc_macro2::Literal::string` and prints the literal.
#[verifier::external_body]
pub(crate) fn string_literal(value: &str) -> (literal: String)
    ensures
        literal@ == string_literal_of(value@),
{
    proc_macro2::Literal::string(value).to_string()
}

/// One decimal digit.
pub open spec fn digit_text(d: nat) -> Seq<char> {
    if d == 0 {
        "0"@
    } else if d == 1 {
        "1"@
    } else if d == 2 {
        "2"@
    } else if d == 3 {
        "3"@
    } else if d == 4 {
        "4"@
    } else if d == 5 {
        "5"@
    } else if d == 6 {
        "6"@
    } else if d == 7 {
        "7"@
    } else if d == 8 {
        "8"@
    } else {
        "9"@
    }
}

/// A number in decimal, without leading zeros.
pub open spec fn decimal(n: nat) -> Seq<char>
    decreases n,
{
    if n < 10 {
        digit_text(n)
    } else {
        decimal(n / 10) + digit_text(n % 10)
    }
}

/// The file that holds the source of the kernel with content hash `hash`.
pub open spec fn source_path(dir: Seq<char>, hash: nat) -> Seq<char> {
    dir + "/"@ + decimal(hash) + ".cu"@
}

/// The file that holds the compiled kernel with content hash `hash`.
pub open spec fn output_path(dir: Seq<char>, hash: nat) -> Seq<char> {
    dir + "/"@ + decimal(hash) + ".ptx"@
}

/// The arguments of the compiler: compile only, from the source file, to the
/// output file, as byte code.
pub open spec fn compiler_args_for(source: Seq<char>, output: Seq<char>) -> Seq<Seq<char>> {
    seq!["-c"@, source, "-o"@, output, "--ptx"@]
}

/// The expression that wraps a compiled kernel.
pub open spec fn ptx_tokens(ptx_src: Seq<char>) -> Seq<char> {
    spaced(
        seq!["custos :: cuda :: Ptx { src :"@, string_literal_of(ptx_src), ". to_string () }"@],
    )
}

/// The two files of one kernel. Both are named by the hash of the kernel's
/// source, so a source that has not changed finds its files again.
pub struct KernelFiles {
    pub source: String,
    pub output: String,
}

/// The compiler wrote diagnostics. They are kept as written.
pub struct CompilerFailure {
    pub diagnostics: String,
}

impl CompilerFailure {
    /// The class of the failure.
    pub fn kind(&self) -> (k: ErrorKind)
        ensures
            k == ErrorKind::ExternalTool,
    {
        ErrorKind::ExternalTool
    }
}

fn digit(d: u64) -> (t: &'static str)
    requires
        d < 10,
    ensures
        t@ == digit_text(d as nat),
{
    if d == 0 {
        "0"
    } else if d == 1 {
        "1"
    } else if d == 2 {
        "2"
    } else if d == 3 {
        "3"
    } else if d == 4 {
        "4"
    } else if d == 5 {
        "5"
    } else if d == 6 {
        "6"
    } else if d == 7 {
        "7"
    } else if d == 8 {
        "8"
    } else {
        "9"
    }
}

/// `n` in decimal.
pub fn decimal_text(n: u64) -> (text: String)
    ensures
        text@ == decimal(n as nat),
    decreases n,
{
    if n < 10 {
        String::from_str(digit(n))
    } else {
        let mut text = decimal_text(n / 10);
        text.append(digit(n % 10));
        text
    }
}

/// The files of the kernel with content hash `hash`, in the directory `dir`.
pub fn kernel_files(dir: &str, hash: u64) -> (files: KernelFiles)
    ensures
        files.source@ == source_path(dir@, hash as nat),
        files.output@ == output_path(dir@, hash as nat),
{
    let name = decimal_text(hash);
    let mut source = String::from_str(dir);
    source.append("/");
    source.append(name.as_str());
    source.append(".cu");
    let mut output = String::from_str(dir);
    output.append("/");
    output.append(name.as_str());
    output.append(".ptx");
    KernelFiles { source, output }
}

/// The arguments with which the compiler is called on `files`.
pub fn compiler_args(files: &KernelFiles) -> (args: Vec<String>)
    ensures
        texts(args@) == compiler_args_for(files.source@, files.output@),
{
    let mut args: Vec<String> = Vec::new();
    args.push(String::from_str("-c"));
    args.push(files.source.clone());
    args.push(String::from_str("-o"));
    args.push(files.output.clone());
    args.push(String::from_str("--ptx"));
    proof {
        assert(texts(args@) =~= compiler_args_for(files.source@, files.output@));
    }
    args
}

/// Whether the compiler succeeded. Anything that it wrote to its error
/// stream is fatal, and handed back as it was written.
pub fn check_diagnostics(stderr: &str) -> (r: Result<(), CompilerFailure>)
    ensures
        match r {
            Ok(_) => stderr@.len() == 0,
            Err(failure) => stderr@.len() > 0 && failure.diagnostics@ == stderr@,
        },
{
    if stderr.is_empty() {
        Ok(())
    } else {
        Err(CompilerFailure { diagnostics: String::from_str(stderr) })
    }
}

/// The expression that a kernel expands to: the compiled kernel `ptx_src`
/// as a string literal, wrapped as the device's kernel source.
pub fn ptx_expr(ptx_src: &str) -> (tokens: String)
    ensures
        tokens@ == ptx_tokens(ptx_src@),
{
    let literal = string_literal(ptx_src);
    let mut w = TokenWriter::new();
    w.put("custos :: cuda :: Ptx { src :");
    w.put(literal.as_str());
    w.put(". to_string () }");
    proof {
        assert(w.parts() =~= seq![
            "custos :: cuda :: Ptx { src :"@,
            string_literal_of(ptx_src@),
            ". to_string () }"@,
        ]);
    }
    w.finish()
}

} // verus!
