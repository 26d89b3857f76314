use custos_macro::cuda::{
    check_diagnostics, compiler_args, decimal_text, kernel_files, ptx_expr,
};
use custos_macro::error::ErrorKind;

#[test]
fn numbers_are_written_in_decimal() {
    assert_eq!(decimal_text(0), "0");
    assert_eq!(decimal_text(7), "7");
    assert_eq!(decimal_text(10), "10");
    assert_eq!(decimal_text(1234567890), "1234567890");
    assert_eq!(decimal_text(u64::MAX), "18446744073709551615");
}

#[test]
fn kernel_files_are_named_by_the_hash() {
    let files = kernel_files("./target", 9021830754522444683);
    assert_eq!(files.source, "./target/9021830754522444683.cu");
    assert_eq!(files.output, "./target/9021830754522444683.ptx");
    let other = kernel_files("./target", 9021830754522444684);
    assert_ne!(files.source, other.source);
    assert_ne!(files.output, other.output);
}

#[test]
fn compiler_is_asked_for_byte_code() {
    let files = kernel_files("build", 42);
    assert_eq!(compiler_args(&files), vec!["-c", "build/42.cu", "-o", "build/42.ptx", "--ptx"]);
}

#[test]
fn compiled_kernel_is_wrapped_as_a_string_literal() {
    let tokens = ptx_expr(".version 7.5\n.entry add(\n\t.param .u64 \"a\"\n)");
    assert_eq!(
        tokens,
        "custos :: cuda :: Ptx { src : \".version 7.5\\n.entry add(\\n\\t.param .u64 \\\"a\\\"\\n)\" . to_string () } "
    );
    let expr = syn::parse_str::<syn::ExprStruct>(&tokens).unwrap();
    assert_eq!(expr.fields.len(), 1);
}

#[test]
fn diagnostics_are_fatal_and_kept_as_written() {
    let failure =
        check_diagnostics("kernel.cu(3): error: identifier \"x\" is undefined\n").err().unwrap();
    assert_eq!(failure.diagnostics, "kernel.cu(3): error: identifier \"x\" is undefined\n");
    assert_eq!(failure.kind(), ErrorKind::ExternalTool);
    assert!(check_diagnostics(" ").is_err());
    assert!(check_diagnostics("").is_ok());
}
