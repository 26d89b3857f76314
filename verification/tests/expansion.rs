use custos_macro::error::{ErrorKind, ExpandError};
use custos_macro::expansion::{Expansion, Gate, GatedItem};
use custos_macro::text::TokenWriter;

#[test]
fn attributes_of_the_features() {
    assert_eq!(Gate::Cpu.attribute(), "# [cfg (feature = \"cpu\")]");
    assert_eq!(Gate::Stack.attribute(), "# [cfg (feature = \"stack\")]");
    assert_eq!(Gate::Nnapi.attribute(), "# [cfg (feature = \"nnapi\")]");
    assert_eq!(Gate::Autograd.attribute(), "# [cfg (feature = \"autograd\")]");
    assert_eq!(Gate::NotAutograd.attribute(), "# [cfg (not (feature = \"autograd\"))]");
}

#[test]
fn attributes_read_as_attributes() {
    for gate in [Gate::Cpu, Gate::Stack, Gate::Nnapi, Gate::Autograd, Gate::NotAutograd] {
        let item = format!("{} struct Unit ;", gate.attribute());
        let parsed = syn::parse_str::<syn::ItemStruct>(&item).unwrap();
        assert_eq!(parsed.attrs.len(), 1);
        assert!(parsed.attrs[0].path().is_ident("cfg"));
    }
}

#[test]
fn render_writes_each_item_behind_its_attribute() {
    let expansion = Expansion {
        items: vec![
            GatedItem { gate: Gate::Cpu, tokens: "struct A ;".to_string() },
            GatedItem { gate: Gate::Stack, tokens: "struct B ;".to_string() },
        ],
    };
    assert_eq!(
        expansion.render(),
        "# [cfg (feature = \"cpu\")] struct A ; # [cfg (feature = \"stack\")] struct B ; "
    );
    assert_eq!(Expansion { items: Vec::new() }.render(), "");
}

#[test]
fn writer_puts_a_blank_behind_each_part() {
    let mut writer = TokenWriter::new();
    writer.put("impl");
    writer.put("");
    writer.put("Trait");
    assert_eq!(writer.finish(), "impl  Trait ");
    assert_eq!(TokenWriter::new().finish(), "");
}

#[test]
fn every_error_has_its_class_and_message() {
    let all = [
        (ExpandError::InvalidOpcode, ErrorKind::Shape),
        (ExpandError::MalformedOpcodes, ErrorKind::Shape),
        (ExpandError::Arity, ErrorKind::Arity),
        (ExpandError::MissingDeviceParam, ErrorKind::Shape),
        (ExpandError::UnsupportedItem, ErrorKind::Shape),
        (ExpandError::InvalidParams, ErrorKind::Reparse),
        (ExpandError::InvalidReturnType, ErrorKind::Reparse),
        (ExpandError::InvalidIdent, ErrorKind::Shape),
        (ExpandError::InvalidImplBlock, ErrorKind::Reparse),
        (ExpandError::InvalidTestFn, ErrorKind::Reparse),
        (ExpandError::NotAPath, ErrorKind::Shape),
        (ExpandError::NotAnIdent, ErrorKind::Shape),
    ];
    for (error, kind) in all {
        assert_eq!(error.kind(), kind);
        assert!(!error.message().is_empty());
    }
    assert_eq!(
        ExpandError::MissingDeviceParam.message(),
        "The trait has no generic type parameter for the device."
    );
    assert_eq!(ExpandError::InvalidReturnType.message(), "Invalid return type");
    assert_eq!(ExpandError::NotAnIdent.message(), "Expected a path of a single identifier");
}
