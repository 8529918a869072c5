use composition_harness::graph::{
    encode_composition, wiring_decision, Composition, GraphError, WireError, WireOutcome,
};

fn empty_component() -> Vec<u8> {
    wat::parse_str("(component)").unwrap()
}

fn module_exporter() -> Vec<u8> {
    wat::parse_str("(component (core module $m) (export \"m\" (core module $m)))").unwrap()
}

fn module_importer() -> Vec<u8> {
    wat::parse_str("(component (import \"m\" (core module)))").unwrap()
}

fn instance_importer() -> Vec<u8> {
    wat::parse_str("(component (import \"x\" (instance)))").unwrap()
}

#[test]
fn register_rejects_a_malformed_binary() {
    let mut c = Composition::new();
    let r = c.instantiate("bad", &vec![1, 2, 3], Vec::new());
    assert!(matches!(r, Err(GraphError::MalformedPackage(_))));
}

#[test]
fn instantiate_succeeds_on_a_valid_component() {
    let mut c = Composition::new();
    assert!(c.instantiate("empty", &empty_component(), Vec::new()).is_ok());
}

#[test]
fn duplicate_registration_fails() {
    let mut c = Composition::new();
    c.instantiate("empty", &empty_component(), Vec::new()).unwrap();
    let r = c.instantiate("empty", &empty_component(), Vec::new());
    assert!(matches!(r, Err(GraphError::DuplicatePackage)));
}

#[test]
fn export_lookup_on_a_missing_name_is_absent_not_an_error() {
    let mut c = Composition::new();
    let inst = c.instantiate("empty", &empty_component(), Vec::new()).unwrap();
    let r = inst.export(&mut c, "no-such-export");
    assert!(matches!(r, Ok(None)));
}

#[test]
fn export_lookup_finds_a_declared_export() {
    let mut c = Composition::new();
    let inst = c.instantiate("exporter", &module_exporter(), Vec::new()).unwrap();
    let r = inst.export(&mut c, "m");
    assert!(matches!(r, Ok(Some(_))));
}

#[test]
fn wiring_a_matching_import_succeeds() {
    let mut c = Composition::new();
    let exporter = c.instantiate("exporter", &module_exporter(), Vec::new()).unwrap();
    let m = exporter.export(&mut c, "m").unwrap().unwrap();
    let r = c.instantiate("importer", &module_importer(), vec![("m".to_string(), m)]);
    assert!(r.is_ok());
}

#[test]
fn wiring_an_unknown_import_name_is_a_tolerated_no_op() {
    let mut c = Composition::new();
    let exporter = c.instantiate("exporter", &module_exporter(), Vec::new()).unwrap();
    let m = exporter.export(&mut c, "m").unwrap().unwrap();
    let r = c.instantiate("importer", &module_importer(), vec![("unknown-name".to_string(), m)]);
    assert!(r.is_ok());
}

#[test]
fn wiring_a_type_incompatible_import_is_fatal() {
    let mut c = Composition::new();
    let exporter = c.instantiate("exporter", &module_exporter(), Vec::new()).unwrap();
    let m = exporter.export(&mut c, "m").unwrap().unwrap();
    let r = c.instantiate("importer", &instance_importer(), vec![("x".to_string(), m)]);
    assert!(matches!(r, Err(GraphError::Wiring(WireError::TypeMismatch(_)))));
}

#[test]
fn wiring_decision_tolerates_exactly_the_unknown_import() {
    assert!(wiring_decision(WireOutcome::Wired).is_none());
    assert!(wiring_decision(WireOutcome::SkippedUnknownImport).is_none());
    assert!(matches!(
        wiring_decision(WireOutcome::Failed(WireError::NotAnInstantiation)),
        Some(WireError::NotAnInstantiation)
    ));
}

#[test]
fn encode_produces_a_component_binary() {
    let mut c = Composition::new();
    let exporter = c.instantiate("exporter", &module_exporter(), Vec::new()).unwrap();
    let m = exporter.export(&mut c, "m").unwrap().unwrap();
    c.export(m, "run").unwrap();
    let bytes = c.encode().unwrap();
    assert_eq!(&bytes[0..4], b"\0asm");
}

#[test]
fn duplicate_graph_export_name_fails() {
    let mut c = Composition::new();
    let exporter = c.instantiate("exporter", &module_exporter(), Vec::new()).unwrap();
    let m = exporter.export(&mut c, "m").unwrap().unwrap();
    c.export(m, "run").unwrap();
    let again = exporter.export(&mut c, "m").unwrap().unwrap();
    let r = c.export(again, "run");
    assert!(matches!(r, Err(GraphError::Export(_))));
}

#[test]
fn composition_fails_without_the_shim_capability_exports() {
    let r = encode_composition(
        empty_component(),
        empty_component(),
        empty_component(),
        empty_component(),
        empty_component(),
    );
    match r {
        Err(GraphError::MissingExport(name)) => {
            assert_eq!(name, "fermyon:spin/key-value@2.0.0");
        },
        other => panic!("expected a missing shim export, got {:?}", other.is_ok()),
    }
}

#[test]
fn composition_reports_a_malformed_shim() {
    let r = encode_composition(
        empty_component(),
        empty_component(),
        vec![0, 1, 2],
        empty_component(),
        empty_component(),
    );
    assert!(matches!(r, Err(GraphError::MalformedPackage(_))));
}
