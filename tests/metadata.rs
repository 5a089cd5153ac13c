use parity_wasm::elements::{CustomSection, External, ImportEntry, ImportSection, Module, Section};
use wasm_bindgen_cli_support::metadata::{extract_programs, MetadataError, METADATA_SECTION};
use wasm_bindgen_cli_support::{Bindgen, GenerateError};

fn custom(name: &str, payload: Vec<u8>) -> Section {
    let mut c = CustomSection::default();
    *c.name_mut() = name.to_string();
    *c.payload_mut() = payload;
    Section::Custom(c)
}

fn record(json: &str) -> Vec<u8> {
    let mut v = (json.len() as u32).to_le_bytes().to_vec();
    v.extend_from_slice(json.as_bytes());
    v
}

fn program(schema: &str) -> String {
    format!(
        "{{\"exports\":[],\"enums\":[],\"imports\":[],\"structs\":[],\"version\":\"0.2.15\",\"schema_version\":\"{}\"}}",
        schema
    )
}

fn names(m: &Module) -> Vec<String> {
    m.sections()
        .iter()
        .map(|s| match s {
            Section::Custom(c) => c.name().to_string(),
            _ => "-".to_string(),
        })
        .collect()
}

#[test]
fn extracts_records_and_strips_sections() {
    let mut payload = record(&program("6"));
    payload.extend(record(&program("6")));
    let mut m = Module::new(vec![
        custom("name", vec![1, 2]),
        custom(METADATA_SECTION, payload),
        custom("producers", vec![]),
        custom(METADATA_SECTION, record(&program("6"))),
    ]);
    let programs = extract_programs(&mut m).ok().unwrap();
    assert_eq!(programs.len(), 3);
    assert_eq!(names(&m), vec!["name".to_string(), "producers".to_string()]);
}

#[test]
fn reserialized_module_has_no_metadata() {
    let mut m = Module::new(vec![
        custom(METADATA_SECTION, record(&program("6"))),
        custom("keep", vec![7]),
    ]);
    assert!(extract_programs(&mut m).is_ok());
    let bytes = parity_wasm::serialize(m).unwrap();
    let back: Module = parity_wasm::deserialize_buffer(&bytes).unwrap();
    assert_eq!(names(&back), vec!["keep".to_string()]);
}

#[test]
fn version_mismatch_is_refused() {
    let mut m = Module::new(vec![custom(METADATA_SECTION, record(&program("5")))]);
    match extract_programs(&mut m) {
        Err(MetadataError::VersionMismatch { wasm_version, tool_version }) => {
            assert_eq!(wasm_version, "0.2.15");
            assert!(tool_version.starts_with("0.2.15"));
        }
        _ => panic!("expected a version mismatch"),
    }
    assert_eq!(names(&m), vec![METADATA_SECTION.to_string()]);
}

#[test]
fn version_mismatch_wins_over_bad_content() {
    let mut m = Module::new(vec![custom(
        METADATA_SECTION,
        record("{\"schema_version\":\"1\",\"version\":\"old\",\"exports\":7}"),
    )]);
    assert!(matches!(
        extract_programs(&mut m),
        Err(MetadataError::VersionMismatch { .. })
    ));
}

#[test]
fn overlong_record_is_truncated() {
    let mut payload = 100u32.to_le_bytes().to_vec();
    payload.extend_from_slice(b"{}");
    let mut m = Module::new(vec![custom(METADATA_SECTION, payload)]);
    assert!(matches!(extract_programs(&mut m), Err(MetadataError::Truncated)));
}

#[test]
fn short_length_prefix_is_truncated() {
    let mut m = Module::new(vec![custom(METADATA_SECTION, vec![1, 0])]);
    assert!(matches!(extract_programs(&mut m), Err(MetadataError::Truncated)));
}

#[test]
fn invalid_json_is_undecodable() {
    let mut m = Module::new(vec![custom(METADATA_SECTION, record("not json"))]);
    assert!(matches!(extract_programs(&mut m), Err(MetadataError::Undecodable(_))));
}

#[test]
fn incomplete_program_is_undecodable() {
    let mut m = Module::new(vec![custom(
        METADATA_SECTION,
        record("{\"schema_version\":\"6\",\"version\":\"x\"}"),
    )]);
    assert!(matches!(extract_programs(&mut m), Err(MetadataError::Undecodable(_))));
}

#[test]
fn module_without_metadata_is_unchanged() {
    let mut m = Module::new(vec![custom("a", vec![]), custom("b", vec![])]);
    assert_eq!(extract_programs(&mut m).ok().unwrap().len(), 0);
    assert_eq!(names(&m), vec!["a".to_string(), "b".to_string()]);
}

#[test]
fn generate_names_outputs() {
    let mut b = Bindgen::new();
    b.nodejs(true);
    b.typescript(true);
    let m = Module::new(vec![custom(METADATA_SECTION, record(&program("6")))]);
    let out = b.generate_from(m, "demo").ok().unwrap();
    assert_eq!(out.programs.len(), 1);
    assert_eq!(out.js_file, "demo.js");
    assert_eq!(out.ts_file.as_deref(), Some("demo.d.ts"));
    assert_eq!(out.ts, "/* tslint:disable */\n");
    assert_eq!(out.js, "");
    assert_eq!(out.wasm_file, "demo_bg.wasm");
    let (name, text) = out.shim.unwrap();
    assert_eq!(name, "demo_bg.js");
    assert!(text.contains("'demo_bg.wasm'"));
    let back: Module = parity_wasm::deserialize_buffer(&out.wasm).unwrap();
    assert!(names(&back).is_empty());
}

#[test]
fn generate_es_modules_uses_mjs() {
    let mut b = Bindgen::new();
    b.nodejs(true);
    b.nodejs_experimental_modules(true);
    let out = b.generate_from(Module::new(vec![]), "lib").ok().unwrap();
    assert_eq!(out.js_file, "lib.mjs");
    assert!(out.ts_file.is_none());
    assert_eq!(out.shim.unwrap().0, "lib_bg.mjs");
}

#[test]
fn generate_reports_metadata_errors() {
    let b = Bindgen::new();
    let m = Module::new(vec![custom(METADATA_SECTION, record(&program("0")))]);
    assert!(matches!(
        b.generate_from(m, "x"),
        Err(GenerateError::Metadata(MetadataError::VersionMismatch { .. }))
    ));
}

#[test]
fn take_module_without_input_fails() {
    let mut b = Bindgen::new();
    assert!(matches!(b.take_module(), Err(GenerateError::NoInput)));
}

#[test]
fn take_module_leaves_empty_module() {
    let mut b = Bindgen::new();
    b.input_module("n", Module::new(vec![custom("a", vec![])]));
    let (m, name) = b.take_module().ok().unwrap();
    assert_eq!(name, "n");
    assert_eq!(names(&m), vec!["a".to_string()]);
    let (again, _) = b.take_module().ok().unwrap();
    assert!(again.sections().is_empty());
}

#[test]
fn take_module_parses_bytes() {
    let bytes = parity_wasm::serialize(Module::new(vec![custom("c", vec![3])])).unwrap();
    let mut b = Bindgen::new();
    b.input_bytes("n", bytes);
    let (m, _) = b.take_module().ok().unwrap();
    assert_eq!(names(&m), vec!["c".to_string()]);
    b.input_bytes("n", vec![0, 1, 2]);
    assert!(matches!(b.take_module(), Err(GenerateError::Parse(_))));
}

#[test]
fn builder_defaults_and_setters() {
    let mut b = Bindgen::new();
    assert!(b.demangle && !b.debug && !b.weak_refs);
    b.debug(true);
    b.demangle(false);
    b.no_modules_global("wasm");
    b.weak_refs(true);
    assert!(b.debug && !b.demangle && b.weak_refs);
    assert_eq!(b.no_modules_global.as_deref(), Some("wasm"));
}

#[test]
fn overlong_second_record_is_truncated() {
    let mut payload = record(&program("6"));
    payload.extend_from_slice(&50u32.to_le_bytes());
    payload.extend_from_slice(b"{}");
    let mut m = Module::new(vec![custom("x", vec![]), custom(METADATA_SECTION, payload)]);
    assert!(matches!(extract_programs(&mut m), Err(MetadataError::Truncated)));
    assert_eq!(names(&m), vec!["x".to_string(), METADATA_SECTION.to_string()]);
}

#[test]
fn generate_keeps_imports_in_stripped_module() {
    let mut b = Bindgen::new();
    b.nodejs(true);
    let imports = ImportSection::with_entries(vec![ImportEntry::new(
        "env".to_string(),
        "f".to_string(),
        External::Function(0),
    )]);
    let m = Module::new(vec![
        custom(METADATA_SECTION, record(&program("6"))),
        Section::Import(imports),
    ]);
    let out = b.generate_from(m, "k").ok().unwrap();
    assert!(out.shim.unwrap().1.contains("imports['env'] = require('env');\n"));
    let back: Module = parity_wasm::deserialize_buffer(&out.wasm).unwrap();
    assert_eq!(back.import_section().unwrap().entries()[0].module(), "env");
}
