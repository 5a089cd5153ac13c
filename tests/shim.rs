use parity_wasm::elements::{
    ExportEntry, ExportSection, External, ImportEntry, ImportSection, Internal, Module, Section,
};
use wasm_bindgen_cli_support::shim::build_node_shim;
use wasm_bindgen_cli_support::Bindgen;

fn names(v: &[&str]) -> Vec<String> {
    v.iter().map(|s| s.to_string()).collect()
}

fn module_with(imports: &[&str], exports: &[&str]) -> Module {
    let imports = imports
        .iter()
        .map(|m| ImportEntry::new(m.to_string(), "f".to_string(), External::Function(0)))
        .collect();
    let exports = exports
        .iter()
        .map(|e| ExportEntry::new(e.to_string(), Internal::Function(0)))
        .collect();
    Module::new(vec![
        Section::Import(ImportSection::with_entries(imports)),
        Section::Export(ExportSection::with_entries(exports)),
    ])
}

#[test]
fn commonjs_shim_for_env() {
    let mut b = Bindgen::new();
    b.nodejs(true);
    let shim = b.generate_node_wasm_import(&module_with(&["env"], &["f"]), "x_bg.wasm");
    let hits = shim
        .lines()
        .filter(|l| *l == "imports['env'] = require('env');")
        .count();
    assert_eq!(hits, 1);
    assert!(shim.ends_with("module.exports = wasmInstance.exports;\n"));
    assert!(shim.contains("const path = require('path').join(__dirname, 'x_bg.wasm');\n"));
}

#[test]
fn commonjs_shim_exact_text() {
    let shim = build_node_shim(&names(&["env"]), &names(&[]), "m_bg.wasm", false);
    assert_eq!(
        shim,
        "\nconst path = require('path').join(__dirname, 'm_bg.wasm');\n\
         const bytes = require('fs').readFileSync(path);\n\
         let imports = {};\n\
         imports['env'] = require('env');\n\
         \n\
         const wasmModule = new WebAssembly.Module(bytes);\n\
         const wasmInstance = new WebAssembly.Instance(wasmModule, imports);\n\
         module.exports = wasmInstance.exports;\n"
    );
}

#[test]
fn import_modules_are_sorted_and_unique() {
    let a = build_node_shim(&names(&["zeta", "alpha", "zeta", "mid"]), &names(&[]), "a.wasm", false);
    let b = build_node_shim(&names(&["mid", "alpha", "zeta"]), &names(&[]), "a.wasm", false);
    assert_eq!(a, b);
    let alpha = a.find("imports['alpha']").unwrap();
    let mid = a.find("imports['mid']").unwrap();
    let zeta = a.find("imports['zeta']").unwrap();
    assert!(alpha < mid && mid < zeta);
    assert_eq!(a.matches("require('zeta')").count(), 1);
}

#[test]
fn es_module_shim_imports_and_reexports() {
    let shim = build_node_shim(&names(&["b", "a"]), &names(&["run", "memory"]), "p_bg.wasm", true);
    assert!(shim.starts_with("import * as import0 from 'a';\nimport * as import1 from 'b';\n"));
    assert!(shim.contains("imports['a'] = import0;\nimports['b'] = import1;\n"));
    assert!(shim.contains("const bytes = fs.readFileSync(path.join(file, 'p_bg.wasm'));\n"));
    assert!(shim.contains("if (process.platform === 'win32') {\n    file = file.substring(1);\n}\n"));
    assert!(shim.ends_with(
        "export const run = wasmInstance.exports.run;\nexport const memory = wasmInstance.exports.memory;\n"
    ));
    assert!(!shim.contains("module.exports"));
}

#[test]
fn es_module_shim_numbers_past_nine() {
    let many: Vec<String> = (0..12).map(|i| format!("m{:02}", i)).collect();
    let shim = build_node_shim(&many, &names(&[]), "q.wasm", true);
    assert!(shim.contains("import * as import11 from 'm11';\n"));
    assert!(shim.contains("imports['m10'] = import10;\n"));
}

#[test]
fn shim_without_imports() {
    let shim = build_node_shim(&names(&[]), &names(&[]), "e.wasm", false);
    assert!(!shim.contains("imports['"));
    assert!(shim.contains("let imports = {};\n"));
}

#[test]
fn es_module_shim_from_module_reexports_its_exports() {
    let mut b = Bindgen::new();
    b.nodejs(true).nodejs_experimental_modules(true);
    let m = module_with(&["env", "a", "env"], &["greet"]);
    let shim = b.generate_node_wasm_import(&m, "g_bg.wasm");
    assert!(shim.starts_with("import * as import0 from 'a';\nimport * as import1 from 'env';\n"));
    assert!(shim.ends_with("export const greet = wasmInstance.exports.greet;\n"));
}
