use wasm_bindgen_cli_support::js::{Context, TYPESCRIPT_HEADER};

#[test]
fn shared_helper_is_defined_once() {
    let mut cx = Context::new();
    cx.expose_global("getStringFromWasm", "function getStringFromWasm(p, n) {}\n");
    cx.expose_global("passStringToWasm", "function passStringToWasm(s) {}\n");
    cx.expose_global("getStringFromWasm", "function getStringFromWasm(p, n) {}\n");
    let (js, _) = cx.finalize();
    assert_eq!(js.matches("function getStringFromWasm").count(), 1);
    assert_eq!(
        js,
        "function getStringFromWasm(p, n) {}\nfunction passStringToWasm(s) {}\n"
    );
}

#[test]
fn later_definition_of_known_helper_is_ignored() {
    let mut cx = Context::new();
    cx.expose_global("h", "first\n");
    cx.expose_global("h", "second\n");
    assert_eq!(cx.finalize().0, "first\n");
}

#[test]
fn finalize_orders_imports_helpers_footer() {
    let mut cx = Context::new();
    cx.add_footer("footer;\n");
    cx.expose_global("h", "helper;\n");
    cx.add_import("import x;\n");
    cx.add_typescript("export function f(): void;\n");
    let (js, ts) = cx.finalize();
    assert_eq!(js, "import x;\nhelper;\nfooter;\n");
    assert_eq!(ts, "/* tslint:disable */\nexport function f(): void;\n");
}

#[test]
fn declarations_start_with_header() {
    let cx = Context::new();
    let (js, ts) = cx.finalize();
    assert_eq!(js, "");
    assert_eq!(ts, TYPESCRIPT_HEADER);
}

#[test]
fn internal_exports_recorded_once() {
    let mut cx = Context::new();
    cx.require_internal_export("__wbindgen_malloc");
    cx.require_internal_export("__wbindgen_free");
    cx.require_internal_export("__wbindgen_malloc");
    assert_eq!(
        cx.internal_exports_needed(),
        vec!["__wbindgen_malloc".to_string(), "__wbindgen_free".to_string()]
    );
}
