//! Configuration of one bindings run, and the run itself from a parsed
//! module to the artifacts that are to be written.
use vstd::prelude::*;

use parity_wasm::elements::{Error as WasmError, Module};
use wasm_bindgen_shared::Program;

use crate::format::{formatted, reset_indentation};
use crate::js::{definitions, Context, TYPESCRIPT_HEADER};
use crate::metadata::{
    extract_programs, metadata_failure, metadata_mismatch_version, metadata_records,
    without_metadata, FailureKind, MetadataError,
};
use crate::shim::{build_node_shim, node_shim};
use crate::text::push_str_chars;
use crate::wasm::{
    decodes_as_wasm, empty_module, encoding_of, export_fields, export_fields_of, import_modules,
    import_modules_of, parse_module, sections_of, serialize_module,
};

verus! {

/// Where the module to work on comes from.
pub enum Input {
    Unset,
    /// A file, read by the caller.
    Path(String),
    /// The module's binary form, with the name to give the outputs.
    Bytes(Vec<u8>, String),
    /// An already parsed module, with the name to give the outputs.
    Module(Module, String),
}

pub struct Bindgen {
    pub input: Input,
    pub nodejs: bool,
    pub nodejs_experimental_modules: bool,
    pub browser: bool,
    pub no_modules: bool,
    pub no_modules_global: Option<String>,
    pub debug: bool,
    pub typescript: bool,
    pub demangle: bool,
    pub keep_debug: bool,
    /// Experimental support for weak reference groups in generated code.
    pub weak_refs: bool,
}

/// Why a run failed.
pub enum GenerateError {
    /// No input was given.
    NoInput,
    /// The input is not a valid module.
    Parse(WasmError),
    /// The module's metadata was refused.
    Metadata(MetadataError),
    /// The stripped module could not be encoded.
    Serialize(WasmError),
}

/// What a run produces; the caller writes it out.
pub struct Output {
    /// The metadata records, in order, for the binding generator.
    pub programs: Vec<Program>,
    /// The file name of the bindings.
    pub js_file: String,
    /// The bindings, re-indented.
    pub js: String,
    /// The TypeScript declarations.
    pub ts: String,
    /// The file name of the TypeScript declarations, when they are asked for.
    pub ts_file: Option<String>,
    /// The file name of the stripped module.
    pub wasm_file: String,
    /// The file name and text of the Node.js loader, when Node.js is the target.
    pub shim: Option<(String, String)>,
    /// The stripped module, encoded.
    pub wasm: Vec<u8>,
}

/// The extension of the script files: `mjs` for ES modules on Node.js.
pub open spec fn script_extension(esm: bool) -> Seq<char> {
    if esm {
        "mjs"@
    } else {
        "js"@
    }
}

/// `m2` is `m` with its metadata sections taken out.
pub open spec fn stripped_from(m2: Module, m: Module) -> bool {
    sections_of(m2) == without_metadata(sections_of(m)) && import_modules_of(m2)
        == import_modules_of(m) && export_fields_of(m2) == export_fields_of(m)
}

pub open spec fn bg_stem(stem: Seq<char>) -> Seq<char> {
    stem + "_bg"@
}

impl Bindgen {
    pub fn new() -> (r: Bindgen)
        ensures
            r.input is Unset,
            !r.nodejs && !r.nodejs_experimental_modules && !r.browser && !r.no_modules,
            r.no_modules_global is None,
            !r.debug && !r.typescript && r.demangle && !r.keep_debug && !r.weak_refs,
    {
        Bindgen {
            input: Input::Unset,
            nodejs: false,
            nodejs_experimental_modules: false,
            browser: false,
            no_modules: false,
            no_modules_global: None,
            debug: false,
            typescript: false,
            demangle: true,
            keep_debug: false,
            weak_refs: false,
        }
    }

    pub fn input_path(&mut self, path: &str) -> (r: &mut Bindgen)
        ensures
            r.input matches Input::Path(p) && p@ == path@,
            (Bindgen { input: old(self).input, ..*r }) == *old(self),
            *final(self) == *final(r),
    {
        self.input = Input::Path(String::from_str(path));
        self
    }

    /// Takes `module` as the input, already parsed.
    pub fn input_module(&mut self, name: &str, module: Module) -> (r: &mut Bindgen)
        ensures
            r.input matches Input::Module(m, n) && n@ == name@ && m == module,
            (Bindgen { input: old(self).input, ..*r }) == *old(self),
            *final(self) == *final(r),
    {
        self.input = Input::Module(module, String::from_str(name));
        self
    }

    /// Takes the binary form of a module as the input.
    pub fn input_bytes(&mut self, name: &str, bytes: Vec<u8>) -> (r: &mut Bindgen)
        ensures
            r.input matches Input::Bytes(b, n) && n@ == name@ && b@ == bytes@,
            (Bindgen { input: old(self).input, ..*r }) == *old(self),
            *final(self) == *final(r),
    {
        self.input = Input::Bytes(bytes, String::from_str(name));
        self
    }

    pub fn nodejs(&mut self, node: bool) -> (r: &mut Bindgen)
        ensures
            *r == (Bindgen { nodejs: node, ..*old(self) }),
            *final(self) == *final(r),
    {
        self.nodejs = node;
        self
    }

    pub fn nodejs_experimental_modules(&mut self, node: bool) -> (r: &mut Bindgen)
        ensures
            *r == (Bindgen { nodejs_experimental_modules: node, ..*old(self) }),
            *final(self) == *final(r),
    {
        self.nodejs_experimental_modules = node;
        self
    }

    pub fn browser(&mut self, browser: bool) -> (r: &mut Bindgen)
        ensures
            *r == (Bindgen { browser, ..*old(self) }),
            *final(self) == *final(r),
    {
        self.browser = browser;
        self
    }

    pub fn no_modules(&mut self, no_modules: bool) -> (r: &mut Bindgen)
        ensures
            *r == (Bindgen { no_modules, ..*old(self) }),
            *final(self) == *final(r),
    {
        self.no_modules = no_modules;
        self
    }

    pub fn no_modules_global(&mut self, name: &str) -> (r: &mut Bindgen)
        ensures
            r.no_modules_global matches Some(g) && g@ == name@,
            (Bindgen { no_modules_global: old(self).no_modules_global, ..*r }) == *old(self),
            *final(self) == *final(r),
    {
        self.no_modules_global = Some(String::from_str(name));
        self
    }

    pub fn debug(&mut self, debug: bool) -> (r: &mut Bindgen)
        ensures
            *r == (Bindgen { debug, ..*old(self) }),
            *final(self) == *final(r),
    {
        self.debug = debug;
        self
    }

    pub fn typescript(&mut self, typescript: bool) -> (r: &mut Bindgen)
        ensures
            *r == (Bindgen { typescript, ..*old(self) }),
            *final(self) == *final(r),
    {
        self.typescript = typescript;
        self
    }

    pub fn demangle(&mut self, demangle: bool) -> (r: &mut Bindgen)
        ensures
            *r == (Bindgen { demangle, ..*old(self) }),
            *final(self) == *final(r),
    {
        self.demangle = demangle;
        self
    }

    pub fn keep_debug(&mut self, keep_debug: bool) -> (r: &mut Bindgen)
        ensures
            *r == (Bindgen { keep_debug, ..*old(self) }),
            *final(self) == *final(r),
    {
        self.keep_debug = keep_debug;
        self
    }

    /// Sets the experimental weak reference support, which the embedding
    /// program reads from its environment.
    pub fn weak_refs(&mut self, weak_refs: bool) -> (r: &mut Bindgen)
        ensures
            *r == (Bindgen { weak_refs, ..*old(self) }),
            *final(self) == *final(r),
    {
        self.weak_refs = weak_refs;
        self
    }
}

impl Bindgen {
    /// Resolves an input that needs no reading: an already parsed module is
    /// taken, leaving an empty one in its place; a binary form is parsed. A
    /// path is for the caller to read.
    pub fn take_module(&mut self) -> (r: Result<(Module, String), GenerateError>)
        requires
            !(old(self).input is Path),
        ensures
            match old(self).input {
                Input::Unset => (r matches Err(GenerateError::NoInput)) && final(self).input is Unset,
                Input::Module(m, name) => (r matches Ok((m2, n2)) && m2 == m && n2@ == name@)
                    && (final(self).input matches Input::Module(e, n3) && sections_of(e).len()
                    == 0 && n3@ == name@),
                Input::Bytes(b, name) => final(self).input == old(self).input && (r is Ok
                    <==> decodes_as_wasm(b@)) && match r {
                    Ok((_, n2)) => n2@ == name@,
                    Err(e) => e is Parse,
                },
                Input::Path(_) => false,
            },
            (Bindgen { input: old(self).input, ..*final(self) }) == *old(self),
    {
        match &mut self.input {
            Input::Unset => Err(GenerateError::NoInput),
            Input::Module(m, name) => {
                let mut taken = empty_module();
                std::mem::swap(m, &mut taken);
                Ok((taken, name.clone()))
            },
            Input::Bytes(b, name) => match parse_module(b.as_slice()) {
                Ok(m) => Ok((m, name.clone())),
                Err(e) => Err(GenerateError::Parse(e)),
            },
            Input::Path(_) => Err(GenerateError::NoInput),
        }
    }

    /// The Node.js loader for `m`, stored as `wasm_file`.
    pub fn generate_node_wasm_import(&self, m: &Module, wasm_file: &str) -> (r: String)
        ensures
            r@ == node_shim(
                import_modules_of(*m),
                export_fields_of(*m),
                wasm_file@,
                self.nodejs_experimental_modules,
            ),
    {
        let imports = import_modules(m);
        let exports = export_fields(m);
        build_node_shim(&imports, &exports, wasm_file, self.nodejs_experimental_modules)
    }

    /// Runs the pipeline on a resolved module whose outputs are named after
    /// `stem`: the metadata is read and stripped, the output file names are
    /// chosen, the Node.js loader is built when Node.js is the target, and
    /// the stripped module is encoded.
    pub fn generate_from(&self, module: Module, stem: &str) -> (r: Result<Output, GenerateError>)
        ensures
            match r {
                Ok(o) => metadata_failure(sections_of(module), "6"@) is None
                    && o.programs@.len() == metadata_records(sections_of(module)).len()
                    && o.js_file@ == stem@ + "."@ + script_extension(
                    self.nodejs_experimental_modules,
                ) && o.js@ == formatted(seq![]) && o.ts@ == TYPESCRIPT_HEADER@ && (
                if self.typescript {
                    (o.ts_file matches Some(t) && t@ == stem@ + ".d.ts"@)
                } else {
                    o.ts_file is None
                }) && o.wasm_file@ == bg_stem(stem@) + ".wasm"@ && (if self.nodejs {
                    (o.shim matches Some((f, text)) && f@ == bg_stem(stem@) + "."@
                        + script_extension(self.nodejs_experimental_modules) && text@
                        == node_shim(
                        import_modules_of(module),
                        export_fields_of(module),
                        o.wasm_file@,
                        self.nodejs_experimental_modules,
                    ))
                } else {
                    o.shim is None
                }) && exists|m2: Module|
                    #[trigger] encoding_of(m2) == Some(o.wasm@) && stripped_from(m2, module),
                Err(GenerateError::Metadata(e)) => metadata_failure(sections_of(module), "6"@)
                    == Some(e.kind()) && (e.kind() == FailureKind::VersionMismatch
                    ==> e.found_version() == metadata_mismatch_version(
                    sections_of(module),
                    "6"@,
                )),
                Err(GenerateError::Serialize(_)) => metadata_failure(
                    sections_of(module),
                    "6"@,
                ) is None && exists|m2: Module|
                    #[trigger] encoding_of(m2) is None && stripped_from(m2, module),
                Err(_) => false,
            },
    {
        let ghost given = module;
        let mut module = module;
        let programs = match extract_programs(&mut module) {
            Ok(p) => p,
            Err(e) => {
                return Err(GenerateError::Metadata(e));
            },
        };
        let ext: &str = if self.nodejs_experimental_modules {
            "mjs"
        } else {
            "js"
        };
        let mut js: Vec<char> = Vec::new();
        push_str_chars(&mut js, stem);
        push_str_chars(&mut js, ".");
        push_str_chars(&mut js, ext);
        let js_file = crate::text::string_of_chars(&js);
        let cx = Context::new();
        let (script, ts) = cx.finalize();
        assert(definitions(seq![]) =~= seq![]);
        assert(script@ =~= seq![]);
        let js_text = reset_indentation(script.as_str());
        let ts_file = if self.typescript {
            let mut ts: Vec<char> = Vec::new();
            push_str_chars(&mut ts, stem);
            push_str_chars(&mut ts, ".d.ts");
            Some(crate::text::string_of_chars(&ts))
        } else {
            None
        };
        let mut bg: Vec<char> = Vec::new();
        push_str_chars(&mut bg, stem);
        push_str_chars(&mut bg, "_bg");
        let mut wasm_name = bg.clone();
        push_str_chars(&mut wasm_name, ".wasm");
        let wasm_file = crate::text::string_of_chars(&wasm_name);
        let shim = if self.nodejs {
            let mut shim_name = bg.clone();
            push_str_chars(&mut shim_name, ".");
            push_str_chars(&mut shim_name, ext);
            let text = self.generate_node_wasm_import(&module, wasm_file.as_str());
            Some((crate::text::string_of_chars(&shim_name), text))
        } else {
            None
        };
        let ghost stripped = module;
        match serialize_module(module) {
            Ok(wasm) => {
                let o = Output {
                    programs,
                    js_file,
                    js: js_text,
                    ts,
                    ts_file,
                    wasm_file,
                    shim,
                    wasm,
                };
                assert(stripped_from(stripped, given));
                assert(encoding_of(stripped) == Some(o.wasm@));
                Ok(o)
            },
            Err(e) => {
                assert(stripped_from(stripped, given));
                assert(encoding_of(stripped) is None);
                Err(GenerateError::Serialize(e))
            },
        }
    }
}

} // verus!
