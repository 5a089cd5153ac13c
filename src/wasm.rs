//! The parts of a parsed WebAssembly module that this library reads and
//! changes, over `parity_wasm`'s module type.
use vstd::prelude::*;

use parity_wasm::elements::{Error as WasmError, Module};

verus! {

#[verifier::external_type_specification]
#[verifier::external_body]
pub struct ExModule(Module);

#[verifier::external_type_specification]
#[verifier::external_body]
pub struct ExWasmError(WasmError);

/// The sections of a module in order: the name and payload of a custom
/// section, `None` for any other.
pub uninterp spec fn sections_of(m: Module) -> Seq<Option<(Seq<char>, Seq<u8>)>>;

/// The module names of the entries of a module's import section, in order
/// (empty without one).
pub uninterp spec fn import_modules_of(m: Module) -> Seq<Seq<char>>;

/// The field names of the entries of a module's export section, in order
/// (empty without one).
pub uninterp spec fn export_fields_of(m: Module) -> Seq<Seq<char>>;

/// Whether `b` decodes as a module.
pub uninterp spec fn decodes_as_wasm(b: Seq<u8>) -> bool;

/// The binary form of `m`, or `None` where it cannot be encoded.
pub uninterp spec fn encoding_of(m: Module) -> Option<Seq<u8>>;

pub open spec fn string_views(v: Seq<String>) -> Seq<Seq<char>> {
    v.map_values(|s: String| s@)
}

/// Relies on `Module::sections`: the number of sections.
#[verifier::external_body]
pub(crate) fn section_count(m: &Module) -> (r: usize)
    ensures
        r == sections_of(*m).len(),
{
    m.sections().len()
}

/// Relies on `Module::sections` and `CustomSection::{name, payload}`: the
/// name and payload of section `i` if it is a custom one.
#[verifier::external_body]
pub(crate) fn custom_section(m: &Module, i: usize) -> (r: Option<(String, Vec<u8>)>)
    requires
        i < sections_of(*m).len(),
    ensures
        match r {
            Some((name, payload)) => sections_of(*m)[i as int] == Some((name@, payload@)),
            None => sections_of(*m)[i as int] is None,
        },
{
    match m.sections()[i] {
        parity_wasm::elements::Section::Custom(ref s) => Some((s.name().to_string(), s.payload().to_vec())),
        _ => None,
    }
}

/// Relies on `Module::sections_mut` and `Vec::remove`: section `i` is taken
/// out, the others keep their order. `import_section` and `export_section`
/// look for the first section of their kind, so taking out a custom section
/// leaves the imports and exports as they were.
#[verifier::external_body]
pub(crate) fn remove_section(m: &mut Module, i: usize)
    requires
        i < sections_of(*old(m)).len(),
    ensures
        sections_of(*final(m)) == sections_of(*old(m)).remove(i as int),
        sections_of(*old(m))[i as int] is Some ==> import_modules_of(*final(m)) == import_modules_of(*old(m)),
        sections_of(*old(m))[i as int] is Some ==> export_fields_of(*final(m)) == export_fields_of(*old(m)),
{
    m.sections_mut().remove(i);
}

/// Relies on `Module::import_section` and `ImportEntry::module`.
#[verifier::external_body]
pub(crate) fn import_modules(m: &Module) -> (r: Vec<String>)
    ensures
        string_views(r@) == import_modules_of(*m),
{
    match m.import_section() {
        Some(s) => s.entries().iter().map(|e| e.module().to_string()).collect(),
        None => Vec::new(),
    }
}

/// Relies on `Module::export_section` and `ExportEntry::field`.
#[verifier::external_body]
pub(crate) fn export_fields(m: &Module) -> (r: Vec<String>)
    ensures
        string_views(r@) == export_fields_of(*m),
{
    match m.export_section() {
        Some(s) => s.entries().iter().map(|e| e.field().to_string()).collect(),
        None => Vec::new(),
    }
}

/// Relies on `parity_wasm::deserialize_buffer`, which decodes a module from
/// its binary form.
#[verifier::external_body]
pub(crate) fn parse_module(bytes: &[u8]) -> (r: Result<Module, WasmError>)
    ensures
        r is Ok <==> decodes_as_wasm(bytes@),
{
    parity_wasm::deserialize_buffer::<Module>(bytes)
}

/// Relies on `parity_wasm::serialize`, which encodes a module in its binary
/// form.
#[verifier::external_body]
pub(crate) fn serialize_module(m: Module) -> (r: Result<Vec<u8>, WasmError>)
    ensures
        match r {
            Ok(b) => encoding_of(m) == Some(b@),
            Err(_) => encoding_of(m) is None,
        },
{
    parity_wasm::serialize(m)
}

/// Relies on `Module::new`: a module without sections.
#[verifier::external_body]
pub(crate) fn empty_module() -> (r: Module)
    ensures
        sections_of(r).len() == 0,
{
    Module::new(Vec::new())
}

} // verus!
