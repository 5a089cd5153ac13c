//! Turns a WebAssembly module that carries bindgen metadata into JavaScript
//! bindings, loader shims and a stripped module.
pub mod bindgen;
pub mod format;
pub mod js;
pub mod metadata;
pub mod order;
pub mod shim;
pub mod text;
pub mod wasm;

pub use bindgen::{Bindgen, GenerateError, Input, Output};
