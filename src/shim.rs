//! The loader that Node.js runs to instantiate the stripped module.
use vstd::prelude::*;

use crate::format::{formatted, reset_indentation};
use crate::order::{ascending_of, lemma_ascending_of, strictly_ascending};
use crate::text::push_str_chars;
use crate::wasm::string_views;

verus! {

pub open spec fn digit(d: nat) -> char {
    if d == 0 {
        '0'
    } else if d == 1 {
        '1'
    } else if d == 2 {
        '2'
    } else if d == 3 {
        '3'
    } else if d == 4 {
        '4'
    } else if d == 5 {
        '5'
    } else if d == 6 {
        '6'
    } else if d == 7 {
        '7'
    } else if d == 8 {
        '8'
    } else {
        '9'
    }
}

/// `n` written in decimal.
pub open spec fn decimal(n: nat) -> Seq<char>
    decreases n,
{
    if n < 10 {
        seq![digit(n)]
    } else {
        decimal(n / 10) + seq![digit(n % 10)]
    }
}

fn digit_char(d: usize) -> (r: char)
    requires
        d < 10,
    ensures
        r == digit(d as nat),
{
    if d == 0 {
        '0'
    } else if d == 1 {
        '1'
    } else if d == 2 {
        '2'
    } else if d == 3 {
        '3'
    } else if d == 4 {
        '4'
    } else if d == 5 {
        '5'
    } else if d == 6 {
        '6'
    } else if d == 7 {
        '7'
    } else if d == 8 {
        '8'
    } else {
        '9'
    }
}

/// Appends `n` in decimal to `out`.
fn push_decimal(out: &mut Vec<char>, n: usize)
    ensures
        final(out)@ == old(out)@ + decimal(n as nat),
    decreases n,
{
    if n >= 10 {
        push_decimal(out, n / 10);
    }
    out.push(digit_char(n % 10));
    assert(out@ =~= old(out)@ + decimal(n as nat));
}

/// Relies on `BTreeSet<&str>`: collecting keeps one copy of each string, and
/// iteration visits them in ascending order (`str` orders by bytes, which for
/// UTF-8 is the order of code points).
#[verifier::external_body]
fn ascending_unique(names: &Vec<String>) -> (r: Vec<String>)
    ensures
        strictly_ascending(string_views(r@)),
        string_views(r@).to_set() == string_views(names@).to_set(),
{
    let set: std::collections::BTreeSet<&str> = names.iter().map(|s| s.as_str()).collect();
    set.into_iter().map(|s| s.to_string()).collect()
}

/// The classic loader's line that loads import module `m`.
pub open spec fn require_line(m: Seq<char>) -> Seq<char> {
    "imports['"@ + m + "'] = require('"@ + m + "');\n"@
}

/// The ES module loader's namespace import of module `m` as number `i`.
pub open spec fn import_decl(i: nat, m: Seq<char>) -> Seq<char> {
    "import * as import"@ + decimal(i) + " from '"@ + m + "';\n"@
}

/// The ES module loader's line that hands namespace number `i` to module `m`.
pub open spec fn import_entry(i: nat, m: Seq<char>) -> Seq<char> {
    "imports['"@ + m + "'] = import"@ + decimal(i) + ";\n"@
}

/// The ES module loader's re-export of export `e`.
pub open spec fn export_line(e: Seq<char>) -> Seq<char> {
    "export const "@ + e + " = wasmInstance.exports."@ + e + ";\n"@
}

/// One line for each name in `ms`, in order. The line is, by `form`: 0, a
/// `require`; 1, a namespace import; 2, an entry of the imports table;
/// otherwise a re-export.
pub open spec fn per_module(ms: Seq<Seq<char>>, form: nat) -> Seq<char>
    decreases ms.len(),
{
    if ms.len() == 0 {
        seq![]
    } else {
        let i = (ms.len() - 1) as nat;
        per_module(ms.drop_last(), form) + if form == 0 {
            require_line(ms.last())
        } else if form == 1 {
            import_decl(i, ms.last())
        } else if form == 2 {
            import_entry(i, ms.last())
        } else {
            export_line(ms.last())
        }
    }
}

pub open spec fn cjs_header(wasm_file: Seq<char>) -> Seq<char> {
    "\nconst path = require('path').join(__dirname, '"@ + wasm_file
        + "');\nconst bytes = require('fs').readFileSync(path);\n"@
}

pub open spec fn esm_header(wasm_file: Seq<char>) -> Seq<char> {
    "\nimport * as path from 'path';\nimport * as fs from 'fs';\nimport * as url from 'url';\nimport * as process from 'process';\n\nlet file = path.dirname(url.parse(import.meta.url).pathname);\nif (process.platform === 'win32') {\nfile = file.substring(1);\n}\nconst bytes = fs.readFileSync(path.join(file, '"@
        + wasm_file + "'));\n"@
}

pub open spec fn imports_table() -> Seq<char> {
    "let imports = {};\n"@
}

pub open spec fn instantiation() -> Seq<char> {
    "\nconst wasmModule = new WebAssembly.Module(bytes);\nconst wasmInstance = new WebAssembly.Instance(wasmModule, imports);\n"@
}

pub open spec fn cjs_footer() -> Seq<char> {
    "module.exports = wasmInstance.exports;\n"@
}

/// The loader before re-indentation, for the import modules `ms` (each once,
/// in ascending order), the exports `es` and the module's file name.
pub open spec fn shim_source(
    ms: Seq<Seq<char>>,
    es: Seq<Seq<char>>,
    wasm_file: Seq<char>,
    esm: bool,
) -> Seq<char> {
    if esm {
        per_module(ms, 1) + esm_header(wasm_file) + imports_table() + per_module(ms, 2) + instantiation()
            + per_module(es, 3)
    } else {
        cjs_header(wasm_file) + imports_table() + per_module(ms, 0) + instantiation() + cjs_footer()
    }
}

/// The loader for a module whose imports name the modules `imports`, with
/// the exports `exports`, stored in the file `wasm_file`.
pub open spec fn node_shim(
    imports: Seq<Seq<char>>,
    exports: Seq<Seq<char>>,
    wasm_file: Seq<char>,
    esm: bool,
) -> Seq<char> {
    formatted(shim_source(ascending_of(imports.to_set()), exports, wasm_file, esm))
}

fn push_per_module(out: &mut Vec<char>, ms: &Vec<String>, form: usize)
    requires
        form <= 3,
    ensures
        final(out)@ == old(out)@ + per_module(string_views(ms@), form as nat),
{
    let ghost all = string_views(ms@);
    let mut i: usize = 0;
    assert(all.subrange(0, 0) =~= seq![]);
    while i < ms.len()
        invariant
            i <= ms@.len(),
            form <= 3,
            all == string_views(ms@),
            out@ == old(out)@ + per_module(all.subrange(0, i as int), form as nat),
        decreases ms@.len() - i,
    {
        let m = ms[i].as_str();
        let ghost before = out@;
        if form == 0 {
            push_str_chars(out, "imports['");
            push_str_chars(out, m);
            push_str_chars(out, "'] = require('");
            push_str_chars(out, m);
            push_str_chars(out, "');\n");
        } else if form == 1 {
            push_str_chars(out, "import * as import");
            push_decimal(out, i);
            push_str_chars(out, " from '");
            push_str_chars(out, m);
            push_str_chars(out, "';\n");
        } else if form == 2 {
            push_str_chars(out, "imports['");
            push_str_chars(out, m);
            push_str_chars(out, "'] = import");
            push_decimal(out, i);
            push_str_chars(out, ";\n");
        } else {
            push_str_chars(out, "export const ");
            push_str_chars(out, m);
            push_str_chars(out, " = wasmInstance.exports.");
            push_str_chars(out, m);
            push_str_chars(out, ";\n");
        }
        let ghost sub = all.subrange(0, i + 1);
        assert(sub.drop_last() =~= all.subrange(0, i as int));
        assert(sub.last() == m@);
        i = i + 1;
        assert(out@ =~= old(out)@ + per_module(all.subrange(0, i as int), form as nat));
    }
    assert(all.subrange(0, i as int) =~= all);
}

/// Builds the Node.js loader for a module that imports from the modules
/// `imports` and exports `exports`, stored in the file `wasm_file`.
///
/// Each import module is loaded once, in ascending order of names, so the
/// text depends on the set of names alone. The classic form loads them with
/// `require` and replaces `module.exports`; the ES module form imports them
/// as namespaces and re-exports every export by name.
pub fn build_node_shim(imports: &Vec<String>, exports: &Vec<String>, wasm_file: &str, esm: bool) -> (r:
    String)
    ensures
        r@ == node_shim(string_views(imports@), string_views(exports@), wasm_file@, esm),
{
    let ms = ascending_unique(imports);
    proof {
        lemma_ascending_of(string_views(ms@));
    }
    let mut out: Vec<char> = Vec::new();
    if esm {
        push_per_module(&mut out, &ms, 1);
        push_str_chars(
            &mut out,
            "\nimport * as path from 'path';\nimport * as fs from 'fs';\nimport * as url from 'url';\nimport * as process from 'process';\n\nlet file = path.dirname(url.parse(import.meta.url).pathname);\nif (process.platform === 'win32') {\nfile = file.substring(1);\n}\nconst bytes = fs.readFileSync(path.join(file, '",
        );
        push_str_chars(&mut out, wasm_file);
        push_str_chars(&mut out, "'));\n");
        push_str_chars(&mut out, "let imports = {};\n");
        push_per_module(&mut out, &ms, 2);
        push_str_chars(
            &mut out,
            "\nconst wasmModule = new WebAssembly.Module(bytes);\nconst wasmInstance = new WebAssembly.Instance(wasmModule, imports);\n",
        );
        push_per_module(&mut out, exports, 3);
    } else {
        push_str_chars(&mut out, "\nconst path = require('path').join(__dirname, '");
        push_str_chars(&mut out, wasm_file);
        push_str_chars(&mut out, "');\nconst bytes = require('fs').readFileSync(path);\n");
        push_str_chars(&mut out, "let imports = {};\n");
        push_per_module(&mut out, &ms, 0);
        push_str_chars(
            &mut out,
            "\nconst wasmModule = new WebAssembly.Module(bytes);\nconst wasmInstance = new WebAssembly.Instance(wasmModule, imports);\n",
        );
        push_str_chars(&mut out, "module.exports = wasmInstance.exports;\n");
    }
    let ghost src = shim_source(string_views(ms@), string_views(exports@), wasm_file@, esm);
    assert(out@ =~= src);
    let text = crate::text::string_of_chars(&out);
    reset_indentation(text.as_str())
}

/// The loader does not depend on the order of the import modules, nor on
/// repeats among them: two lists that name the same modules give the same
/// text, and the modules appear in the one strictly ascending order of
/// their names.
pub proof fn lemma_node_shim_order_independent(
    a: Seq<Seq<char>>,
    b: Seq<Seq<char>>,
    exports: Seq<Seq<char>>,
    wasm_file: Seq<char>,
    esm: bool,
    ordered: Seq<Seq<char>>,
)
    requires
        a.to_set() == b.to_set(),
        strictly_ascending(ordered),
        ordered.to_set() == a.to_set(),
    ensures
        node_shim(a, exports, wasm_file, esm) == node_shim(b, exports, wasm_file, esm),
        node_shim(a, exports, wasm_file, esm) == formatted(
            shim_source(ordered, exports, wasm_file, esm),
        ),
{
    lemma_ascending_of(ordered);
}

} // verus!
