//! The library's stated laws: determinism of extraction, disjointness
//! of functions and methods, totality of extension routing, and the
//! shape of comment-derived documentation.

use vstd::prelude::*;

use crate::go::{
    go_decl_types, go_file_record, go_func_record, go_funcs_of, go_method_record,
    go_methods_of, go_type_record, go_type_specs_of, go_types_of, GoPlugin,
};
use crate::paths::spec_extension;
use crate::plugins::{
    lemma_pair_contains, lemma_singleton_contains, registry_is_default, spec_ext_lookup,
    spec_get_for_file, spec_plugin_lookup, LanguagePlugin, Plugin, PluginRegistry,
};
use crate::python::{
    py_classes_of, py_file_record, py_fn_entry, py_func_record, py_funcs_of, py_method_record,
    py_methods_of, PythonPlugin,
};
use crate::records::{ExtractError, FileSpec};
use crate::records::TypeSpecV;
use crate::rust::{
    rust_aliases_of, rust_enums_of, rust_file_record, rust_fn_record, rust_func_record,
    rust_funcs_of, rust_impl_fns_of, rust_impl_methods, rust_methods_of, rust_structs_of,
    rust_traits_of, RustPlugin,
};
use crate::strutil::{
    lemma_split_nl_len, spec_contains_char, spec_is_const_ident, spec_join_lines, spec_lines,
    split_nl, strip_cr,
};
use crate::tree::{
    doc_comments, is_comment_kind, kind_of, spec_clean_comment, spec_field, spec_find_all,
    spec_preceding_comment, spec_prev_sibling, spec_skippable, text_of, SyntaxTree,
};
use crate::typescript::{
    ts_aliases_of, ts_classes_of, ts_enums_of, ts_file_record, ts_ifaces_of, TypeScriptPlugin,
};

verus! {

/// What a module's `extract` is allowed to return for the given inputs:
/// the contract its callers see.
pub open spec fn extract_outcome<P: LanguagePlugin>(
    p: P,
    source: Seq<char>,
    path: Seq<char>,
    r: Result<FileSpec, ExtractError>,
) -> bool {
    match r {
        Ok(record) => p.spec_extract(source, path) == Some(record.deep_view()),
        Err(e) => p.spec_extract(source, path) is None && e == ExtractError::ParseFailure,
    }
}

/// Determinism: two calls of a module's `extract` on one source text
/// and path agree — same success or failure, and equal records.
pub proof fn lemma_extract_deterministic<P: LanguagePlugin>(
    p: P,
    source: Seq<char>,
    path: Seq<char>,
    r1: Result<FileSpec, ExtractError>,
    r2: Result<FileSpec, ExtractError>,
)
    requires
        extract_outcome(p, source, path, r1),
        extract_outcome(p, source, path, r2),
    ensures
        r1 is Ok <==> r2 is Ok,
        r1 is Ok ==> r1->Ok_0.deep_view() == r2->Ok_0.deep_view(),
        r1 is Err ==> r1 == r2,
{
}

/// Every record in a Go free-function list carries no receiver.
pub proof fn lemma_go_funcs_no_receiver(t: SyntaxTree, fs: Seq<usize>)
    ensures
        forall|a: int|
            0 <= a < go_funcs_of(t, fs).len() ==> #[trigger] go_funcs_of(t, fs)[a].receiver
                is None,
    decreases fs.len(),
{
    if fs.len() > 0 {
        lemma_go_funcs_no_receiver(t, fs.drop_last());
        let pre = go_funcs_of(t, fs.drop_last());
        let entry = go_func_record(t, fs.last() as int);
        assert forall|a: int| 0 <= a < go_funcs_of(t, fs).len() implies #[trigger] go_funcs_of(
            t,
            fs,
        )[a].receiver is None by {
            if a < pre.len() {
                assert(go_funcs_of(t, fs)[a] == pre[a]);
            } else {
                assert(go_funcs_of(t, fs)[a] == entry[a - pre.len()]);
            }
        }
    }
}

/// Every record in a Go method list carries a receiver, provided every
/// listed declaration has a receiver clause.
pub proof fn lemma_go_methods_have_receiver(t: SyntaxTree, fs: Seq<usize>)
    requires
        forall|k: int|
            0 <= k < fs.len() ==> spec_field(t, #[trigger] fs[k] as int, "receiver"@) is Some,
    ensures
        forall|b: int|
            0 <= b < go_methods_of(t, fs).len() ==> #[trigger] go_methods_of(t, fs)[b].receiver
                is Some,
    decreases fs.len(),
{
    if fs.len() > 0 {
        assert forall|k: int|
            0 <= k < fs.drop_last().len() implies spec_field(
            t,
            #[trigger] fs.drop_last()[k] as int,
            "receiver"@,
        ) is Some by {
            assert(fs.drop_last()[k] == fs[k]);
        }
        lemma_go_methods_have_receiver(t, fs.drop_last());
        let pre = go_methods_of(t, fs.drop_last());
        let entry = go_method_record(t, fs.last() as int);
        assert(spec_field(t, fs.last() as int, "receiver"@) is Some) by {
            assert(fs[fs.len() - 1] == fs.last());
        }
        assert forall|b: int|
            0 <= b < go_methods_of(t, fs).len() implies #[trigger] go_methods_of(t, fs)[b]
            .receiver is Some by {
            if b < pre.len() {
                assert(go_methods_of(t, fs)[b] == pre[b]);
            } else {
                assert(go_methods_of(t, fs)[b] == entry[b - pre.len()]);
            }
        }
    }
}

/// Disjointness for Go: no record stands both among the free functions
/// and among the methods of an extracted file, provided every method
/// declaration in the tree has a receiver clause (as the grammar
/// guarantees for real parses).
pub proof fn lemma_go_disjoint(t: SyntaxTree, path: Seq<char>)
    requires
        forall|k: int|
            0 <= k < spec_find_all(t, 0, "method_declaration"@).len() ==> spec_field(
                t,
                #[trigger] spec_find_all(t, 0, "method_declaration"@)[k] as int,
                "receiver"@,
            ) is Some,
    ensures
        forall|a: int, b: int|
            0 <= a < go_file_record(t, path).functions.len() && 0 <= b < go_file_record(
                t,
                path,
            ).methods.len() ==> #[trigger] go_file_record(t, path).functions[a] != (
            #[trigger] go_file_record(t, path).methods[b]),
{
    lemma_go_funcs_no_receiver(t, spec_find_all(t, 0, "function_declaration"@));
    lemma_go_methods_have_receiver(t, spec_find_all(t, 0, "method_declaration"@));
    assert forall|a: int, b: int|
        0 <= a < go_file_record(t, path).functions.len() && 0 <= b < go_file_record(
            t,
            path,
        ).methods.len() implies #[trigger] go_file_record(t, path).functions[a] != (
    #[trigger] go_file_record(t, path).methods[b]) by {
        let f = go_file_record(t, path).functions[a];
        let m = go_file_record(t, path).methods[b];
        assert(f.receiver is None);
        assert(m.receiver is Some);
    }
}

/// Every record in a Rust free-function list carries no receiver.
pub proof fn lemma_rust_funcs_no_receiver(t: SyntaxTree, fs: Seq<usize>)
    ensures
        forall|a: int|
            0 <= a < rust_funcs_of(t, fs).len() ==> #[trigger] rust_funcs_of(t, fs)[a].receiver
                is None,
    decreases fs.len(),
{
    if fs.len() > 0 {
        lemma_rust_funcs_no_receiver(t, fs.drop_last());
        let pre = rust_funcs_of(t, fs.drop_last());
        let entry = rust_func_record(t, fs.last() as int);
        assert forall|a: int|
            0 <= a < rust_funcs_of(t, fs).len() implies #[trigger] rust_funcs_of(t, fs)[a]
            .receiver is None by {
            if a < pre.len() {
                assert(rust_funcs_of(t, fs)[a] == pre[a]);
            } else {
                assert(rust_funcs_of(t, fs)[a] == entry[a - pre.len()]);
            }
        }
    }
}

/// Every record an `impl` block contributes carries its receiver.
pub proof fn lemma_rust_impl_fns_receiver(t: SyntaxTree, fs: Seq<usize>, recv: Seq<char>)
    ensures
        forall|b: int|
            0 <= b < rust_impl_fns_of(t, fs, Some(recv)).len() ==> #[trigger] rust_impl_fns_of(
                t,
                fs,
                Some(recv),
            )[b].receiver == Some(recv),
    decreases fs.len(),
{
    if fs.len() > 0 {
        lemma_rust_impl_fns_receiver(t, fs.drop_last(), recv);
        let pre = rust_impl_fns_of(t, fs.drop_last(), Some(recv));
        let entry = rust_fn_record(t, fs.last() as int, Some(recv));
        assert forall|b: int|
            0 <= b < rust_impl_fns_of(t, fs, Some(recv)).len() implies (
        #[trigger] rust_impl_fns_of(t, fs, Some(recv))[b].receiver == Some(recv)) by {
            if b < pre.len() {
                assert(rust_impl_fns_of(t, fs, Some(recv))[b] == pre[b]);
            } else {
                assert(rust_impl_fns_of(t, fs, Some(recv))[b] == entry[b - pre.len()]);
            }
        }
    }
}

/// Every record in a Rust method list carries a receiver, provided
/// every listed `impl` block names an implemented type.
pub proof fn lemma_rust_methods_have_receiver(t: SyntaxTree, ims: Seq<usize>)
    requires
        forall|k: int|
            0 <= k < ims.len() ==> spec_field(t, #[trigger] ims[k] as int, "type"@) is Some,
    ensures
        forall|b: int|
            0 <= b < rust_methods_of(t, ims).len() ==> #[trigger] rust_methods_of(t, ims)[b]
                .receiver is Some,
    decreases ims.len(),
{
    if ims.len() > 0 {
        assert forall|k: int|
            0 <= k < ims.drop_last().len() implies spec_field(
            t,
            #[trigger] ims.drop_last()[k] as int,
            "type"@,
        ) is Some by {
            assert(ims.drop_last()[k] == ims[k]);
        }
        lemma_rust_methods_have_receiver(t, ims.drop_last());
        let pre = rust_methods_of(t, ims.drop_last());
        let im = ims.last() as int;
        assert(spec_field(t, im, "type"@) is Some) by {
            assert(ims[ims.len() - 1] == ims.last());
        }
        let recv = crate::tree::spec_field_text(t, im, "type"@);
        let entry = rust_impl_methods(t, im);
        assert(recv is Some);
        lemma_rust_impl_fns_receiver(
            t,
            spec_find_all(
                t,
                match crate::tree::spec_child_by_kind(t, im, "declaration_list"@) {
                    Some(b) => b as int,
                    None => 0,
                },
                "function_item"@,
            ),
            recv->0,
        );
        assert forall|b: int|
            0 <= b < rust_methods_of(t, ims).len() implies #[trigger] rust_methods_of(
            t,
            ims,
        )[b].receiver is Some by {
            if b < pre.len() {
                assert(rust_methods_of(t, ims)[b] == pre[b]);
            } else {
                assert(rust_methods_of(t, ims)[b] == entry[b - pre.len()]);
            }
        }
    }
}

/// Disjointness for Rust: no record stands both among the free
/// functions and among the methods of an extracted file, provided
/// every `impl` block in the tree names the type it implements (as the
/// grammar guarantees for real parses).
pub proof fn lemma_rust_disjoint(t: SyntaxTree, path: Seq<char>)
    requires
        forall|k: int|
            0 <= k < spec_find_all(t, 0, "impl_item"@).len() ==> spec_field(
                t,
                #[trigger] spec_find_all(t, 0, "impl_item"@)[k] as int,
                "type"@,
            ) is Some,
    ensures
        forall|a: int, b: int|
            0 <= a < rust_file_record(t, path).functions.len() && 0 <= b < rust_file_record(
                t,
                path,
            ).methods.len() ==> #[trigger] rust_file_record(t, path).functions[a] != (
            #[trigger] rust_file_record(t, path).methods[b]),
{
    lemma_rust_funcs_no_receiver(t, spec_find_all(t, 0, "function_item"@));
    lemma_rust_methods_have_receiver(t, spec_find_all(t, 0, "impl_item"@));
    assert forall|a: int, b: int|
        0 <= a < rust_file_record(t, path).functions.len() && 0 <= b < rust_file_record(
            t,
            path,
        ).methods.len() implies #[trigger] rust_file_record(t, path).functions[a] != (
    #[trigger] rust_file_record(t, path).methods[b]) by {
        let f = rust_file_record(t, path).functions[a];
        let m = rust_file_record(t, path).methods[b];
        assert(f.receiver is None);
        assert(m.receiver is Some);
    }
}

/// Every record in a Python free-function list carries no receiver.
pub proof fn lemma_py_funcs_no_receiver(t: SyntaxTree, ns: Seq<usize>)
    ensures
        forall|a: int|
            0 <= a < py_funcs_of(t, ns).len() ==> #[trigger] py_funcs_of(t, ns)[a].receiver
                is None,
    decreases ns.len(),
{
    if ns.len() > 0 {
        lemma_py_funcs_no_receiver(t, ns.drop_last());
        let pre = py_funcs_of(t, ns.drop_last());
        let entry = py_func_record(t, ns.last() as int);
        assert forall|a: int| 0 <= a < py_funcs_of(t, ns).len() implies #[trigger] py_funcs_of(
            t,
            ns,
        )[a].receiver is None by {
            if a < pre.len() {
                assert(py_funcs_of(t, ns)[a] == pre[a]);
            } else {
                assert(py_funcs_of(t, ns)[a] == entry[a - pre.len()]);
            }
        }
    }
}

/// Every record in a Python module-level method list carries the
/// `self` receiver.
pub proof fn lemma_py_methods_have_receiver(t: SyntaxTree, ns: Seq<usize>)
    ensures
        forall|b: int|
            0 <= b < py_methods_of(t, ns).len() ==> #[trigger] py_methods_of(t, ns)[b].receiver
                is Some,
    decreases ns.len(),
{
    if ns.len() > 0 {
        lemma_py_methods_have_receiver(t, ns.drop_last());
        let pre = py_methods_of(t, ns.drop_last());
        let entry = py_method_record(t, ns.last() as int);
        assert forall|b: int|
            0 <= b < py_methods_of(t, ns).len() implies #[trigger] py_methods_of(t, ns)[b]
            .receiver is Some by {
            if b < pre.len() {
                assert(py_methods_of(t, ns)[b] == pre[b]);
            } else {
                assert(py_methods_of(t, ns)[b] == entry[b - pre.len()]);
            }
        }
    }
}

/// Disjointness for Python: no record stands both among the free
/// functions and among the methods of an extracted file — free
/// functions never carry a receiver, methods always do.
pub proof fn lemma_python_disjoint(t: SyntaxTree, path: Seq<char>)
    ensures
        forall|a: int, b: int|
            0 <= a < py_file_record(t, path).functions.len() && 0 <= b < py_file_record(
                t,
                path,
            ).methods.len() ==> #[trigger] py_file_record(t, path).functions[a] != (
            #[trigger] py_file_record(t, path).methods[b]),
{
    lemma_py_funcs_no_receiver(t, spec_find_all(t, 0, "function_definition"@));
    lemma_py_methods_have_receiver(t, spec_find_all(t, 0, "function_definition"@));
    assert forall|a: int, b: int|
        0 <= a < py_file_record(t, path).functions.len() && 0 <= b < py_file_record(
            t,
            path,
        ).methods.len() implies #[trigger] py_file_record(t, path).functions[a] != (
    #[trigger] py_file_record(t, path).methods[b]) by {
        let f = py_file_record(t, path).functions[a];
        let m = py_file_record(t, path).methods[b];
        assert(f.receiver is None);
        assert(m.receiver is Some);
    }
}

/// Disjointness for TypeScript holds outright: that module attaches
/// methods to their classes and leaves the file-level method list
/// empty.
pub proof fn lemma_ts_disjoint(t: SyntaxTree, path: Seq<char>)
    ensures
        ts_file_record(t, path).methods.len() == 0,
{
}

/// Extension totality: in the default registry, a path whose extension
/// a module declares is routed to that module and to no other.
pub proof fn lemma_extension_totality(
    reg: PluginRegistry,
    p: Plugin,
    path: Seq<char>,
    ext: Seq<char>,
)
    requires
        registry_is_default(reg),
        p == Plugin::Go(GoPlugin) || p == Plugin::Rust(RustPlugin) || p == Plugin::Python(
            PythonPlugin,
        ) || p == Plugin::TypeScript(TypeScriptPlugin),
        p.spec_extensions().contains(ext),
        spec_extension(path) == Some(ext),
    ensures
        spec_get_for_file(reg, path) == Some(p),
{
    broadcast use vstd::string::group_string_axioms;

    reveal_strlit("go");
    reveal_strlit("rs");
    reveal_strlit("py");
    reveal_strlit("ts");
    reveal_strlit("tsx");
    reveal_strlit("rust");
    reveal_strlit("python");
    reveal_strlit("typescript");
    assert("go"@.len() == 2 && "rs"@.len() == 2 && "py"@.len() == 2 && "ts"@.len() == 2
        && "tsx"@.len() == 3 && "rust"@.len() == 4 && "python"@.len() == 6
        && "typescript"@.len() == 10);
    if p == Plugin::Go(GoPlugin) {
        lemma_singleton_contains("go"@, ext);
        assert(ext == "go"@);
        assert(spec_ext_lookup(reg.ext_map@, ext) == Some("go"@));
        assert(spec_plugin_lookup(reg.plugins@, "go"@) == Some(p));
    } else if p == Plugin::Rust(RustPlugin) {
        lemma_singleton_contains("rs"@, ext);
        assert(ext == "rs"@);
        assert("rs"@[0] == 'r' && "go"@[0] == 'g');
        assert("rs"@ != "go"@);
        assert(spec_ext_lookup(reg.ext_map@, ext) == Some("rust"@));
        assert(spec_plugin_lookup(reg.plugins@, "rust"@) == Some(p));
    } else if p == Plugin::Python(PythonPlugin) {
        lemma_singleton_contains("py"@, ext);
        assert(ext == "py"@);
        assert("py"@[0] == 'p' && "go"@[0] == 'g' && "rs"@[0] == 'r');
        assert("py"@ != "go"@ && "py"@ != "rs"@);
        assert(spec_ext_lookup(reg.ext_map@, ext) == Some("python"@));
        assert(spec_plugin_lookup(reg.plugins@, "python"@) == Some(p));
    } else {
        lemma_pair_contains("ts"@, "tsx"@, ext);
        assert(ext == "ts"@ || ext == "tsx"@);
        assert("ts"@[0] == 't' && "go"@[0] == 'g' && "rs"@[0] == 'r' && "py"@[0] == 'p');
        assert("tsx"@.len() == 3 && "go"@.len() == 2 && "rs"@.len() == 2 && "py"@.len() == 2
            && "ts"@.len() == 2);
        assert("ts"@ != "go"@ && "ts"@ != "rs"@ && "ts"@ != "py"@);
        assert(spec_ext_lookup(reg.ext_map@, ext) == Some("typescript"@));
        assert(spec_plugin_lookup(reg.plugins@, "typescript"@) == Some(p));
    }
}

/// A type record is either field-bearing or variant-bearing, never
/// both.
pub open spec fn fields_variants_exclusive(ts: TypeSpecV) -> bool {
    ts.fields.len() == 0 || ts.variants.len() == 0
}

/// Every record a list of Go type declarations yields keeps fields and
/// variants exclusive (Go has no variant-bearing types at all).
pub proof fn lemma_go_type_shapes_of(t: SyntaxTree, ds: Seq<usize>)
    ensures
        forall|a: int|
            0 <= a < go_types_of(t, ds).len() ==> fields_variants_exclusive(
                #[trigger] go_types_of(t, ds)[a],
            ),
    decreases ds.len(),
{
    if ds.len() > 0 {
        lemma_go_type_shapes_of(t, ds.drop_last());
        let pre = go_types_of(t, ds.drop_last());
        let d = ds.last() as int;
        let entry = go_decl_types(t, d);
        lemma_go_decl_shapes(t, crate::tree::spec_children_by_kind(t, d, "type_spec"@), d);
        assert forall|a: int| 0 <= a < go_types_of(t, ds).len() implies fields_variants_exclusive(
            #[trigger] go_types_of(t, ds)[a],
        ) by {
            if a < pre.len() {
                assert(go_types_of(t, ds)[a] == pre[a]);
            } else {
                assert(go_types_of(t, ds)[a] == entry[a - pre.len()]);
            }
        }
    }
}

pub proof fn lemma_go_decl_shapes(t: SyntaxTree, sps: Seq<usize>, d: int)
    ensures
        forall|a: int|
            0 <= a < go_type_specs_of(t, sps, d).len() ==> fields_variants_exclusive(
                #[trigger] go_type_specs_of(t, sps, d)[a],
            ),
    decreases sps.len(),
{
    if sps.len() > 0 {
        lemma_go_decl_shapes(t, sps.drop_last(), d);
        let pre = go_type_specs_of(t, sps.drop_last(), d);
        let entry = go_type_record(t, sps.last() as int, d);
        assert forall|a: int|
            0 <= a < go_type_specs_of(t, sps, d).len() implies fields_variants_exclusive(
            #[trigger] go_type_specs_of(t, sps, d)[a],
        ) by {
            if a < pre.len() {
                assert(go_type_specs_of(t, sps, d)[a] == pre[a]);
            } else {
                assert(go_type_specs_of(t, sps, d)[a] == entry[a - pre.len()]);
            }
        }
    }
}

/// Fields and variants stay exclusive in every extracted record, for
/// all four language modules.
pub proof fn lemma_fields_variants_exclusive(t: SyntaxTree, path: Seq<char>)
    ensures
        forall|a: int|
            0 <= a < go_file_record(t, path).types.len() ==> fields_variants_exclusive(
                #[trigger] go_file_record(t, path).types[a],
            ),
        forall|a: int|
            0 <= a < py_file_record(t, path).types.len() ==> fields_variants_exclusive(
                #[trigger] py_file_record(t, path).types[a],
            ),
        forall|a: int|
            0 <= a < rust_file_record(t, path).types.len() ==> fields_variants_exclusive(
                #[trigger] rust_file_record(t, path).types[a],
            ),
        forall|a: int|
            0 <= a < ts_file_record(t, path).types.len() ==> fields_variants_exclusive(
                #[trigger] ts_file_record(t, path).types[a],
            ),
{
    lemma_go_type_shapes_of(t, spec_find_all(t, 0, "type_declaration"@));
    lemma_list_shapes_py(t, spec_find_all(t, 0, "class_definition"@));
    lemma_list_shapes_rust(t);
    lemma_list_shapes_ts(t);
}

pub proof fn lemma_list_shapes_py(t: SyntaxTree, ns: Seq<usize>)
    ensures
        forall|a: int|
            0 <= a < py_classes_of(t, ns).len() ==> fields_variants_exclusive(
                #[trigger] py_classes_of(t, ns)[a],
            ),
    decreases ns.len(),
{
    if ns.len() > 0 {
        lemma_list_shapes_py(t, ns.drop_last());
        let pre = py_classes_of(t, ns.drop_last());
        let entry = crate::python::py_class_record(t, ns.last() as int);
        assert forall|a: int|
            0 <= a < py_classes_of(t, ns).len() implies fields_variants_exclusive(
            #[trigger] py_classes_of(t, ns)[a],
        ) by {
            if a < pre.len() {
                assert(py_classes_of(t, ns)[a] == pre[a]);
            } else {
                assert(py_classes_of(t, ns)[a] == entry[a - pre.len()]);
            }
        }
    }
}

pub proof fn lemma_shape_fold_rust_structs(t: SyntaxTree, ns: Seq<usize>)
    ensures
        forall|a: int|
            0 <= a < rust_structs_of(t, ns).len() ==> fields_variants_exclusive(
                #[trigger] rust_structs_of(t, ns)[a],
            ),
    decreases ns.len(),
{
    if ns.len() > 0 {
        lemma_shape_fold_rust_structs(t, ns.drop_last());
        let pre = rust_structs_of(t, ns.drop_last());
        let entry = crate::rust::rust_struct_record(t, ns.last() as int);
        assert forall|a: int|
            0 <= a < rust_structs_of(t, ns).len() implies fields_variants_exclusive(
            #[trigger] rust_structs_of(t, ns)[a],
        ) by {
            if a < pre.len() {
                assert(rust_structs_of(t, ns)[a] == pre[a]);
            } else {
                assert(rust_structs_of(t, ns)[a] == entry[a - pre.len()]);
            }
        }
    }
}

pub proof fn lemma_shape_fold_rust_enums(t: SyntaxTree, ns: Seq<usize>)
    ensures
        forall|a: int|
            0 <= a < rust_enums_of(t, ns).len() ==> fields_variants_exclusive(
                #[trigger] rust_enums_of(t, ns)[a],
            ),
    decreases ns.len(),
{
    if ns.len() > 0 {
        lemma_shape_fold_rust_enums(t, ns.drop_last());
        let pre = rust_enums_of(t, ns.drop_last());
        let entry = crate::rust::rust_enum_record(t, ns.last() as int);
        assert forall|a: int|
            0 <= a < rust_enums_of(t, ns).len() implies fields_variants_exclusive(
            #[trigger] rust_enums_of(t, ns)[a],
        ) by {
            if a < pre.len() {
                assert(rust_enums_of(t, ns)[a] == pre[a]);
            } else {
                assert(rust_enums_of(t, ns)[a] == entry[a - pre.len()]);
            }
        }
    }
}

pub proof fn lemma_shape_fold_rust_traits(t: SyntaxTree, ns: Seq<usize>)
    ensures
        forall|a: int|
            0 <= a < rust_traits_of(t, ns).len() ==> fields_variants_exclusive(
                #[trigger] rust_traits_of(t, ns)[a],
            ),
    decreases ns.len(),
{
    if ns.len() > 0 {
        lemma_shape_fold_rust_traits(t, ns.drop_last());
        let pre = rust_traits_of(t, ns.drop_last());
        let entry = crate::rust::rust_trait_record(t, ns.last() as int);
        assert forall|a: int|
            0 <= a < rust_traits_of(t, ns).len() implies fields_variants_exclusive(
            #[trigger] rust_traits_of(t, ns)[a],
        ) by {
            if a < pre.len() {
                assert(rust_traits_of(t, ns)[a] == pre[a]);
            } else {
                assert(rust_traits_of(t, ns)[a] == entry[a - pre.len()]);
            }
        }
    }
}

pub proof fn lemma_shape_fold_rust_aliases(t: SyntaxTree, ns: Seq<usize>)
    ensures
        forall|a: int|
            0 <= a < rust_aliases_of(t, ns).len() ==> fields_variants_exclusive(
                #[trigger] rust_aliases_of(t, ns)[a],
            ),
    decreases ns.len(),
{
    if ns.len() > 0 {
        lemma_shape_fold_rust_aliases(t, ns.drop_last());
        let pre = rust_aliases_of(t, ns.drop_last());
        let entry = crate::rust::rust_alias_record(t, ns.last() as int);
        assert forall|a: int|
            0 <= a < rust_aliases_of(t, ns).len() implies fields_variants_exclusive(
            #[trigger] rust_aliases_of(t, ns)[a],
        ) by {
            if a < pre.len() {
                assert(rust_aliases_of(t, ns)[a] == pre[a]);
            } else {
                assert(rust_aliases_of(t, ns)[a] == entry[a - pre.len()]);
            }
        }
    }
}

pub proof fn lemma_list_shapes_rust(t: SyntaxTree)
    ensures
        forall|a: int|
            0 <= a < crate::rust::rust_types(t).len() ==> fields_variants_exclusive(
                #[trigger] crate::rust::rust_types(t)[a],
            ),
{
    lemma_shape_fold_rust_structs(t, spec_find_all(t, 0, "struct_item"@));
    lemma_shape_fold_rust_enums(t, spec_find_all(t, 0, "enum_item"@));
    lemma_shape_fold_rust_traits(t, spec_find_all(t, 0, "trait_item"@));
    lemma_shape_fold_rust_aliases(t, spec_find_all(t, 0, "type_item"@));
    let ss = rust_structs_of(t, spec_find_all(t, 0, "struct_item"@));
    let es = rust_enums_of(t, spec_find_all(t, 0, "enum_item"@));
    let ts2 = rust_traits_of(t, spec_find_all(t, 0, "trait_item"@));
    let als = rust_aliases_of(t, spec_find_all(t, 0, "type_item"@));
    assert forall|a: int|
        0 <= a < crate::rust::rust_types(t).len() implies fields_variants_exclusive(
        #[trigger] crate::rust::rust_types(t)[a],
    ) by {
        if a < ss.len() {
            assert(crate::rust::rust_types(t)[a] == ss[a]);
        } else if a < ss.len() + es.len() {
            assert(crate::rust::rust_types(t)[a] == es[a - ss.len()]);
        } else if a < ss.len() + es.len() + ts2.len() {
            assert(crate::rust::rust_types(t)[a] == ts2[a - ss.len() - es.len()]);
        } else {
            assert(crate::rust::rust_types(t)[a] == als[a - ss.len() - es.len() - ts2.len()]);
        }
    }
}

pub proof fn lemma_shape_fold_ts_ifaces(t: SyntaxTree, ns: Seq<usize>)
    ensures
        forall|a: int|
            0 <= a < ts_ifaces_of(t, ns).len() ==> fields_variants_exclusive(
                #[trigger] ts_ifaces_of(t, ns)[a],
            ),
    decreases ns.len(),
{
    if ns.len() > 0 {
        lemma_shape_fold_ts_ifaces(t, ns.drop_last());
        let pre = ts_ifaces_of(t, ns.drop_last());
        let entry = crate::typescript::ts_iface_record(t, ns.last() as int);
        assert forall|a: int|
            0 <= a < ts_ifaces_of(t, ns).len() implies fields_variants_exclusive(
            #[trigger] ts_ifaces_of(t, ns)[a],
        ) by {
            if a < pre.len() {
                assert(ts_ifaces_of(t, ns)[a] == pre[a]);
            } else {
                assert(ts_ifaces_of(t, ns)[a] == entry[a - pre.len()]);
            }
        }
    }
}

pub proof fn lemma_shape_fold_ts_classes(t: SyntaxTree, ns: Seq<usize>)
    ensures
        forall|a: int|
            0 <= a < ts_classes_of(t, ns).len() ==> fields_variants_exclusive(
                #[trigger] ts_classes_of(t, ns)[a],
            ),
    decreases ns.len(),
{
    if ns.len() > 0 {
        lemma_shape_fold_ts_classes(t, ns.drop_last());
        let pre = ts_classes_of(t, ns.drop_last());
        let entry = crate::typescript::ts_class_record(t, ns.last() as int);
        assert forall|a: int|
            0 <= a < ts_classes_of(t, ns).len() implies fields_variants_exclusive(
            #[trigger] ts_classes_of(t, ns)[a],
        ) by {
            if a < pre.len() {
                assert(ts_classes_of(t, ns)[a] == pre[a]);
            } else {
                assert(ts_classes_of(t, ns)[a] == entry[a - pre.len()]);
            }
        }
    }
}

pub proof fn lemma_shape_fold_ts_aliases(t: SyntaxTree, ns: Seq<usize>)
    ensures
        forall|a: int|
            0 <= a < ts_aliases_of(t, ns).len() ==> fields_variants_exclusive(
                #[trigger] ts_aliases_of(t, ns)[a],
            ),
    decreases ns.len(),
{
    if ns.len() > 0 {
        lemma_shape_fold_ts_aliases(t, ns.drop_last());
        let pre = ts_aliases_of(t, ns.drop_last());
        let entry = crate::typescript::ts_alias_record(t, ns.last() as int);
        assert forall|a: int|
            0 <= a < ts_aliases_of(t, ns).len() implies fields_variants_exclusive(
            #[trigger] ts_aliases_of(t, ns)[a],
        ) by {
            if a < pre.len() {
                assert(ts_aliases_of(t, ns)[a] == pre[a]);
            } else {
                assert(ts_aliases_of(t, ns)[a] == entry[a - pre.len()]);
            }
        }
    }
}

pub proof fn lemma_shape_fold_ts_enums(t: SyntaxTree, ns: Seq<usize>)
    ensures
        forall|a: int|
            0 <= a < ts_enums_of(t, ns).len() ==> fields_variants_exclusive(
                #[trigger] ts_enums_of(t, ns)[a],
            ),
    decreases ns.len(),
{
    if ns.len() > 0 {
        lemma_shape_fold_ts_enums(t, ns.drop_last());
        let pre = ts_enums_of(t, ns.drop_last());
        let entry = crate::typescript::ts_enum_record(t, ns.last() as int);
        assert forall|a: int|
            0 <= a < ts_enums_of(t, ns).len() implies fields_variants_exclusive(
            #[trigger] ts_enums_of(t, ns)[a],
        ) by {
            if a < pre.len() {
                assert(ts_enums_of(t, ns)[a] == pre[a]);
            } else {
                assert(ts_enums_of(t, ns)[a] == entry[a - pre.len()]);
            }
        }
    }
}

pub proof fn lemma_list_shapes_ts(t: SyntaxTree)
    ensures
        forall|a: int|
            0 <= a < crate::typescript::ts_types(t).len() ==> fields_variants_exclusive(
                #[trigger] crate::typescript::ts_types(t)[a],
            ),
{
    lemma_shape_fold_ts_ifaces(t, spec_find_all(t, 0, "interface_declaration"@));
    lemma_shape_fold_ts_classes(t, spec_find_all(t, 0, "class_declaration"@));
    lemma_shape_fold_ts_aliases(t, spec_find_all(t, 0, "type_alias_declaration"@));
    lemma_shape_fold_ts_enums(t, spec_find_all(t, 0, "enum_declaration"@));
    let ifs = ts_ifaces_of(t, spec_find_all(t, 0, "interface_declaration"@));
    let cls = ts_classes_of(t, spec_find_all(t, 0, "class_declaration"@));
    let als = ts_aliases_of(t, spec_find_all(t, 0, "type_alias_declaration"@));
    let ens = ts_enums_of(t, spec_find_all(t, 0, "enum_declaration"@));
    assert forall|a: int|
        0 <= a < crate::typescript::ts_types(t).len() implies fields_variants_exclusive(
        #[trigger] crate::typescript::ts_types(t)[a],
    ) by {
        if a < ifs.len() {
            assert(crate::typescript::ts_types(t)[a] == ifs[a]);
        } else if a < ifs.len() + cls.len() {
            assert(crate::typescript::ts_types(t)[a] == cls[a - ifs.len()]);
        } else if a < ifs.len() + cls.len() + als.len() {
            assert(crate::typescript::ts_types(t)[a] == als[a - ifs.len() - cls.len()]);
        } else {
            assert(crate::typescript::ts_types(t)[a] == ens[a - ifs.len() - cls.len()
                - als.len()]);
        }
    }
}

/// The uppercase heuristic's boundary: an all-uppercase identifier is a
/// constant name; one lowercase character anywhere disqualifies it.
pub proof fn lemma_uppercase_boundary()
    ensures
        spec_is_const_ident("MAX_RETRIES"@),
        !spec_is_const_ident("maxRetries"@),
        !spec_is_const_ident("Max_Retries"@),
{
    broadcast use vstd::string::group_string_axioms;

    reveal_strlit("MAX_RETRIES");
    reveal_strlit("maxRetries");
    reveal_strlit("Max_Retries");
    assert forall|j: int|
        0 <= j < "MAX_RETRIES"@.len() implies crate::strutil::is_upper(
        #[trigger] "MAX_RETRIES"@[j],
    ) || "MAX_RETRIES"@[j] == '_' by {
        if j == 0 || j == 1 || j == 2 || j == 4 || j == 5 || j == 6 || j == 7 || j == 8 || j
            == 9 || j == 10 {
            assert('A' <= "MAX_RETRIES"@[j] <= 'Z');
        } else {
            assert("MAX_RETRIES"@[j] == '_');
        }
    }
    assert(!crate::strutil::is_upper("maxRetries"@[0]) && "maxRetries"@[0] != '_');
    assert(!crate::strutil::is_upper("Max_Retries"@[1]) && "Max_Retries"@[1] != '_');
}

/// The cleaned comments before `node`, given explicitly as the chain of
/// comment siblings (`chain[k]` is the sibling directly before
/// `chain[k + 1]`, and the last one directly precedes `node`).
pub open spec fn comment_chain(t: SyntaxTree, node: int, chain: Seq<int>) -> bool {
    &&& (forall|k: int| 0 <= k < chain.len() ==> 0 <= #[trigger] chain[k] <= usize::MAX)
    &&& (forall|k: int| 0 <= k < chain.len() - 1 ==> #[trigger] chain[k] < chain[k + 1])
    &&& (chain.len() > 0 ==> chain.last() < node && spec_prev_sibling(t, node) == Some(
        chain.last() as usize,
    ))
    &&& (forall|k: int|
        0 <= k < chain.len() - 1 ==> spec_prev_sibling(t, chain[k + 1]) == Some(
            #[trigger] chain[k] as usize,
        ))
    &&& (forall|k: int| 0 <= k < chain.len() ==> is_comment_kind(kind_of(t, #[trigger] chain[k])))
    &&& {
        let stop = if chain.len() > 0 {
            chain[0]
        } else {
            node
        };
        match spec_prev_sibling(t, stop) {
            None => true,
            Some(q) => (q as int) < stop && !is_comment_kind(kind_of(t, q as int))
                && !spec_skippable(t, q as int),
        }
    }
}

/// A nonempty chain shortened by its last element is again a chain,
/// for the node that element precedes.
#[verifier::rlimit(60)]
pub proof fn lemma_chain_shorter(t: SyntaxTree, node: int, chain: Seq<int>)
    requires
        comment_chain(t, node, chain),
        chain.len() > 0,
    ensures
        comment_chain(t, chain.last(), chain.drop_last()),
{
    let shorter = chain.drop_last();
    let p = chain.last();
    assert forall|k: int| 0 <= k < shorter.len() implies 0 <= #[trigger] shorter[k]
        <= usize::MAX by {
        assert(shorter[k] == chain[k]);
    }
    assert forall|k: int|
        0 <= k < shorter.len() - 1 implies #[trigger] shorter[k] < shorter[k + 1] by {
        assert(shorter[k] == chain[k] && shorter[k + 1] == chain[k + 1]);
    }
    assert forall|k: int|
        0 <= k < shorter.len() - 1 implies spec_prev_sibling(t, shorter[k + 1]) == Some(
        #[trigger] shorter[k] as usize,
    ) by {
        assert(shorter[k] == chain[k] && shorter[k + 1] == chain[k + 1]);
    }
    assert forall|k: int|
        0 <= k < shorter.len() implies is_comment_kind(kind_of(t, #[trigger] shorter[k])) by {
        assert(shorter[k] == chain[k]);
    }
    if shorter.len() > 0 {
        assert(shorter.last() == chain[chain.len() - 2]);
        assert(chain[chain.len() - 2] < chain[chain.len() - 1]);
        assert(spec_prev_sibling(t, p) == Some(shorter.last() as usize));
        assert(shorter[0] == chain[0]);
    }
}

/// The comments collected before `node` are exactly the chain's cleaned
/// texts, in source order.
#[verifier::rlimit(100)]
pub proof fn lemma_doc_chain(t: SyntaxTree, node: int, chain: Seq<int>)
    requires
        comment_chain(t, node, chain),
    ensures
        doc_comments(t, node) =~= Seq::new(
            chain.len(),
            |k: int| spec_clean_comment(text_of(t, chain[k])),
        ),
    decreases chain.len(),
{
    if chain.len() == 0 {
    } else {
        let p = chain.last();
        lemma_chain_shorter(t, node, chain);
        lemma_doc_chain(t, p, chain.drop_last());
        assert(is_comment_kind(kind_of(t, p)) && 0 <= p <= usize::MAX) by {
            assert(chain[chain.len() - 1] == p);
        }
        assert((p as usize) as int == p);
        assert(doc_comments(t, node) == doc_comments(t, p).push(
            spec_clean_comment(text_of(t, p)),
        ));
        assert forall|k: int|
            0 <= k < chain.len() implies doc_comments(t, node)[k] == spec_clean_comment(
            text_of(t, chain[k]),
        ) by {
            if k < chain.len() - 1 {
                assert(doc_comments(t, node)[k] == doc_comments(t, p)[k]);
                assert(chain.drop_last()[k] == chain[k]);
            }
        }
    }
}

/// Splitting a newline-free text yields that one segment.
pub proof fn lemma_split_no_nl(s: Seq<char>)
    requires
        !spec_contains_char(s, '\n'),
    ensures
        split_nl(s) =~~= seq![s],
    decreases s.len(),
{
    if s.len() > 0 {
        assert(s[0] != '\n');
        assert forall|j: int| 0 <= j < s.skip(1).len() implies s.skip(1)[j] != '\n' by {
            assert(s.skip(1)[j] == s[j + 1]);
        }
        lemma_split_no_nl(s.skip(1));
        assert(seq![s[0]] + split_nl(s.skip(1))[0] =~= s);
    }
}

/// Splitting `x`, a newline, and the rest peels off `x` as the first
/// segment.
pub proof fn lemma_split_prepend(x: Seq<char>, r: Seq<char>)
    requires
        !spec_contains_char(x, '\n'),
    ensures
        split_nl(x + seq!['\n'] + r) =~~= seq![x] + split_nl(r),
    decreases x.len(),
{
    lemma_split_nl_len(r);
    if x.len() == 0 {
        assert(x + seq!['\n'] + r =~= seq!['\n'] + r);
        let s = seq!['\n'] + r;
        assert(s[0] == '\n');
        assert(s.skip(1) =~= r);
    } else {
        assert(x[0] != '\n');
        assert forall|j: int| 0 <= j < x.skip(1).len() implies x.skip(1)[j] != '\n' by {
            assert(x.skip(1)[j] == x[j + 1]);
        }
        lemma_split_prepend(x.skip(1), r);
        let s = x + seq!['\n'] + r;
        assert(s[0] == x[0]);
        assert(s[0] != '\n');
        assert(s.skip(1) =~= x.skip(1) + seq!['\n'] + r);
        lemma_split_nl_len(s.skip(1));
        assert(split_nl(s.skip(1)) =~~= seq![x.skip(1)] + split_nl(r));
        assert(seq![s[0]] + split_nl(s.skip(1))[0] =~= x);
        assert(split_nl(s) =~~= seq![x] + split_nl(r));
    }
}

/// A line fit for joining: one nonempty line with no newline and no
/// trailing carriage return.
pub open spec fn plain_line(x: Seq<char>) -> bool {
    x.len() > 0 && !spec_contains_char(x, '\n') && x[x.len() - 1] != '\r'
}

/// Joining plain lines with newlines and splitting into lines again
/// gives back exactly those lines.
pub proof fn lemma_lines_join(xs: Seq<Seq<char>>)
    requires
        forall|k: int| 0 <= k < xs.len() ==> plain_line(#[trigger] xs[k]),
    ensures
        spec_lines(spec_join_lines(xs)) =~~= xs,
        xs.len() > 0 ==> spec_join_lines(xs).len() > 0 && spec_join_lines(xs).last() == xs.last().last(),
    decreases xs.len(),
{
    if xs.len() == 0 {
    } else if xs.len() == 1 {
        let x = xs[0];
        assert(spec_join_lines(xs) == x);
        assert(x.len() > 0 && x[x.len() - 1] != '\n');
        lemma_split_no_nl(x);
        assert(spec_lines(x) =~~= seq![x]) by {
            assert(split_nl(x) =~~= seq![x]);
        }
        assert(seq![x] =~~= xs);
        assert(xs.last() == x);
    } else {
        let x = xs[0];
        let rest = xs.skip(1);
        assert forall|k: int| 0 <= k < rest.len() implies plain_line(#[trigger] rest[k]) by {
            assert(rest[k] == xs[k + 1]);
        }
        lemma_lines_join(rest);
        let jr = spec_join_lines(rest);
        let s = x + seq!['\n'] + jr;
        assert(spec_join_lines(xs) == s);
        assert(rest.last() == xs.last());
        assert(jr.last() == xs.last().last());
        assert(s.len() > 0);
        assert(s.last() == jr.last()) by {
            assert(jr.len() > 0);
        }
        assert(s.last() != '\n');
        lemma_split_prepend(x, jr);
        let g = split_nl(s);
        let gr = split_nl(jr);
        assert(g =~~= seq![x] + gr);
        lemma_split_nl_len(jr);
        assert(spec_lines(s) =~~= xs) by {
            assert(jr.last() != '\n');
            assert(spec_lines(jr) =~~= rest);
            // the lines of `jr` are its split with carriage returns
            // stripped everywhere but the last segment
            assert forall|k: int| 0 <= k < g.len() implies (if k < g.len() - 1 {
                strip_cr(g[k])
            } else {
                g[k]
            }) == (seq![x] + rest)[k] by {
                if k == 0 {
                    assert(g[0] == x);
                    assert(strip_cr(x) == x);
                } else {
                    assert(g[k] == gr[k - 1]);
                    assert(spec_lines(jr)[k - 1] == rest[k - 1]);
                    assert((if k - 1 < gr.len() - 1 {
                        strip_cr(gr[k - 1])
                    } else {
                        gr[k - 1]
                    }) == rest[k - 1]);
                    if k == g.len() - 1 {
                    } else {
                    }
                }
            }
            assert(seq![x] + rest =~~= xs);
        }
    }
}

/// Documentation association: a declaration directly preceded by the
/// given chain of single-line comments, with nothing between them, has
/// documentation of exactly those comments' cleaned texts — one line
/// each, in source order.
pub proof fn lemma_doc_association(t: SyntaxTree, node: int, chain: Seq<int>)
    requires
        chain.len() > 0,
        comment_chain(t, node, chain),
        forall|k: int|
            0 <= k < chain.len() ==> plain_line(
                spec_clean_comment(text_of(t, #[trigger] chain[k])),
            ),
    ensures
        spec_preceding_comment(t, node) is Some,
        spec_lines(spec_preceding_comment(t, node)->0) =~~= Seq::new(
            chain.len(),
            |k: int| spec_clean_comment(text_of(t, chain[k])),
        ),
{
    lemma_doc_chain(t, node, chain);
    let cs = Seq::new(chain.len(), |k: int| spec_clean_comment(text_of(t, chain[k])));
    assert(doc_comments(t, node) == cs);
    lemma_lines_join(cs);
}

} // verus!
