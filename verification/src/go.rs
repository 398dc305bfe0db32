//! Extraction for Go source files.
//!
//! The spec functions define, field by field, what the module reads out
//! of a parsed tree; the exec functions are proved to produce exactly
//! that.  Lists are defined as folds over the preorder node lists that
//! [`spec_find_all`] yields.

use vstd::prelude::*;
use vstd::string::StringExecFns;

use crate::parse::{exec_go_parse, go_parse};
use crate::records::{
    ConstSpec, ConstSpecV, ErrorSpec, ErrorSpecV, ExtractError, FileSpec, FileSpecV, FuncSpec,
    FuncSpecV, TypeSpec, TypeSpecV,
    VarSpec, VarSpecV,
};
use crate::strutil::{
    clone_opt_string, from_chars, spec_starts_with, spec_trim_matches, str_eq_local,
    str_starts_with, to_chars, trim_matches_char,
};
use crate::tree::{
    children_of, kind_of, spec_child_by_kind, spec_field, spec_field_text, spec_find_all,
    spec_preceding_comment, text_of, NodeHelper, SyntaxTree,
};

verus! {

/// The logical package name: the text of the name of the first
/// `package_clause`, or empty when the file has none.
pub open spec fn go_package(t: SyntaxTree) -> Seq<char> {
    let pcs = spec_find_all(t, 0, "package_clause"@);
    if pcs.len() == 0 {
        Seq::empty()
    } else {
        match spec_field(t, pcs[0] as int, "name"@) {
            Some(n) => text_of(t, n as int),
            None => match spec_child_by_kind(t, pcs[0] as int, "package_identifier"@) {
                Some(n) => text_of(t, n as int),
                None => Seq::empty(),
            },
        }
    }
}

/// The import path of one `import_spec`, quotes stripped, if it has one.
pub open spec fn go_spec_path(t: SyntaxTree, sp: int) -> Seq<Seq<char>> {
    match spec_field(t, sp, "path"@) {
        Some(p) => seq![spec_trim_matches(text_of(t, p as int), '"')],
        None => Seq::empty(),
    }
}

/// The paths of a grouped import list, one entry per spec, in order.
pub open spec fn go_group_paths(t: SyntaxTree, specs: Seq<usize>) -> Seq<Seq<char>>
    decreases specs.len(),
{
    if specs.len() == 0 {
        Seq::empty()
    } else {
        go_group_paths(t, specs.drop_last()) + go_spec_path(t, specs.last() as int)
    }
}

/// What one `import_declaration` contributes: the single import's path,
/// then the grouped paths — one entry per concrete imported path.
pub open spec fn go_import_entries(t: SyntaxTree, d: int) -> Seq<Seq<char>> {
    let single = match spec_child_by_kind(t, d, "import_spec"@) {
        Some(sp) => go_spec_path(t, sp as int),
        None => Seq::empty(),
    };
    let grouped = match spec_child_by_kind(t, d, "import_spec_list"@) {
        Some(lst) => go_group_paths(
            t,
            crate::tree::spec_children_by_kind(t, lst as int, "import_spec"@),
        ),
        None => Seq::empty(),
    };
    single + grouped
}

pub open spec fn go_imports_of(t: SyntaxTree, ds: Seq<usize>) -> Seq<Seq<char>>
    decreases ds.len(),
{
    if ds.len() == 0 {
        Seq::empty()
    } else {
        go_imports_of(t, ds.drop_last()) + go_import_entries(t, ds.last() as int)
    }
}

/// Every imported path in the file, in source order.
pub open spec fn go_imports(t: SyntaxTree) -> Seq<Seq<char>> {
    go_imports_of(t, spec_find_all(t, 0, "import_declaration"@))
}

/// One `field_declaration`'s contribution to a struct's named fields:
/// `name: type` when both are present.
pub open spec fn go_field_entry(t: SyntaxTree, c: int) -> Seq<Seq<char>> {
    if kind_of(t, c) == "field_declaration"@ {
        match (spec_field(t, c, "name"@), spec_field(t, c, "type"@)) {
            (Some(n), Some(ty)) => seq![text_of(t, n as int) + ": "@ + text_of(t, ty as int)],
            _ => Seq::empty(),
        }
    } else {
        Seq::empty()
    }
}

/// One `field_declaration`'s contribution to a struct's embedded
/// members: the bare type when the field has no name.
pub open spec fn go_embed_entry(t: SyntaxTree, c: int) -> Seq<Seq<char>> {
    if kind_of(t, c) == "field_declaration"@ {
        match (spec_field(t, c, "name"@), spec_field(t, c, "type"@)) {
            (None, Some(ty)) => seq![text_of(t, ty as int)],
            _ => Seq::empty(),
        }
    } else {
        Seq::empty()
    }
}

pub open spec fn go_fields_of(t: SyntaxTree, cs: Seq<usize>) -> Seq<Seq<char>>
    decreases cs.len(),
{
    if cs.len() == 0 {
        Seq::empty()
    } else {
        go_fields_of(t, cs.drop_last()) + go_field_entry(t, cs.last() as int)
    }
}

pub open spec fn go_embeds_of(t: SyntaxTree, cs: Seq<usize>) -> Seq<Seq<char>>
    decreases cs.len(),
{
    if cs.len() == 0 {
        Seq::empty()
    } else {
        go_embeds_of(t, cs.drop_last()) + go_embed_entry(t, cs.last() as int)
    }
}

/// The record for `type <name> struct { … }`: named fields as
/// `name: type` entries, unnamed fields as embedded members.
pub open spec fn go_struct_record(
    t: SyntaxTree,
    name: Seq<char>,
    node: int,
    doc: Option<Seq<char>>,
) -> TypeSpecV {
    let cs = match spec_child_by_kind(t, node, "field_declaration_list"@) {
        Some(fl) => children_of(t, fl as int),
        None => Seq::empty(),
    };
    TypeSpecV {
        name: name + " struct"@,
        doc,
        kind: "struct"@,
        fields: go_fields_of(t, cs),
        methods: Seq::empty(),
        embeds: go_embeds_of(t, cs),
        implements: None,
        implemented_by: Seq::empty(),
        type_params: Seq::empty(),
        variants: Seq::empty(),
    }
}

/// One interface member's formatted signature, `name(params) result`.
pub open spec fn go_method_elem_entry(t: SyntaxTree, c: int) -> Seq<Seq<char>> {
    if kind_of(t, c) == "method_spec"@ || kind_of(t, c) == "method_elem"@ {
        let name = match spec_field_text(t, c, "name"@) {
            Some(n) => n,
            None => Seq::empty(),
        };
        let params = match spec_field(t, c, "parameters"@) {
            Some(p) => text_of(t, p as int),
            None => match spec_child_by_kind(t, c, "parameter_list"@) {
                Some(p) => text_of(t, p as int),
                None => "()"@,
            },
        };
        let result = match spec_field(t, c, "result"@) {
            Some(r) => " "@ + text_of(t, r as int),
            None => match spec_child_by_kind(t, c, "result"@) {
                Some(r) => " "@ + text_of(t, r as int),
                None => Seq::empty(),
            },
        };
        seq![name + params + result]
    } else {
        Seq::empty()
    }
}

/// One interface member's contribution to the embedded constraints:
/// member-signature kinds take priority and contribute nothing here.
pub open spec fn go_iface_embed_entry(t: SyntaxTree, c: int) -> Seq<Seq<char>> {
    if kind_of(t, c) == "method_spec"@ || kind_of(t, c) == "method_elem"@ {
        Seq::empty()
    } else if kind_of(t, c) == "type_identifier"@ || kind_of(t, c) == "qualified_type"@
        || kind_of(t, c) == "constraint_elem"@ {
        seq![text_of(t, c)]
    } else {
        Seq::empty()
    }
}

pub open spec fn go_iface_methods_of(t: SyntaxTree, cs: Seq<usize>) -> Seq<Seq<char>>
    decreases cs.len(),
{
    if cs.len() == 0 {
        Seq::empty()
    } else {
        go_iface_methods_of(t, cs.drop_last()) + go_method_elem_entry(t, cs.last() as int)
    }
}

pub open spec fn go_iface_embeds_of(t: SyntaxTree, cs: Seq<usize>) -> Seq<Seq<char>>
    decreases cs.len(),
{
    if cs.len() == 0 {
        Seq::empty()
    } else {
        go_iface_embeds_of(t, cs.drop_last()) + go_iface_embed_entry(t, cs.last() as int)
    }
}

/// The record for `type <name> interface { … }`: member signatures, and
/// bare type entries as embedded constraints.
pub open spec fn go_interface_record(
    t: SyntaxTree,
    name: Seq<char>,
    node: int,
    doc: Option<Seq<char>>,
) -> TypeSpecV {
    let cs = children_of(t, node);
    TypeSpecV {
        name: name + " interface"@,
        doc,
        kind: "interface"@,
        fields: Seq::empty(),
        methods: go_iface_methods_of(t, cs),
        embeds: go_iface_embeds_of(t, cs),
        implements: None,
        implemented_by: Seq::empty(),
        type_params: Seq::empty(),
        variants: Seq::empty(),
    }
}

/// The record of one `type_spec` under declaration `d`: a struct, an
/// interface, or a bare alias; nothing when the spec has no name or no
/// type.  Documentation comes from the declaration node.
pub open spec fn go_type_record(t: SyntaxTree, sp: int, d: int) -> Seq<TypeSpecV> {
    match (spec_field(t, sp, "name"@), spec_field(t, sp, "type"@)) {
        (Some(nm), Some(ty)) => {
            let name = text_of(t, nm as int);
            let doc = spec_preceding_comment(t, d);
            let k = kind_of(t, ty as int);
            if k == "struct_type"@ {
                seq![go_struct_record(t, name, ty as int, doc)]
            } else if k == "interface_type"@ {
                seq![go_interface_record(t, name, ty as int, doc)]
            } else {
                seq![
                    TypeSpecV {
                        name: name + " type"@,
                        doc,
                        kind: "type_alias"@,
                        fields: Seq::empty(),
                        methods: Seq::empty(),
                        embeds: Seq::empty(),
                        implements: None,
                        implemented_by: Seq::empty(),
                        type_params: Seq::empty(),
                        variants: Seq::empty(),
                    },
                ]
            }
        },
        _ => Seq::empty(),
    }
}

pub open spec fn go_type_specs_of(t: SyntaxTree, sps: Seq<usize>, d: int) -> Seq<TypeSpecV>
    decreases sps.len(),
{
    if sps.len() == 0 {
        Seq::empty()
    } else {
        go_type_specs_of(t, sps.drop_last(), d) + go_type_record(t, sps.last() as int, d)
    }
}

pub open spec fn go_decl_types(t: SyntaxTree, d: int) -> Seq<TypeSpecV> {
    go_type_specs_of(t, crate::tree::spec_children_by_kind(t, d, "type_spec"@), d)
}

pub open spec fn go_types_of(t: SyntaxTree, ds: Seq<usize>) -> Seq<TypeSpecV>
    decreases ds.len(),
{
    if ds.len() == 0 {
        Seq::empty()
    } else {
        go_types_of(t, ds.drop_last()) + go_decl_types(t, ds.last() as int)
    }
}

/// Every type definition in the file, in source order.
pub open spec fn go_types(t: SyntaxTree) -> Seq<TypeSpecV> {
    go_types_of(t, spec_find_all(t, 0, "type_declaration"@))
}

/// The record of one `function_declaration`: `func name[tp](params) res`,
/// with the preceding comment as documentation; nothing without a name.
pub open spec fn go_func_record(t: SyntaxTree, f: int) -> Seq<FuncSpecV> {
    match spec_field(t, f, "name"@) {
        None => Seq::empty(),
        Some(nm) => {
            let name = text_of(t, nm as int);
            let params = match spec_field_text(t, f, "parameters"@) {
                Some(p) => p,
                None => "()"@,
            };
            let result = match spec_field_text(t, f, "result"@) {
                Some(r) => " "@ + r,
                None => Seq::empty(),
            };
            let tp = match spec_field_text(t, f, "type_parameters"@) {
                Some(p) => p,
                None => Seq::empty(),
            };
            seq![
                FuncSpecV {
                    signature: "func "@ + name + tp + params + result,
                    doc: spec_preceding_comment(t, f),
                    receiver: None,
                    uses: Seq::empty(),
                    behavior: None,
                    tests: None,
                },
            ]
        },
    }
}

pub open spec fn go_funcs_of(t: SyntaxTree, fs: Seq<usize>) -> Seq<FuncSpecV>
    decreases fs.len(),
{
    if fs.len() == 0 {
        Seq::empty()
    } else {
        go_funcs_of(t, fs.drop_last()) + go_func_record(t, fs.last() as int)
    }
}

/// Every free function in the file, in source order.
pub open spec fn go_functions(t: SyntaxTree) -> Seq<FuncSpecV> {
    go_funcs_of(t, spec_find_all(t, 0, "function_declaration"@))
}

/// The record of one `method_declaration`: the receiver clause is kept
/// both in the signature and in the `receiver` field.
pub open spec fn go_method_record(t: SyntaxTree, f: int) -> Seq<FuncSpecV> {
    match spec_field(t, f, "name"@) {
        None => Seq::empty(),
        Some(nm) => {
            let receiver = spec_field_text(t, f, "receiver"@);
            let name = text_of(t, nm as int);
            let params = match spec_field_text(t, f, "parameters"@) {
                Some(p) => p,
                None => "()"@,
            };
            let result = match spec_field_text(t, f, "result"@) {
                Some(r) => " "@ + r,
                None => Seq::empty(),
            };
            let recv_str = match receiver {
                Some(r) => r,
                None => "()"@,
            };
            seq![
                FuncSpecV {
                    signature: "func "@ + recv_str + " "@ + name + params + result,
                    doc: spec_preceding_comment(t, f),
                    receiver,
                    uses: Seq::empty(),
                    behavior: None,
                    tests: None,
                },
            ]
        },
    }
}

pub open spec fn go_methods_of(t: SyntaxTree, fs: Seq<usize>) -> Seq<FuncSpecV>
    decreases fs.len(),
{
    if fs.len() == 0 {
        Seq::empty()
    } else {
        go_methods_of(t, fs.drop_last()) + go_method_record(t, fs.last() as int)
    }
}

/// Every method in the file, in source order.
pub open spec fn go_methods(t: SyntaxTree) -> Seq<FuncSpecV> {
    go_methods_of(t, spec_find_all(t, 0, "method_declaration"@))
}

/// One `const_spec`'s record: name required, type and value optional;
/// the declaration's preceding comment is shared by its specs.
pub open spec fn go_const_entry(t: SyntaxTree, sp: int, doc: Option<Seq<char>>)
    -> Seq<ConstSpecV> {
    match spec_field(t, sp, "name"@) {
        None => Seq::empty(),
        Some(nm) => seq![
            ConstSpecV {
                name: text_of(t, nm as int),
                ty_name: spec_field_text(t, sp, "type"@),
                value: spec_field_text(t, sp, "value"@),
                doc,
            },
        ],
    }
}

pub open spec fn go_consts_of(t: SyntaxTree, sps: Seq<usize>, doc: Option<Seq<char>>)
    -> Seq<ConstSpecV>
    decreases sps.len(),
{
    if sps.len() == 0 {
        Seq::empty()
    } else {
        go_consts_of(t, sps.drop_last(), doc) + go_const_entry(t, sps.last() as int, doc)
    }
}

pub open spec fn go_decl_consts(t: SyntaxTree, d: int) -> Seq<ConstSpecV> {
    go_consts_of(
        t,
        crate::tree::spec_children_by_kind(t, d, "const_spec"@),
        spec_preceding_comment(t, d),
    )
}

pub open spec fn go_const_decls_of(t: SyntaxTree, ds: Seq<usize>) -> Seq<ConstSpecV>
    decreases ds.len(),
{
    if ds.len() == 0 {
        Seq::empty()
    } else {
        go_const_decls_of(t, ds.drop_last()) + go_decl_consts(t, ds.last() as int)
    }
}

/// Every constant in the file, in source order.
pub open spec fn go_constants(t: SyntaxTree) -> Seq<ConstSpecV> {
    go_const_decls_of(t, spec_find_all(t, 0, "const_declaration"@))
}

/// One `var_spec`'s record: name required, type optional.
pub open spec fn go_var_entry(t: SyntaxTree, sp: int, doc: Option<Seq<char>>) -> Seq<VarSpecV> {
    match spec_field(t, sp, "name"@) {
        None => Seq::empty(),
        Some(nm) => seq![
            VarSpecV {
                name: text_of(t, nm as int),
                ty_name: spec_field_text(t, sp, "type"@),
                doc,
            },
        ],
    }
}

pub open spec fn go_vars_of(t: SyntaxTree, sps: Seq<usize>, doc: Option<Seq<char>>)
    -> Seq<VarSpecV>
    decreases sps.len(),
{
    if sps.len() == 0 {
        Seq::empty()
    } else {
        go_vars_of(t, sps.drop_last(), doc) + go_var_entry(t, sps.last() as int, doc)
    }
}

pub open spec fn go_decl_vars(t: SyntaxTree, d: int) -> Seq<VarSpecV> {
    go_vars_of(
        t,
        crate::tree::spec_children_by_kind(t, d, "var_spec"@),
        spec_preceding_comment(t, d),
    )
}

pub open spec fn go_var_decls_of(t: SyntaxTree, ds: Seq<usize>) -> Seq<VarSpecV>
    decreases ds.len(),
{
    if ds.len() == 0 {
        Seq::empty()
    } else {
        go_var_decls_of(t, ds.drop_last()) + go_decl_vars(t, ds.last() as int)
    }
}

/// Every module-level variable in the file, in source order.
pub open spec fn go_variables(t: SyntaxTree) -> Seq<VarSpecV> {
    go_var_decls_of(t, spec_find_all(t, 0, "var_declaration"@))
}

/// One `var_spec`'s contribution to the named errors: kept exactly when
/// the name carries the exported error prefix `Err`; the value text,
/// when present, is the message.
pub open spec fn go_error_entry(t: SyntaxTree, sp: int, d: int) -> Seq<ErrorSpecV> {
    match spec_field(t, sp, "name"@) {
        None => Seq::empty(),
        Some(nm) => {
            let name = text_of(t, nm as int);
            if spec_starts_with(name, "Err"@) {
                seq![
                    ErrorSpecV {
                        name,
                        message: spec_field_text(t, sp, "value"@),
                        doc: spec_preceding_comment(t, d),
                    },
                ]
            } else {
                Seq::empty()
            }
        },
    }
}

pub open spec fn go_errors_specs_of(t: SyntaxTree, sps: Seq<usize>, d: int) -> Seq<ErrorSpecV>
    decreases sps.len(),
{
    if sps.len() == 0 {
        Seq::empty()
    } else {
        go_errors_specs_of(t, sps.drop_last(), d) + go_error_entry(t, sps.last() as int, d)
    }
}

pub open spec fn go_decl_errors(t: SyntaxTree, d: int) -> Seq<ErrorSpecV> {
    go_errors_specs_of(t, crate::tree::spec_children_by_kind(t, d, "var_spec"@), d)
}

pub open spec fn go_error_decls_of(t: SyntaxTree, ds: Seq<usize>) -> Seq<ErrorSpecV>
    decreases ds.len(),
{
    if ds.len() == 0 {
        Seq::empty()
    } else {
        go_error_decls_of(t, ds.drop_last()) + go_decl_errors(t, ds.last() as int)
    }
}

/// Every named-error definition in the file, in source order.
pub open spec fn go_errors(t: SyntaxTree) -> Seq<ErrorSpecV> {
    go_error_decls_of(t, spec_find_all(t, 0, "var_declaration"@))
}

/// Everything the Go module extracts from one parsed file.
pub open spec fn go_file_record(t: SyntaxTree, path: Seq<char>) -> FileSpecV {
    FileSpecV {
        file: path,
        package: go_package(t),
        imports: go_imports(t),
        types: go_types(t),
        functions: go_functions(t),
        methods: go_methods(t),
        constants: go_constants(t),
        variables: go_variables(t),
        errors: go_errors(t),
    }
}

/// Extraction for Go source files.
#[derive(Clone, Copy, PartialEq, Eq, Structural, Debug)]
pub struct GoPlugin;

impl GoPlugin {
    pub fn new() -> (r: GoPlugin) {
        GoPlugin
    }

    fn extract_package(&self, t: &SyntaxTree) -> (r: String)
        requires
            t.wf(),
        ensures
            r@ == go_package(*t),
    {
        let pcs = NodeHelper::find_all(t, 0, "package_clause");
        if pcs.len() == 0 {
            return String::new();
        }
        let node = pcs[0];
        match NodeHelper::field(t, node, "name") {
            Some(n) => NodeHelper::text(t, n),
            None => match NodeHelper::child_by_kind(t, node, "package_identifier") {
                Some(n) => NodeHelper::text(t, n),
                None => String::new(),
            },
        }
    }

    /// The import path of one `import_spec`, pushed onto `out`.
    fn push_spec_path(&self, t: &SyntaxTree, sp: usize, out: &mut Vec<String>)
        requires
            t.wf(),
            t.valid(sp as int),
        ensures
            final(out).deep_view() == old(out).deep_view() + go_spec_path(*t, sp as int),
    {
        match NodeHelper::field(t, sp, "path") {
            Some(p) => {
                let txt = NodeHelper::text(t, p);
                let chars = to_chars(txt.as_str());
                let trimmed = trim_matches_char(&chars, '"');
                out.push(from_chars(&trimmed));
                proof {
                    assert(out.deep_view() =~~= old(out).deep_view() + go_spec_path(
                        *t,
                        sp as int,
                    ));
                }
            },
            None => {
                proof {
                    assert(out.deep_view() =~~= old(out).deep_view() + go_spec_path(
                        *t,
                        sp as int,
                    ));
                }
            },
        }
    }

    fn extract_imports(&self, t: &SyntaxTree) -> (r: Vec<String>)
        requires
            t.wf(),
        ensures
            r.deep_view() == go_imports(*t),
    {
        let ds = NodeHelper::find_all(t, 0, "import_declaration");
        let mut r: Vec<String> = Vec::new();
        let mut k: usize = 0;
        while k < ds.len()
            invariant
                t.wf(),
                ds@ == spec_find_all(*t, 0, "import_declaration"@),
                forall|j: int| 0 <= j < ds@.len() ==> t.valid(#[trigger] ds@[j] as int),
                k <= ds@.len(),
                r.deep_view() == go_imports_of(*t, ds@.take(k as int)),
            decreases ds@.len() - k,
        {
            let d = ds[k];
            let ghost pre = r.deep_view();
            match NodeHelper::child_by_kind(t, d, "import_spec") {
                Some(sp) => {
                    self.push_spec_path(t, sp, &mut r);
                },
                None => {},
            }
            let ghost mid = r.deep_view();
            match NodeHelper::child_by_kind(t, d, "import_spec_list") {
                Some(lst) => {
                    let specs = NodeHelper::children_by_kind(t, lst, "import_spec");
                    let ghost base = r.deep_view();
                    let mut j: usize = 0;
                    while j < specs.len()
                        invariant
                            t.wf(),
                            forall|x: int|
                                0 <= x < specs@.len() ==> t.valid(#[trigger] specs@[x] as int),
                            j <= specs@.len(),
                            r.deep_view() == base + go_group_paths(*t, specs@.take(j as int)),
                        decreases specs@.len() - j,
                    {
                        self.push_spec_path(t, specs[j], &mut r);
                        proof {
                            assert(specs@.take(j + 1 as int).drop_last() =~= specs@.take(
                                j as int,
                            ));
                            assert(specs@.take(j + 1 as int).last() == specs@[j as int]);
                            assert(r.deep_view() =~~= base + go_group_paths(
                                *t,
                                specs@.take(j + 1 as int),
                            ));
                        }
                        j = j + 1;
                    }
                    proof {
                        assert(specs@.take(specs@.len() as int) =~= specs@);
                        assert(r.deep_view() =~~= mid + go_group_paths(*t, specs@));
                    }
                },
                None => {},
            }
            proof {
                assert(ds@.take(k + 1 as int).drop_last() =~= ds@.take(k as int));
                assert(ds@.take(k + 1 as int).last() == ds@[k as int]);
                assert(r.deep_view() =~~= pre + go_import_entries(*t, ds@[k as int] as int));
                assert(r.deep_view() =~~= go_imports_of(*t, ds@.take(k + 1 as int)));
            }
            k = k + 1;
        }
        proof {
            assert(ds@.take(ds@.len() as int) =~= ds@);
        }
        r
    }

    /// The documentation of the declaration at `d`.
    fn doc_of(&self, t: &SyntaxTree, d: usize) -> (r: Option<String>)
        requires
            t.wf(),
            t.valid(d as int),
        ensures
            r.deep_view() == spec_preceding_comment(*t, d as int),
    {
        NodeHelper::preceding_comment(t, d)
    }

    fn extract_struct(&self, t: &SyntaxTree, name: String, node: usize, doc: Option<String>)
        -> (r: TypeSpec)
        requires
            t.wf(),
            t.valid(node as int),
        ensures
            r.deep_view() == go_struct_record(*t, name@, node as int, doc.deep_view()),
    {
        let mut fields: Vec<String> = Vec::new();
        let mut embeds: Vec<String> = Vec::new();
        let ghost cs_spec = match spec_child_by_kind(*t, node as int, "field_declaration_list"@) {
            Some(fl) => children_of(*t, fl as int),
            None => Seq::empty(),
        };
        match NodeHelper::child_by_kind(t, node, "field_declaration_list") {
            Some(fl) => {
                proof {
                    assert(t.wf_node(fl as int));
                }
                let nch = t.nodes[fl].children.len();
                let mut k: usize = 0;
                while k < nch
                    invariant
                        t.wf(),
                        t.valid(fl as int),
                        cs_spec == children_of(*t, fl as int),
                        nch == cs_spec.len(),
                        t.wf_node(fl as int),
                        k <= nch,
                        fields.deep_view() == go_fields_of(*t, cs_spec.take(k as int)),
                        embeds.deep_view() == go_embeds_of(*t, cs_spec.take(k as int)),
                    decreases nch - k,
                {
                    let c = t.nodes[fl].children[k];
                    let ghost pre_f = fields.deep_view();
                    let ghost pre_e = embeds.deep_view();
                    if str_eq_local(&t.nodes[c].kind, "field_declaration") {
                        let name_node = NodeHelper::field(t, c, "name");
                        let type_node = NodeHelper::field(t, c, "type");
                        match (name_node, type_node) {
                            (None, Some(ty)) => {
                                embeds.push(NodeHelper::text(t, ty));
                            },
                            (Some(n), Some(ty)) => {
                                let mut e = NodeHelper::text(t, n);
                                e.append(": ");
                                let tytxt = NodeHelper::text(t, ty);
                                e.append(tytxt.as_str());
                                fields.push(e);
                            },
                            _ => {},
                        }
                    }
                    proof {
                        assert(cs_spec.take(k + 1 as int).drop_last() =~= cs_spec.take(
                            k as int,
                        ));
                        assert(cs_spec.take(k + 1 as int).last() == cs_spec[k as int]);
                        assert(fields.deep_view() =~~= go_fields_of(
                            *t,
                            cs_spec.take(k + 1 as int),
                        ));
                        assert(embeds.deep_view() =~~= go_embeds_of(
                            *t,
                            cs_spec.take(k + 1 as int),
                        ));
                    }
                    k = k + 1;
                }
                proof {
                    assert(cs_spec.take(cs_spec.len() as int) =~= cs_spec);
                }
            },
            None => {
                proof {
                    assert(fields.deep_view() =~~= go_fields_of(*t, cs_spec));
                    assert(embeds.deep_view() =~~= go_embeds_of(*t, cs_spec));
                }
            },
        }
        let ghost name0 = name@;
        let ghost doc0 = doc.deep_view();
        let mut disp = name;
        disp.append(" struct");
        let r = TypeSpec {
            name: disp,
            doc,
            kind: "struct".to_owned(),
            fields,
            methods: Vec::new(),
            embeds,
            implements: None,
            implemented_by: Vec::new(),
            type_params: Vec::new(),
            variants: Vec::new(),
        };
        proof {
            assert(r.deep_view() =~~= go_struct_record(*t, name0, node as int, doc0));
        }
        r
    }
}

impl GoPlugin {
    fn extract_interface(&self, t: &SyntaxTree, name: String, node: usize, doc: Option<String>)
        -> (r: TypeSpec)
        requires
            t.wf(),
            t.valid(node as int),
        ensures
            r.deep_view() == go_interface_record(*t, name@, node as int, doc.deep_view()),
    {
        let ghost name0 = name@;
        let ghost doc0 = doc.deep_view();
        let mut methods: Vec<String> = Vec::new();
        let mut embeds: Vec<String> = Vec::new();
        let ghost cs = children_of(*t, node as int);
        proof {
            assert(t.wf_node(node as int));
        }
        let nch = t.nodes[node].children.len();
        let mut k: usize = 0;
        while k < nch
            invariant
                t.wf(),
                t.valid(node as int),
                cs == children_of(*t, node as int),
                nch == cs.len(),
                t.wf_node(node as int),
                k <= nch,
                methods.deep_view() == go_iface_methods_of(*t, cs.take(k as int)),
                embeds.deep_view() == go_iface_embeds_of(*t, cs.take(k as int)),
            decreases nch - k,
        {
            let c = t.nodes[node].children[k];
            let ghost pre_m = methods.deep_view();
            let ghost pre_e = embeds.deep_view();
            let is_method = str_eq_local(&t.nodes[c].kind, "method_spec") || str_eq_local(
                &t.nodes[c].kind,
                "method_elem",
            );
            let is_embed = str_eq_local(&t.nodes[c].kind, "type_identifier") || str_eq_local(
                &t.nodes[c].kind,
                "qualified_type",
            ) || str_eq_local(&t.nodes[c].kind, "constraint_elem");
            if is_method {
                let mname = match NodeHelper::field_text(t, c, "name") {
                    Some(n) => n,
                    None => String::new(),
                };
                let params = match NodeHelper::field(t, c, "parameters") {
                    Some(p) => NodeHelper::text(t, p),
                    None => match NodeHelper::child_by_kind(t, c, "parameter_list") {
                        Some(p) => NodeHelper::text(t, p),
                        None => "()".to_owned(),
                    },
                };
                let result = match NodeHelper::field(t, c, "result") {
                    Some(rr) => {
                        let mut s = " ".to_owned();
                        let txt = NodeHelper::text(t, rr);
                        s.append(txt.as_str());
                        s
                    },
                    None => match NodeHelper::child_by_kind(t, c, "result") {
                        Some(rr) => {
                            let mut s = " ".to_owned();
                            let txt = NodeHelper::text(t, rr);
                            s.append(txt.as_str());
                            s
                        },
                        None => String::new(),
                    },
                };
                let mut e = mname;
                e.append(params.as_str());
                e.append(result.as_str());
                methods.push(e);
                proof {
                    assert(methods.deep_view() =~~= pre_m + go_method_elem_entry(
                        *t,
                        c as int,
                    ));
                    assert(embeds.deep_view() =~~= pre_e + go_iface_embed_entry(*t, c as int));
                }
            } else if is_embed {
                embeds.push(NodeHelper::text(t, c));
                proof {
                    assert(methods.deep_view() =~~= pre_m + go_method_elem_entry(
                        *t,
                        c as int,
                    ));
                    assert(embeds.deep_view() =~~= pre_e + go_iface_embed_entry(*t, c as int));
                }
            } else {
                proof {
                    assert(methods.deep_view() =~~= pre_m + go_method_elem_entry(
                        *t,
                        c as int,
                    ));
                    assert(embeds.deep_view() =~~= pre_e + go_iface_embed_entry(*t, c as int));
                }
            }
            proof {
                assert(cs.take(k + 1 as int).drop_last() =~= cs.take(k as int));
                assert(cs.take(k + 1 as int).last() == cs[k as int]);
                assert(methods.deep_view() =~~= go_iface_methods_of(*t, cs.take(k + 1 as int)));
                assert(embeds.deep_view() =~~= go_iface_embeds_of(*t, cs.take(k + 1 as int)));
            }
            k = k + 1;
        }
        proof {
            assert(cs.take(cs.len() as int) =~= cs);
        }
        let mut disp = name;
        disp.append(" interface");
        let r = TypeSpec {
            name: disp,
            doc,
            kind: "interface".to_owned(),
            fields: Vec::new(),
            methods,
            embeds,
            implements: None,
            implemented_by: Vec::new(),
            type_params: Vec::new(),
            variants: Vec::new(),
        };
        proof {
            assert(r.deep_view() =~~= go_interface_record(*t, name0, node as int, doc0));
        }
        r
    }

    fn extract_type_spec(&self, t: &SyntaxTree, sp: usize, d: usize) -> (r: Option<TypeSpec>)
        requires
            t.wf(),
            t.valid(sp as int),
            t.valid(d as int),
        ensures
            match r {
                Some(x) => go_type_record(*t, sp as int, d as int) =~~= seq![x.deep_view()],
                None => go_type_record(*t, sp as int, d as int) =~~= Seq::<TypeSpecV>::empty(),
            },
    {
        let name = match NodeHelper::field(t, sp, "name") {
            Some(nm) => NodeHelper::text(t, nm),
            None => {
                return None;
            },
        };
        let ty = match NodeHelper::field(t, sp, "type") {
            Some(x) => x,
            None => {
                return None;
            },
        };
        let doc = self.doc_of(t, d);
        if str_eq_local(&t.nodes[ty].kind, "struct_type") {
            Some(self.extract_struct(t, name, ty, doc))
        } else if str_eq_local(&t.nodes[ty].kind, "interface_type") {
            Some(self.extract_interface(t, name, ty, doc))
        } else {
            let ghost name0 = name@;
            let ghost doc0 = doc.deep_view();
            let mut disp = name;
            disp.append(" type");
            let x = TypeSpec {
                name: disp,
                doc,
                kind: "type_alias".to_owned(),
                fields: Vec::new(),
                methods: Vec::new(),
                embeds: Vec::new(),
                implements: None,
                implemented_by: Vec::new(),
                type_params: Vec::new(),
                variants: Vec::new(),
            };
            proof {
                assert(go_type_record(*t, sp as int, d as int) =~~= seq![x.deep_view()]);
            }
            Some(x)
        }
    }

    fn extract_types(&self, t: &SyntaxTree) -> (r: Vec<TypeSpec>)
        requires
            t.wf(),
        ensures
            r.deep_view() == go_types(*t),
    {
        let ds = NodeHelper::find_all(t, 0, "type_declaration");
        let mut r: Vec<TypeSpec> = Vec::new();
        let mut k: usize = 0;
        while k < ds.len()
            invariant
                t.wf(),
                ds@ == spec_find_all(*t, 0, "type_declaration"@),
                forall|j: int| 0 <= j < ds@.len() ==> t.valid(#[trigger] ds@[j] as int),
                k <= ds@.len(),
                r.deep_view() == go_types_of(*t, ds@.take(k as int)),
            decreases ds@.len() - k,
        {
            let d = ds[k];
            let ghost pre = r.deep_view();
            let sps = NodeHelper::children_by_kind(t, d, "type_spec");
            let mut j: usize = 0;
            while j < sps.len()
                invariant
                    t.wf(),
                    t.valid(d as int),
                    sps@ == crate::tree::spec_children_by_kind(*t, d as int, "type_spec"@),
                    forall|x: int| 0 <= x < sps@.len() ==> t.valid(#[trigger] sps@[x] as int),
                    j <= sps@.len(),
                    r.deep_view() == pre + go_type_specs_of(*t, sps@.take(j as int), d as int),
                decreases sps@.len() - j,
            {
                let ghost mid = r.deep_view();
                match self.extract_type_spec(t, sps[j], d) {
                    Some(x) => {
                        r.push(x);
                    },
                    None => {},
                }
                proof {
                    assert(sps@.take(j + 1 as int).drop_last() =~= sps@.take(j as int));
                    assert(sps@.take(j + 1 as int).last() == sps@[j as int]);
                    crate::strutil::seq_assoc(
                        pre,
                        go_type_specs_of(*t, sps@.take(j as int), d as int),
                        go_type_record(*t, sps@[j as int] as int, d as int),
                    );
                    assert(r.deep_view() =~~= (pre + go_type_specs_of(
                        *t,
                        sps@.take(j as int),
                        d as int,
                    )) + go_type_record(*t, sps@[j as int] as int, d as int));
                    assert(r.deep_view() =~~= pre + go_type_specs_of(
                        *t,
                        sps@.take(j + 1 as int),
                        d as int,
                    ));
                }
                j = j + 1;
            }
            proof {
                assert(sps@.take(sps@.len() as int) =~= sps@);
                assert(ds@.take(k + 1 as int).drop_last() =~= ds@.take(k as int));
                assert(ds@.take(k + 1 as int).last() == ds@[k as int]);
                assert(r.deep_view() =~~= go_types_of(*t, ds@.take(k + 1 as int)));
            }
            k = k + 1;
        }
        proof {
            assert(ds@.take(ds@.len() as int) =~= ds@);
        }
        r
    }

    fn extract_func_spec(&self, t: &SyntaxTree, f: usize) -> (r: Option<FuncSpec>)
        requires
            t.wf(),
            t.valid(f as int),
        ensures
            match r {
                Some(x) => go_func_record(*t, f as int) =~~= seq![x.deep_view()],
                None => go_func_record(*t, f as int) =~~= Seq::<FuncSpecV>::empty(),
            },
    {
        let name = match NodeHelper::field(t, f, "name") {
            Some(nm) => NodeHelper::text(t, nm),
            None => {
                return None;
            },
        };
        let params = match NodeHelper::field_text(t, f, "parameters") {
            Some(p) => p,
            None => "()".to_owned(),
        };
        let result = match NodeHelper::field_text(t, f, "result") {
            Some(rr) => {
                let mut s = " ".to_owned();
                s.append(rr.as_str());
                s
            },
            None => String::new(),
        };
        let tp = match NodeHelper::field_text(t, f, "type_parameters") {
            Some(p) => p,
            None => String::new(),
        };
        let mut signature = "func ".to_owned();
        signature.append(name.as_str());
        signature.append(tp.as_str());
        signature.append(params.as_str());
        signature.append(result.as_str());
        let doc = self.doc_of(t, f);
        let x = FuncSpec {
            signature,
            doc,
            receiver: None,
            uses: Vec::new(),
            behavior: None,
            tests: None,
        };
        proof {
            assert(go_func_record(*t, f as int) =~~= seq![x.deep_view()]);
        }
        Some(x)
    }

    fn extract_method_spec(&self, t: &SyntaxTree, f: usize) -> (r: Option<FuncSpec>)
        requires
            t.wf(),
            t.valid(f as int),
        ensures
            match r {
                Some(x) => go_method_record(*t, f as int) =~~= seq![x.deep_view()],
                None => go_method_record(*t, f as int) =~~= Seq::<FuncSpecV>::empty(),
            },
    {
        let receiver = NodeHelper::field_text(t, f, "receiver");
        let name = match NodeHelper::field(t, f, "name") {
            Some(nm) => NodeHelper::text(t, nm),
            None => {
                return None;
            },
        };
        let params = match NodeHelper::field_text(t, f, "parameters") {
            Some(p) => p,
            None => "()".to_owned(),
        };
        let result = match NodeHelper::field_text(t, f, "result") {
            Some(rr) => {
                let mut s = " ".to_owned();
                s.append(rr.as_str());
                s
            },
            None => String::new(),
        };
        let recv_str = match &receiver {
            Some(rv) => rv.clone(),
            None => "()".to_owned(),
        };
        let mut signature = "func ".to_owned();
        signature.append(recv_str.as_str());
        signature.append(" ");
        signature.append(name.as_str());
        signature.append(params.as_str());
        signature.append(result.as_str());
        let doc = self.doc_of(t, f);
        let x = FuncSpec {
            signature,
            doc,
            receiver,
            uses: Vec::new(),
            behavior: None,
            tests: None,
        };
        proof {
            assert(go_method_record(*t, f as int) =~~= seq![x.deep_view()]);
        }
        Some(x)
    }

    fn extract_functions(&self, t: &SyntaxTree) -> (r: Vec<FuncSpec>)
        requires
            t.wf(),
        ensures
            r.deep_view() == go_functions(*t),
    {
        let fs = NodeHelper::find_all(t, 0, "function_declaration");
        let mut r: Vec<FuncSpec> = Vec::new();
        let mut k: usize = 0;
        while k < fs.len()
            invariant
                t.wf(),
                fs@ == spec_find_all(*t, 0, "function_declaration"@),
                forall|j: int| 0 <= j < fs@.len() ==> t.valid(#[trigger] fs@[j] as int),
                k <= fs@.len(),
                r.deep_view() == go_funcs_of(*t, fs@.take(k as int)),
            decreases fs@.len() - k,
        {
            let ghost pre = r.deep_view();
            match self.extract_func_spec(t, fs[k]) {
                Some(x) => {
                    r.push(x);
                },
                None => {},
            }
            proof {
                assert(fs@.take(k + 1 as int).drop_last() =~= fs@.take(k as int));
                assert(fs@.take(k + 1 as int).last() == fs@[k as int]);
                assert(r.deep_view() =~~= go_funcs_of(*t, fs@.take(k + 1 as int)));
            }
            k = k + 1;
        }
        proof {
            assert(fs@.take(fs@.len() as int) =~= fs@);
        }
        r
    }

    fn extract_methods(&self, t: &SyntaxTree) -> (r: Vec<FuncSpec>)
        requires
            t.wf(),
        ensures
            r.deep_view() == go_methods(*t),
    {
        let fs = NodeHelper::find_all(t, 0, "method_declaration");
        let mut r: Vec<FuncSpec> = Vec::new();
        let mut k: usize = 0;
        while k < fs.len()
            invariant
                t.wf(),
                fs@ == spec_find_all(*t, 0, "method_declaration"@),
                forall|j: int| 0 <= j < fs@.len() ==> t.valid(#[trigger] fs@[j] as int),
                k <= fs@.len(),
                r.deep_view() == go_methods_of(*t, fs@.take(k as int)),
            decreases fs@.len() - k,
        {
            let ghost pre = r.deep_view();
            match self.extract_method_spec(t, fs[k]) {
                Some(x) => {
                    r.push(x);
                },
                None => {},
            }
            proof {
                assert(fs@.take(k + 1 as int).drop_last() =~= fs@.take(k as int));
                assert(fs@.take(k + 1 as int).last() == fs@[k as int]);
                assert(r.deep_view() =~~= go_methods_of(*t, fs@.take(k + 1 as int)));
            }
            k = k + 1;
        }
        proof {
            assert(fs@.take(fs@.len() as int) =~= fs@);
        }
        r
    }

    fn extract_constants(&self, t: &SyntaxTree) -> (r: Vec<ConstSpec>)
        requires
            t.wf(),
        ensures
            r.deep_view() == go_constants(*t),
    {
        let ds = NodeHelper::find_all(t, 0, "const_declaration");
        let mut r: Vec<ConstSpec> = Vec::new();
        let mut k: usize = 0;
        while k < ds.len()
            invariant
                t.wf(),
                ds@ == spec_find_all(*t, 0, "const_declaration"@),
                forall|j: int| 0 <= j < ds@.len() ==> t.valid(#[trigger] ds@[j] as int),
                k <= ds@.len(),
                r.deep_view() == go_const_decls_of(*t, ds@.take(k as int)),
            decreases ds@.len() - k,
        {
            let d = ds[k];
            let ghost pre = r.deep_view();
            let doc = self.doc_of(t, d);
            let sps = NodeHelper::children_by_kind(t, d, "const_spec");
            let mut j: usize = 0;
            while j < sps.len()
                invariant
                    t.wf(),
                    t.valid(d as int),
                    sps@ == crate::tree::spec_children_by_kind(*t, d as int, "const_spec"@),
                    forall|x: int| 0 <= x < sps@.len() ==> t.valid(#[trigger] sps@[x] as int),
                    j <= sps@.len(),
                    doc.deep_view() == spec_preceding_comment(*t, d as int),
                    r.deep_view() == pre + go_consts_of(
                        *t,
                        sps@.take(j as int),
                        spec_preceding_comment(*t, d as int),
                    ),
                decreases sps@.len() - j,
            {
                let sp = sps[j];
                match NodeHelper::field(t, sp, "name") {
                    Some(nm) => {
                        let x = ConstSpec {
                            name: NodeHelper::text(t, nm),
                            ty_name: NodeHelper::field_text(t, sp, "type"),
                            value: NodeHelper::field_text(t, sp, "value"),
                            doc: clone_opt_string(&doc),
                        };
                        r.push(x);
                    },
                    None => {},
                }
                proof {
                    assert(sps@.take(j + 1 as int).drop_last() =~= sps@.take(j as int));
                    assert(sps@.take(j + 1 as int).last() == sps@[j as int]);
                    crate::strutil::seq_assoc(
                        pre,
                        go_consts_of(*t, sps@.take(j as int), spec_preceding_comment(*t, d as int)),
                        go_const_entry(*t, sps@[j as int] as int, spec_preceding_comment(*t, d as int)),
                    );
                    assert(r.deep_view() =~~= (pre + go_consts_of(
                        *t,
                        sps@.take(j as int),
                        spec_preceding_comment(*t, d as int),
                    )) + go_const_entry(*t, sps@[j as int] as int, spec_preceding_comment(*t, d as int)));
                    assert(r.deep_view() =~~= pre + go_consts_of(
                        *t,
                        sps@.take(j + 1 as int),
                        spec_preceding_comment(*t, d as int),
                    ));
                }
                j = j + 1;
            }
            proof {
                assert(sps@.take(sps@.len() as int) =~= sps@);
                assert(ds@.take(k + 1 as int).drop_last() =~= ds@.take(k as int));
                assert(ds@.take(k + 1 as int).last() == ds@[k as int]);
                assert(r.deep_view() =~~= go_const_decls_of(*t, ds@.take(k + 1 as int)));
            }
            k = k + 1;
        }
        proof {
            assert(ds@.take(ds@.len() as int) =~= ds@);
        }
        r
    }

    fn extract_variables(&self, t: &SyntaxTree) -> (r: Vec<VarSpec>)
        requires
            t.wf(),
        ensures
            r.deep_view() == go_variables(*t),
    {
        let ds = NodeHelper::find_all(t, 0, "var_declaration");
        let mut r: Vec<VarSpec> = Vec::new();
        let mut k: usize = 0;
        while k < ds.len()
            invariant
                t.wf(),
                ds@ == spec_find_all(*t, 0, "var_declaration"@),
                forall|j: int| 0 <= j < ds@.len() ==> t.valid(#[trigger] ds@[j] as int),
                k <= ds@.len(),
                r.deep_view() == go_var_decls_of(*t, ds@.take(k as int)),
            decreases ds@.len() - k,
        {
            let d = ds[k];
            let ghost pre = r.deep_view();
            let doc = self.doc_of(t, d);
            let sps = NodeHelper::children_by_kind(t, d, "var_spec");
            let mut j: usize = 0;
            while j < sps.len()
                invariant
                    t.wf(),
                    t.valid(d as int),
                    sps@ == crate::tree::spec_children_by_kind(*t, d as int, "var_spec"@),
                    forall|x: int| 0 <= x < sps@.len() ==> t.valid(#[trigger] sps@[x] as int),
                    j <= sps@.len(),
                    doc.deep_view() == spec_preceding_comment(*t, d as int),
                    r.deep_view() == pre + go_vars_of(
                        *t,
                        sps@.take(j as int),
                        spec_preceding_comment(*t, d as int),
                    ),
                decreases sps@.len() - j,
            {
                let sp = sps[j];
                match NodeHelper::field(t, sp, "name") {
                    Some(nm) => {
                        let x = VarSpec {
                            name: NodeHelper::text(t, nm),
                            ty_name: NodeHelper::field_text(t, sp, "type"),
                            doc: clone_opt_string(&doc),
                        };
                        r.push(x);
                    },
                    None => {},
                }
                proof {
                    assert(sps@.take(j + 1 as int).drop_last() =~= sps@.take(j as int));
                    assert(sps@.take(j + 1 as int).last() == sps@[j as int]);
                    crate::strutil::seq_assoc(
                        pre,
                        go_vars_of(*t, sps@.take(j as int), spec_preceding_comment(*t, d as int)),
                        go_var_entry(*t, sps@[j as int] as int, spec_preceding_comment(*t, d as int)),
                    );
                    assert(r.deep_view() =~~= (pre + go_vars_of(
                        *t,
                        sps@.take(j as int),
                        spec_preceding_comment(*t, d as int),
                    )) + go_var_entry(*t, sps@[j as int] as int, spec_preceding_comment(*t, d as int)));
                    assert(r.deep_view() =~~= pre + go_vars_of(
                        *t,
                        sps@.take(j + 1 as int),
                        spec_preceding_comment(*t, d as int),
                    ));
                }
                j = j + 1;
            }
            proof {
                assert(sps@.take(sps@.len() as int) =~= sps@);
                assert(ds@.take(k + 1 as int).drop_last() =~= ds@.take(k as int));
                assert(ds@.take(k + 1 as int).last() == ds@[k as int]);
                assert(r.deep_view() =~~= go_var_decls_of(*t, ds@.take(k + 1 as int)));
            }
            k = k + 1;
        }
        proof {
            assert(ds@.take(ds@.len() as int) =~= ds@);
        }
        r
    }

    fn extract_errors(&self, t: &SyntaxTree) -> (r: Vec<ErrorSpec>)
        requires
            t.wf(),
        ensures
            r.deep_view() == go_errors(*t),
    {
        let ds = NodeHelper::find_all(t, 0, "var_declaration");
        let mut r: Vec<ErrorSpec> = Vec::new();
        let mut k: usize = 0;
        while k < ds.len()
            invariant
                t.wf(),
                ds@ == spec_find_all(*t, 0, "var_declaration"@),
                forall|j: int| 0 <= j < ds@.len() ==> t.valid(#[trigger] ds@[j] as int),
                k <= ds@.len(),
                r.deep_view() == go_error_decls_of(*t, ds@.take(k as int)),
            decreases ds@.len() - k,
        {
            let d = ds[k];
            let ghost pre = r.deep_view();
            let sps = NodeHelper::children_by_kind(t, d, "var_spec");
            let mut j: usize = 0;
            while j < sps.len()
                invariant
                    t.wf(),
                    t.valid(d as int),
                    sps@ == crate::tree::spec_children_by_kind(*t, d as int, "var_spec"@),
                    forall|x: int| 0 <= x < sps@.len() ==> t.valid(#[trigger] sps@[x] as int),
                    j <= sps@.len(),
                    r.deep_view() == pre + go_errors_specs_of(*t, sps@.take(j as int), d as int),
                decreases sps@.len() - j,
            {
                let sp = sps[j];
                match NodeHelper::field(t, sp, "name") {
                    Some(nm) => {
                        let name = NodeHelper::text(t, nm);
                        if str_starts_with(name.as_str(), "Err") {
                            let x = ErrorSpec {
                                name,
                                message: NodeHelper::field_text(t, sp, "value"),
                                doc: self.doc_of(t, d),
                            };
                            r.push(x);
                        }
                    },
                    None => {},
                }
                proof {
                    assert(sps@.take(j + 1 as int).drop_last() =~= sps@.take(j as int));
                    assert(sps@.take(j + 1 as int).last() == sps@[j as int]);
                    crate::strutil::seq_assoc(
                        pre,
                        go_errors_specs_of(*t, sps@.take(j as int), d as int),
                        go_error_entry(*t, sps@[j as int] as int, d as int),
                    );
                    assert(r.deep_view() =~~= (pre + go_errors_specs_of(
                        *t,
                        sps@.take(j as int),
                        d as int,
                    )) + go_error_entry(*t, sps@[j as int] as int, d as int));
                    assert(r.deep_view() =~~= pre + go_errors_specs_of(
                        *t,
                        sps@.take(j + 1 as int),
                        d as int,
                    ));
                }
                j = j + 1;
            }
            proof {
                assert(sps@.take(sps@.len() as int) =~= sps@);
                assert(ds@.take(k + 1 as int).drop_last() =~= ds@.take(k as int));
                assert(ds@.take(k + 1 as int).last() == ds@[k as int]);
                assert(r.deep_view() =~~= go_error_decls_of(*t, ds@.take(k + 1 as int)));
            }
            k = k + 1;
        }
        proof {
            assert(ds@.take(ds@.len() as int) =~= ds@);
        }
        r
    }

    /// Extraction is a pure function of the source text and the path:
    /// on success the record is exactly [`go_file_record`] of the parsed
    /// tree, and the only failure is the grammar failing to produce a
    /// tree.
    pub(crate) fn extract_file(&self, source: &str, path: &str) -> (r: Result<
        FileSpec,
        ExtractError,
    >)
        ensures
            match r {
                Ok(spec) => go_parse(source@) is Some && spec.deep_view() == go_file_record(
                    go_parse(source@)->0,
                    path@,
                ),
                Err(e) => go_parse(source@) is None && e == ExtractError::ParseFailure,
            },
    {
        match exec_go_parse(source) {
            None => Err(ExtractError::ParseFailure),
            Some(tree) => {
                let spec = FileSpec {
                    file: path.to_owned(),
                    package: self.extract_package(&tree),
                    imports: self.extract_imports(&tree),
                    types: self.extract_types(&tree),
                    functions: self.extract_functions(&tree),
                    methods: self.extract_methods(&tree),
                    constants: self.extract_constants(&tree),
                    variables: self.extract_variables(&tree),
                    errors: self.extract_errors(&tree),
                };
                proof {
                    assert(spec.deep_view() =~~= go_file_record(tree, path@));
                }
                Ok(spec)
            },
        }
    }
}

impl Default for GoPlugin {
    fn default() -> (r: Self) {
        GoPlugin
    }
}

} // verus!
