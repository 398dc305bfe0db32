//! Extraction for Rust source files.
//!
//! Types come out grouped by kind — structs, then enums, then traits,
//! then type aliases — each group in source order.  Functions inside
//! `impl` blocks are methods, carrying the implemented type as their
//! receiver.

use vstd::prelude::*;
use vstd::string::StringExecFns;

use crate::strutil::str_eq_local;
use crate::parse::{exec_rust_parse, rust_parse};
use crate::paths::{module_name_of, spec_file_stem};
use crate::records::{
    ConstSpec, ConstSpecV, ExtractError, FileSpec, FileSpecV, FuncSpec, FuncSpecV, TypeSpec,
    TypeSpecV, VarSpec, VarSpecV,
};
use crate::strutil::clone_opt_string;
use crate::tree::{
    children_of, kind_of, spec_child_by_kind, spec_children_by_kind, spec_field,
    spec_field_text, spec_find_all, spec_inside_kind, spec_preceding_comment, text_of,
    NodeHelper, SyntaxTree,
};

verus! {

/// The fallback module name: the file's stem, or `unknown`.
pub open spec fn rust_module(path: Seq<char>) -> Seq<char> {
    match spec_file_stem(path) {
        Some(s) => s,
        None => "unknown"@,
    }
}

/// What one `use_declaration` contributes: its tree or scoped path.
pub open spec fn rust_use_entry(t: SyntaxTree, d: int) -> Seq<Seq<char>> {
    match spec_child_by_kind(t, d, "use_tree"@) {
        Some(u) => seq![text_of(t, u as int)],
        None => match spec_child_by_kind(t, d, "scoped_identifier"@) {
            Some(u) => seq![text_of(t, u as int)],
            None => Seq::empty(),
        },
    }
}

pub open spec fn rust_uses_of(t: SyntaxTree, ds: Seq<usize>) -> Seq<Seq<char>>
    decreases ds.len(),
{
    if ds.len() == 0 {
        Seq::empty()
    } else {
        rust_uses_of(t, ds.drop_last()) + rust_use_entry(t, ds.last() as int)
    }
}

/// Every `use` path in the file, in source order.
pub open spec fn rust_uses(t: SyntaxTree) -> Seq<Seq<char>> {
    rust_uses_of(t, spec_find_all(t, 0, "use_declaration"@))
}

/// One type-parameter-list child's entry, for struct declarations.
pub open spec fn rust_tp_entry_struct(t: SyntaxTree, c: int) -> Seq<Seq<char>> {
    if kind_of(t, c) == "type_identifier"@ || kind_of(t, c) == "constrained_type_parameter"@ {
        seq![text_of(t, c)]
    } else {
        Seq::empty()
    }
}

/// One type-parameter-list child's entry, for enums and traits.
pub open spec fn rust_tp_entry(t: SyntaxTree, c: int) -> Seq<Seq<char>> {
    if kind_of(t, c) == "type_identifier"@ {
        seq![text_of(t, c)]
    } else {
        Seq::empty()
    }
}

pub open spec fn rust_tps_struct_of(t: SyntaxTree, cs: Seq<usize>) -> Seq<Seq<char>>
    decreases cs.len(),
{
    if cs.len() == 0 {
        Seq::empty()
    } else {
        rust_tps_struct_of(t, cs.drop_last()) + rust_tp_entry_struct(t, cs.last() as int)
    }
}

pub open spec fn rust_tps_of(t: SyntaxTree, cs: Seq<usize>) -> Seq<Seq<char>>
    decreases cs.len(),
{
    if cs.len() == 0 {
        Seq::empty()
    } else {
        rust_tps_of(t, cs.drop_last()) + rust_tp_entry(t, cs.last() as int)
    }
}

/// The type parameters of a struct declaration.
pub open spec fn rust_struct_tps(t: SyntaxTree, node: int) -> Seq<Seq<char>> {
    match spec_child_by_kind(t, node, "type_parameters"@) {
        None => Seq::empty(),
        Some(ps) => rust_tps_struct_of(t, children_of(t, ps as int)),
    }
}

/// The type parameters of an enum or trait declaration.
pub open spec fn rust_plain_tps(t: SyntaxTree, node: int) -> Seq<Seq<char>> {
    match spec_child_by_kind(t, node, "type_parameters"@) {
        None => Seq::empty(),
        Some(ps) => rust_tps_of(t, children_of(t, ps as int)),
    }
}

/// One `field_declaration`'s entry, `name: type`.
pub open spec fn rust_field_entry(t: SyntaxTree, c: int) -> Seq<Seq<char>> {
    if kind_of(t, c) == "field_declaration"@ {
        match (spec_field(t, c, "name"@), spec_field(t, c, "type"@)) {
            (Some(n), Some(ty)) => seq![text_of(t, n as int) + ": "@ + text_of(t, ty as int)],
            _ => Seq::empty(),
        }
    } else {
        Seq::empty()
    }
}

pub open spec fn rust_fields_of(t: SyntaxTree, cs: Seq<usize>) -> Seq<Seq<char>>
    decreases cs.len(),
{
    if cs.len() == 0 {
        Seq::empty()
    } else {
        rust_fields_of(t, cs.drop_last()) + rust_field_entry(t, cs.last() as int)
    }
}

/// The named fields of a struct declaration.
pub open spec fn rust_struct_fields(t: SyntaxTree, node: int) -> Seq<Seq<char>> {
    match spec_child_by_kind(t, node, "field_declaration_list"@) {
        None => Seq::empty(),
        Some(fl) => rust_fields_of(t, children_of(t, fl as int)),
    }
}

/// The record of one `struct_item`; nothing without a name.
pub open spec fn rust_struct_record(t: SyntaxTree, node: int) -> Seq<TypeSpecV> {
    match spec_field(t, node, "name"@) {
        None => Seq::empty(),
        Some(nm) => seq![
            TypeSpecV {
                name: text_of(t, nm as int) + " struct"@,
                doc: spec_preceding_comment(t, node),
                kind: "struct"@,
                fields: rust_struct_fields(t, node),
                methods: Seq::empty(),
                embeds: Seq::empty(),
                implements: None,
                implemented_by: Seq::empty(),
                type_params: rust_struct_tps(t, node),
                variants: Seq::empty(),
            },
        ],
    }
}

pub open spec fn rust_variant_of(t: SyntaxTree, vs: Seq<usize>) -> Seq<Seq<char>>
    decreases vs.len(),
{
    if vs.len() == 0 {
        Seq::empty()
    } else {
        rust_variant_of(t, vs.drop_last()).push(text_of(t, vs.last() as int))
    }
}

/// The variants of an enum declaration, each as its literal source text.
pub open spec fn rust_enum_variants(t: SyntaxTree, node: int) -> Seq<Seq<char>> {
    match spec_child_by_kind(t, node, "enum_variant_list"@) {
        None => Seq::empty(),
        Some(b) => rust_variant_of(t, spec_children_by_kind(t, b as int, "enum_variant"@)),
    }
}

/// The record of one `enum_item`; nothing without a name.
pub open spec fn rust_enum_record(t: SyntaxTree, node: int) -> Seq<TypeSpecV> {
    match spec_field(t, node, "name"@) {
        None => Seq::empty(),
        Some(nm) => seq![
            TypeSpecV {
                name: text_of(t, nm as int) + " enum"@,
                doc: spec_preceding_comment(t, node),
                kind: "enum"@,
                fields: Seq::empty(),
                methods: Seq::empty(),
                embeds: Seq::empty(),
                implements: None,
                implemented_by: Seq::empty(),
                type_params: rust_plain_tps(t, node),
                variants: rust_enum_variants(t, node),
            },
        ],
    }
}

/// The formatted signature of a trait-member declaration,
/// `fn name(params) -> ret`; nothing without a name.
pub open spec fn rust_fn_signature(t: SyntaxTree, f: int) -> Option<Seq<char>> {
    match spec_field(t, f, "name"@) {
        None => None,
        Some(nm) => {
            let params = match spec_field_text(t, f, "parameters"@) {
                Some(p) => p,
                None => "()"@,
            };
            let ret = match spec_child_by_kind(t, f, "return_type"@) {
                Some(rt) => " -> "@ + text_of(t, rt as int),
                None => Seq::empty(),
            };
            Some("fn "@ + text_of(t, nm as int) + params + ret)
        },
    }
}

pub open spec fn rust_trait_sig_entry(t: SyntaxTree, f: int) -> Seq<Seq<char>> {
    match rust_fn_signature(t, f) {
        Some(sig) => seq![sig],
        None => Seq::empty(),
    }
}

pub open spec fn rust_trait_sigs_of(t: SyntaxTree, fs: Seq<usize>) -> Seq<Seq<char>>
    decreases fs.len(),
{
    if fs.len() == 0 {
        Seq::empty()
    } else {
        rust_trait_sigs_of(t, fs.drop_last()) + rust_trait_sig_entry(t, fs.last() as int)
    }
}

/// The member signatures of a trait declaration.
pub open spec fn rust_trait_methods(t: SyntaxTree, node: int) -> Seq<Seq<char>> {
    match spec_child_by_kind(t, node, "declaration_list"@) {
        None => Seq::empty(),
        Some(b) => rust_trait_sigs_of(
            t,
            spec_find_all(t, b as int, "function_signature_item"@),
        ),
    }
}

/// The record of one `trait_item`; nothing without a name.
pub open spec fn rust_trait_record(t: SyntaxTree, node: int) -> Seq<TypeSpecV> {
    match spec_field(t, node, "name"@) {
        None => Seq::empty(),
        Some(nm) => seq![
            TypeSpecV {
                name: text_of(t, nm as int) + " trait"@,
                doc: spec_preceding_comment(t, node),
                kind: "trait"@,
                fields: Seq::empty(),
                methods: rust_trait_methods(t, node),
                embeds: Seq::empty(),
                implements: None,
                implemented_by: Seq::empty(),
                type_params: rust_plain_tps(t, node),
                variants: Seq::empty(),
            },
        ],
    }
}

/// The record of one `type_item`: a bare alias keeps only its name.
pub open spec fn rust_alias_record(t: SyntaxTree, node: int) -> Seq<TypeSpecV> {
    match spec_field(t, node, "name"@) {
        None => Seq::empty(),
        Some(nm) => seq![
            TypeSpecV {
                name: text_of(t, nm as int) + " type"@,
                doc: spec_preceding_comment(t, node),
                kind: "type_alias"@,
                fields: Seq::empty(),
                methods: Seq::empty(),
                embeds: Seq::empty(),
                implements: None,
                implemented_by: Seq::empty(),
                type_params: Seq::empty(),
                variants: Seq::empty(),
            },
        ],
    }
}

pub open spec fn rust_structs_of(t: SyntaxTree, ns: Seq<usize>) -> Seq<TypeSpecV>
    decreases ns.len(),
{
    if ns.len() == 0 {
        Seq::empty()
    } else {
        rust_structs_of(t, ns.drop_last()) + rust_struct_record(t, ns.last() as int)
    }
}

pub open spec fn rust_enums_of(t: SyntaxTree, ns: Seq<usize>) -> Seq<TypeSpecV>
    decreases ns.len(),
{
    if ns.len() == 0 {
        Seq::empty()
    } else {
        rust_enums_of(t, ns.drop_last()) + rust_enum_record(t, ns.last() as int)
    }
}

pub open spec fn rust_traits_of(t: SyntaxTree, ns: Seq<usize>) -> Seq<TypeSpecV>
    decreases ns.len(),
{
    if ns.len() == 0 {
        Seq::empty()
    } else {
        rust_traits_of(t, ns.drop_last()) + rust_trait_record(t, ns.last() as int)
    }
}

pub open spec fn rust_aliases_of(t: SyntaxTree, ns: Seq<usize>) -> Seq<TypeSpecV>
    decreases ns.len(),
{
    if ns.len() == 0 {
        Seq::empty()
    } else {
        rust_aliases_of(t, ns.drop_last()) + rust_alias_record(t, ns.last() as int)
    }
}

/// Every type definition in the file: structs, then enums, then traits,
/// then aliases, each group in source order.
pub open spec fn rust_types(t: SyntaxTree) -> Seq<TypeSpecV> {
    rust_structs_of(t, spec_find_all(t, 0, "struct_item"@)) + rust_enums_of(
        t,
        spec_find_all(t, 0, "enum_item"@),
    ) + rust_traits_of(t, spec_find_all(t, 0, "trait_item"@)) + rust_aliases_of(
        t,
        spec_find_all(t, 0, "type_item"@),
    )
}

/// The record of one `function_item` with the given receiver:
/// `fn name<tp>(params) -> ret`; nothing without a name.
pub open spec fn rust_fn_record(t: SyntaxTree, f: int, receiver: Option<Seq<char>>)
    -> Seq<FuncSpecV> {
    match spec_field(t, f, "name"@) {
        None => Seq::empty(),
        Some(nm) => {
            let params = match spec_field_text(t, f, "parameters"@) {
                Some(p) => p,
                None => "()"@,
            };
            let ret = match spec_child_by_kind(t, f, "return_type"@) {
                Some(rt) => " -> "@ + text_of(t, rt as int),
                None => Seq::empty(),
            };
            let tp = match spec_child_by_kind(t, f, "type_parameters"@) {
                Some(ps) => text_of(t, ps as int),
                None => Seq::empty(),
            };
            seq![
                FuncSpecV {
                    signature: "fn "@ + text_of(t, nm as int) + tp + params + ret,
                    doc: spec_preceding_comment(t, f),
                    receiver,
                    uses: Seq::empty(),
                    behavior: None,
                    tests: None,
                },
            ]
        },
    }
}

/// One module-level function's record: functions inside `impl` blocks
/// are methods and are left out here.
pub open spec fn rust_func_record(t: SyntaxTree, f: int) -> Seq<FuncSpecV> {
    if spec_inside_kind(t, f, "impl_item"@) {
        Seq::empty()
    } else {
        rust_fn_record(t, f, None)
    }
}

pub open spec fn rust_funcs_of(t: SyntaxTree, ns: Seq<usize>) -> Seq<FuncSpecV>
    decreases ns.len(),
{
    if ns.len() == 0 {
        Seq::empty()
    } else {
        rust_funcs_of(t, ns.drop_last()) + rust_func_record(t, ns.last() as int)
    }
}

/// Every free function in the file, in source order.
pub open spec fn rust_functions(t: SyntaxTree) -> Seq<FuncSpecV> {
    rust_funcs_of(t, spec_find_all(t, 0, "function_item"@))
}

pub open spec fn rust_impl_fns_of(
    t: SyntaxTree,
    fs: Seq<usize>,
    receiver: Option<Seq<char>>,
) -> Seq<FuncSpecV>
    decreases fs.len(),
{
    if fs.len() == 0 {
        Seq::empty()
    } else {
        rust_impl_fns_of(t, fs.drop_last(), receiver) + rust_fn_record(
            t,
            fs.last() as int,
            receiver,
        )
    }
}

/// What one `impl_item` contributes to the method list: its functions,
/// each carrying the implemented type as receiver.
pub open spec fn rust_impl_methods(t: SyntaxTree, im: int) -> Seq<FuncSpecV> {
    let receiver = spec_field_text(t, im, "type"@);
    match spec_child_by_kind(t, im, "declaration_list"@) {
        None => Seq::empty(),
        Some(b) => rust_impl_fns_of(
            t,
            spec_find_all(t, b as int, "function_item"@),
            receiver,
        ),
    }
}

pub open spec fn rust_methods_of(t: SyntaxTree, ns: Seq<usize>) -> Seq<FuncSpecV>
    decreases ns.len(),
{
    if ns.len() == 0 {
        Seq::empty()
    } else {
        rust_methods_of(t, ns.drop_last()) + rust_impl_methods(t, ns.last() as int)
    }
}

/// Every method in the file, grouped by `impl` block, in source order.
pub open spec fn rust_methods(t: SyntaxTree) -> Seq<FuncSpecV> {
    rust_methods_of(t, spec_find_all(t, 0, "impl_item"@))
}

/// The record of one `const_item`; nothing without a name.
pub open spec fn rust_const_record(t: SyntaxTree, c: int) -> Seq<ConstSpecV> {
    match spec_field(t, c, "name"@) {
        None => Seq::empty(),
        Some(nm) => seq![
            ConstSpecV {
                name: text_of(t, nm as int),
                ty_name: spec_field_text(t, c, "type"@),
                value: spec_field_text(t, c, "value"@),
                doc: spec_preceding_comment(t, c),
            },
        ],
    }
}

pub open spec fn rust_consts_of(t: SyntaxTree, ns: Seq<usize>) -> Seq<ConstSpecV>
    decreases ns.len(),
{
    if ns.len() == 0 {
        Seq::empty()
    } else {
        rust_consts_of(t, ns.drop_last()) + rust_const_record(t, ns.last() as int)
    }
}

/// Every `const` item in the file, in source order.
pub open spec fn rust_constants(t: SyntaxTree) -> Seq<ConstSpecV> {
    rust_consts_of(t, spec_find_all(t, 0, "const_item"@))
}

/// The record of one `static_item`; nothing without a name.
pub open spec fn rust_static_record(t: SyntaxTree, c: int) -> Seq<VarSpecV> {
    match spec_field(t, c, "name"@) {
        None => Seq::empty(),
        Some(nm) => seq![
            VarSpecV {
                name: text_of(t, nm as int),
                ty_name: spec_field_text(t, c, "type"@),
                doc: spec_preceding_comment(t, c),
            },
        ],
    }
}

pub open spec fn rust_statics_of(t: SyntaxTree, ns: Seq<usize>) -> Seq<VarSpecV>
    decreases ns.len(),
{
    if ns.len() == 0 {
        Seq::empty()
    } else {
        rust_statics_of(t, ns.drop_last()) + rust_static_record(t, ns.last() as int)
    }
}

/// Every `static` item in the file, in source order.
pub open spec fn rust_statics(t: SyntaxTree) -> Seq<VarSpecV> {
    rust_statics_of(t, spec_find_all(t, 0, "static_item"@))
}

/// Everything the Rust module extracts from one parsed file.
pub open spec fn rust_file_record(t: SyntaxTree, path: Seq<char>) -> FileSpecV {
    FileSpecV {
        file: path,
        package: rust_module(path),
        imports: rust_uses(t),
        types: rust_types(t),
        functions: rust_functions(t),
        methods: rust_methods(t),
        constants: rust_constants(t),
        variables: rust_statics(t),
        errors: Seq::empty(),
    }
}

/// Extraction for Rust source files.
#[derive(Clone, Copy, PartialEq, Eq, Structural, Debug)]
pub struct RustPlugin;

impl RustPlugin {
    pub fn new() -> (r: RustPlugin) {
        RustPlugin
    }

    fn extract_module(&self, path: &str) -> (r: String)
        ensures
            r@ == rust_module(path@),
    {
        module_name_of(path)
    }

    fn extract_uses(&self, t: &SyntaxTree) -> (r: Vec<String>)
        requires
            t.wf(),
        ensures
            r.deep_view() == rust_uses(*t),
    {
        let ds = NodeHelper::find_all(t, 0, "use_declaration");
        let mut r: Vec<String> = Vec::new();
        let mut k: usize = 0;
        while k < ds.len()
            invariant
                t.wf(),
                ds@ == spec_find_all(*t, 0, "use_declaration"@),
                forall|j: int| 0 <= j < ds@.len() ==> t.valid(#[trigger] ds@[j] as int),
                k <= ds@.len(),
                r.deep_view() == rust_uses_of(*t, ds@.take(k as int)),
            decreases ds@.len() - k,
        {
            match NodeHelper::child_by_kind(t, ds[k], "use_tree") {
                Some(u) => {
                    r.push(NodeHelper::text(t, u));
                },
                None => match NodeHelper::child_by_kind(t, ds[k], "scoped_identifier") {
                    Some(u) => {
                        r.push(NodeHelper::text(t, u));
                    },
                    None => {},
                },
            }
            proof {
                assert(ds@.take(k + 1 as int).drop_last() =~= ds@.take(k as int));
                assert(ds@.take(k + 1 as int).last() == ds@[k as int]);
                assert(r.deep_view() =~~= rust_uses_of(*t, ds@.take(k + 1 as int)));
            }
            k = k + 1;
        }
        proof {
            assert(ds@.take(ds@.len() as int) =~= ds@);
        }
        r
    }

    /// The type parameters of a declaration, struct-style when
    /// `with_constrained` is set.
    fn extract_type_params(&self, t: &SyntaxTree, node: usize, with_constrained: bool)
        -> (r: Vec<String>)
        requires
            t.wf(),
            t.valid(node as int),
        ensures
            with_constrained ==> r.deep_view() == rust_struct_tps(*t, node as int),
            !with_constrained ==> r.deep_view() == rust_plain_tps(*t, node as int),
    {
        let mut r: Vec<String> = Vec::new();
        match NodeHelper::child_by_kind(t, node, "type_parameters") {
            None => {},
            Some(ps) => {
                proof {
                    assert(t.wf_node(ps as int));
                }
                let ghost cs = children_of(*t, ps as int);
                let nch = t.nodes[ps].children.len();
                let mut k: usize = 0;
                while k < nch
                    invariant
                        t.wf(),
                        t.valid(ps as int),
                        cs == children_of(*t, ps as int),
                        nch == cs.len(),
                        t.wf_node(ps as int),
                        k <= nch,
                        with_constrained ==> r.deep_view() == rust_tps_struct_of(
                            *t,
                            cs.take(k as int),
                        ),
                        !with_constrained ==> r.deep_view() == rust_tps_of(
                            *t,
                            cs.take(k as int),
                        ),
                    decreases nch - k,
                {
                    let c = t.nodes[ps].children[k];
                    let is_ti = str_eq_local(&t.nodes[c].kind, "type_identifier");
                    let is_ctp = str_eq_local(&t.nodes[c].kind, "constrained_type_parameter");
                    if is_ti || (with_constrained && is_ctp) {
                        r.push(NodeHelper::text(t, c));
                    }
                    proof {
                        assert(cs.take(k + 1 as int).drop_last() =~= cs.take(k as int));
                        assert(cs.take(k + 1 as int).last() == cs[k as int]);
                        if with_constrained {
                            assert(r.deep_view() =~~= rust_tps_struct_of(
                                *t,
                                cs.take(k + 1 as int),
                            ));
                        } else {
                            assert(r.deep_view() =~~= rust_tps_of(*t, cs.take(k + 1 as int)));
                        }
                    }
                    k = k + 1;
                }
                proof {
                    assert(cs.take(cs.len() as int) =~= cs);
                }
            },
        }
        r
    }

    fn extract_struct(&self, t: &SyntaxTree, node: usize) -> (r: Option<TypeSpec>)
        requires
            t.wf(),
            t.valid(node as int),
        ensures
            match r {
                Some(x) => rust_struct_record(*t, node as int) =~~= seq![x.deep_view()],
                None => rust_struct_record(*t, node as int) =~~= Seq::<TypeSpecV>::empty(),
            },
    {
        let nm = match NodeHelper::field(t, node, "name") {
            None => {
                return None;
            },
            Some(nm) => nm,
        };
        let doc = NodeHelper::preceding_comment(t, node);
        let type_params = self.extract_type_params(t, node, true);
        let mut fields: Vec<String> = Vec::new();
        let ghost fl_cs = match spec_child_by_kind(*t, node as int, "field_declaration_list"@) {
            Some(fl) => children_of(*t, fl as int),
            None => Seq::empty(),
        };
        match NodeHelper::child_by_kind(t, node, "field_declaration_list") {
            Some(fl) => {
                proof {
                    assert(t.wf_node(fl as int));
                }
                let nch = t.nodes[fl].children.len();
                let mut k: usize = 0;
                while k < nch
                    invariant
                        t.wf(),
                        t.valid(fl as int),
                        fl_cs == children_of(*t, fl as int),
                        nch == fl_cs.len(),
                        t.wf_node(fl as int),
                        k <= nch,
                        fields.deep_view() == rust_fields_of(*t, fl_cs.take(k as int)),
                    decreases nch - k,
                {
                    let c = t.nodes[fl].children[k];
                    if str_eq_local(&t.nodes[c].kind, "field_declaration") {
                        match (NodeHelper::field(t, c, "name"), NodeHelper::field(t, c, "type"))
                            {
                            (Some(n), Some(ty)) => {
                                let mut e = NodeHelper::text(t, n);
                                e.append(": ");
                                let tytxt = NodeHelper::text(t, ty);
                                e.append(tytxt.as_str());
                                fields.push(e);
                            },
                            _ => {},
                        }
                    }
                    proof {
                        assert(fl_cs.take(k + 1 as int).drop_last() =~= fl_cs.take(k as int));
                        assert(fl_cs.take(k + 1 as int).last() == fl_cs[k as int]);
                        assert(fields.deep_view() =~~= rust_fields_of(
                            *t,
                            fl_cs.take(k + 1 as int),
                        ));
                    }
                    k = k + 1;
                }
                proof {
                    assert(fl_cs.take(fl_cs.len() as int) =~= fl_cs);
                }
            },
            None => {
                proof {
                    assert(fields.deep_view() =~~= rust_fields_of(*t, fl_cs));
                }
            },
        }
        let mut disp = NodeHelper::text(t, nm);
        disp.append(" struct");
        let x = TypeSpec {
            name: disp,
            doc,
            kind: "struct".to_owned(),
            fields,
            methods: Vec::new(),
            embeds: Vec::new(),
            implements: None,
            implemented_by: Vec::new(),
            type_params,
            variants: Vec::new(),
        };
        proof {
            assert(rust_struct_record(*t, node as int) =~~= seq![x.deep_view()]);
        }
        Some(x)
    }

    fn extract_enum(&self, t: &SyntaxTree, node: usize) -> (r: Option<TypeSpec>)
        requires
            t.wf(),
            t.valid(node as int),
        ensures
            match r {
                Some(x) => rust_enum_record(*t, node as int) =~~= seq![x.deep_view()],
                None => rust_enum_record(*t, node as int) =~~= Seq::<TypeSpecV>::empty(),
            },
    {
        let nm = match NodeHelper::field(t, node, "name") {
            None => {
                return None;
            },
            Some(nm) => nm,
        };
        let doc = NodeHelper::preceding_comment(t, node);
        let type_params = self.extract_type_params(t, node, false);
        let mut variants: Vec<String> = Vec::new();
        match NodeHelper::child_by_kind(t, node, "enum_variant_list") {
            Some(b) => {
                let vs = NodeHelper::children_by_kind(t, b, "enum_variant");
                let mut k: usize = 0;
                while k < vs.len()
                    invariant
                        t.wf(),
                        t.valid(b as int),
                        vs@ == spec_children_by_kind(*t, b as int, "enum_variant"@),
                        forall|x: int| 0 <= x < vs@.len() ==> t.valid(#[trigger] vs@[x] as int),
                        k <= vs@.len(),
                        variants.deep_view() == rust_variant_of(*t, vs@.take(k as int)),
                    decreases vs@.len() - k,
                {
                    variants.push(NodeHelper::text(t, vs[k]));
                    proof {
                        assert(vs@.take(k + 1 as int).drop_last() =~= vs@.take(k as int));
                        assert(vs@.take(k + 1 as int).last() == vs@[k as int]);
                        assert(variants.deep_view() =~~= rust_variant_of(
                            *t,
                            vs@.take(k + 1 as int),
                        ));
                    }
                    k = k + 1;
                }
                proof {
                    assert(vs@.take(vs@.len() as int) =~= vs@);
                }
            },
            None => {},
        }
        let mut disp = NodeHelper::text(t, nm);
        disp.append(" enum");
        let x = TypeSpec {
            name: disp,
            doc,
            kind: "enum".to_owned(),
            fields: Vec::new(),
            methods: Vec::new(),
            embeds: Vec::new(),
            implements: None,
            implemented_by: Vec::new(),
            type_params,
            variants,
        };
        proof {
            assert(rust_enum_record(*t, node as int) =~~= seq![x.deep_view()]);
        }
        Some(x)
    }

    fn extract_func_signature(&self, t: &SyntaxTree, f: usize) -> (r: Option<String>)
        requires
            t.wf(),
            t.valid(f as int),
        ensures
            r.deep_view() == rust_fn_signature(*t, f as int),
    {
        let nm = match NodeHelper::field(t, f, "name") {
            None => {
                return None;
            },
            Some(nm) => nm,
        };
        let params = match NodeHelper::field_text(t, f, "parameters") {
            Some(p) => p,
            None => "()".to_owned(),
        };
        let ret = match NodeHelper::child_by_kind(t, f, "return_type") {
            Some(rt) => {
                let mut s = " -> ".to_owned();
                let txt = NodeHelper::text(t, rt);
                s.append(txt.as_str());
                s
            },
            None => String::new(),
        };
        let mut sig = "fn ".to_owned();
        let name = NodeHelper::text(t, nm);
        sig.append(name.as_str());
        sig.append(params.as_str());
        sig.append(ret.as_str());
        Some(sig)
    }

    fn extract_trait(&self, t: &SyntaxTree, node: usize) -> (r: Option<TypeSpec>)
        requires
            t.wf(),
            t.valid(node as int),
        ensures
            match r {
                Some(x) => rust_trait_record(*t, node as int) =~~= seq![x.deep_view()],
                None => rust_trait_record(*t, node as int) =~~= Seq::<TypeSpecV>::empty(),
            },
    {
        let nm = match NodeHelper::field(t, node, "name") {
            None => {
                return None;
            },
            Some(nm) => nm,
        };
        let doc = NodeHelper::preceding_comment(t, node);
        let type_params = self.extract_type_params(t, node, false);
        let mut methods: Vec<String> = Vec::new();
        match NodeHelper::child_by_kind(t, node, "declaration_list") {
            Some(b) => {
                let fs = NodeHelper::find_all(t, b, "function_signature_item");
                let mut k: usize = 0;
                while k < fs.len()
                    invariant
                        t.wf(),
                        fs@ == spec_find_all(*t, b as int, "function_signature_item"@),
                        forall|x: int| 0 <= x < fs@.len() ==> t.valid(#[trigger] fs@[x] as int),
                        k <= fs@.len(),
                        methods.deep_view() == rust_trait_sigs_of(*t, fs@.take(k as int)),
                    decreases fs@.len() - k,
                {
                    match self.extract_func_signature(t, fs[k]) {
                        Some(sig) => {
                            methods.push(sig);
                        },
                        None => {},
                    }
                    proof {
                        assert(fs@.take(k + 1 as int).drop_last() =~= fs@.take(k as int));
                        assert(fs@.take(k + 1 as int).last() == fs@[k as int]);
                        assert(methods.deep_view() =~~= rust_trait_sigs_of(
                            *t,
                            fs@.take(k + 1 as int),
                        ));
                    }
                    k = k + 1;
                }
                proof {
                    assert(fs@.take(fs@.len() as int) =~= fs@);
                }
            },
            None => {},
        }
        let mut disp = NodeHelper::text(t, nm);
        disp.append(" trait");
        let x = TypeSpec {
            name: disp,
            doc,
            kind: "trait".to_owned(),
            fields: Vec::new(),
            methods,
            embeds: Vec::new(),
            implements: None,
            implemented_by: Vec::new(),
            type_params,
            variants: Vec::new(),
        };
        proof {
            assert(rust_trait_record(*t, node as int) =~~= seq![x.deep_view()]);
        }
        Some(x)
    }

    fn extract_type_alias(&self, t: &SyntaxTree, node: usize) -> (r: Option<TypeSpec>)
        requires
            t.wf(),
            t.valid(node as int),
        ensures
            match r {
                Some(x) => rust_alias_record(*t, node as int) =~~= seq![x.deep_view()],
                None => rust_alias_record(*t, node as int) =~~= Seq::<TypeSpecV>::empty(),
            },
    {
        let nm = match NodeHelper::field(t, node, "name") {
            None => {
                return None;
            },
            Some(nm) => nm,
        };
        let doc = NodeHelper::preceding_comment(t, node);
        let mut disp = NodeHelper::text(t, nm);
        disp.append(" type");
        let x = TypeSpec {
            name: disp,
            doc,
            kind: "type_alias".to_owned(),
            fields: Vec::new(),
            methods: Vec::new(),
            embeds: Vec::new(),
            implements: None,
            implemented_by: Vec::new(),
            type_params: Vec::new(),
            variants: Vec::new(),
        };
        proof {
            assert(rust_alias_record(*t, node as int) =~~= seq![x.deep_view()]);
        }
        Some(x)
    }

    fn extract_types(&self, t: &SyntaxTree) -> (r: Vec<TypeSpec>)
        requires
            t.wf(),
        ensures
            r.deep_view() == rust_types(*t),
    {
        let mut r: Vec<TypeSpec> = Vec::new();
        let ss = NodeHelper::find_all(t, 0, "struct_item");
        let mut k: usize = 0;
        while k < ss.len()
            invariant
                t.wf(),
                ss@ == spec_find_all(*t, 0, "struct_item"@),
                forall|j: int| 0 <= j < ss@.len() ==> t.valid(#[trigger] ss@[j] as int),
                k <= ss@.len(),
                r.deep_view() == rust_structs_of(*t, ss@.take(k as int)),
            decreases ss@.len() - k,
        {
            match self.extract_struct(t, ss[k]) {
                Some(x) => {
                    r.push(x);
                },
                None => {},
            }
            proof {
                assert(ss@.take(k + 1 as int).drop_last() =~= ss@.take(k as int));
                assert(ss@.take(k + 1 as int).last() == ss@[k as int]);
                assert(r.deep_view() =~~= rust_structs_of(*t, ss@.take(k + 1 as int)));
            }
            k = k + 1;
        }
        let es = NodeHelper::find_all(t, 0, "enum_item");
        let ghost base1 = r.deep_view();
        let mut k1: usize = 0;
        while k1 < es.len()
            invariant
                t.wf(),
                es@ == spec_find_all(*t, 0, "enum_item"@),
                forall|j: int| 0 <= j < es@.len() ==> t.valid(#[trigger] es@[j] as int),
                k1 <= es@.len(),
                r.deep_view() == base1 + rust_enums_of(*t, es@.take(k1 as int)),
            decreases es@.len() - k1,
        {
            let ghost preE = rust_enums_of(*t, es@.take(k1 as int));
            match self.extract_enum(t, es[k1]) {
                Some(x) => {
                    r.push(x);
                },
                None => {},
            }
            proof {
                assert(es@.take(k1 + 1 as int).drop_last() =~= es@.take(k1 as int));
                assert(es@.take(k1 + 1 as int).last() == es@[k1 as int]);
                crate::strutil::seq_assoc(
                    base1,
                    preE,
                    rust_enum_record(*t, es@[k1 as int] as int),
                );
                assert(r.deep_view() =~~= (base1 + preE) + rust_enum_record(
                    *t,
                    es@[k1 as int] as int,
                ));
                assert(r.deep_view() =~~= base1 + rust_enums_of(*t, es@.take(k1 + 1 as int)));
            }
            k1 = k1 + 1;
        }
        let ts = NodeHelper::find_all(t, 0, "trait_item");
        let ghost base2 = r.deep_view();
        let mut k2: usize = 0;
        while k2 < ts.len()
            invariant
                t.wf(),
                ts@ == spec_find_all(*t, 0, "trait_item"@),
                forall|j: int| 0 <= j < ts@.len() ==> t.valid(#[trigger] ts@[j] as int),
                k2 <= ts@.len(),
                r.deep_view() == base2 + rust_traits_of(*t, ts@.take(k2 as int)),
            decreases ts@.len() - k2,
        {
            let ghost preT = rust_traits_of(*t, ts@.take(k2 as int));
            match self.extract_trait(t, ts[k2]) {
                Some(x) => {
                    r.push(x);
                },
                None => {},
            }
            proof {
                assert(ts@.take(k2 + 1 as int).drop_last() =~= ts@.take(k2 as int));
                assert(ts@.take(k2 + 1 as int).last() == ts@[k2 as int]);
                crate::strutil::seq_assoc(
                    base2,
                    preT,
                    rust_trait_record(*t, ts@[k2 as int] as int),
                );
                assert(r.deep_view() =~~= (base2 + preT) + rust_trait_record(
                    *t,
                    ts@[k2 as int] as int,
                ));
                assert(r.deep_view() =~~= base2 + rust_traits_of(*t, ts@.take(k2 + 1 as int)));
            }
            k2 = k2 + 1;
        }
        let als = NodeHelper::find_all(t, 0, "type_item");
        let ghost base3 = r.deep_view();
        let mut k3: usize = 0;
        while k3 < als.len()
            invariant
                t.wf(),
                als@ == spec_find_all(*t, 0, "type_item"@),
                forall|j: int| 0 <= j < als@.len() ==> t.valid(#[trigger] als@[j] as int),
                k3 <= als@.len(),
                r.deep_view() == base3 + rust_aliases_of(*t, als@.take(k3 as int)),
            decreases als@.len() - k3,
        {
            let ghost preA = rust_aliases_of(*t, als@.take(k3 as int));
            match self.extract_type_alias(t, als[k3]) {
                Some(x) => {
                    r.push(x);
                },
                None => {},
            }
            proof {
                assert(als@.take(k3 + 1 as int).drop_last() =~= als@.take(k3 as int));
                assert(als@.take(k3 + 1 as int).last() == als@[k3 as int]);
                crate::strutil::seq_assoc(
                    base3,
                    preA,
                    rust_alias_record(*t, als@[k3 as int] as int),
                );
                assert(r.deep_view() =~~= (base3 + preA) + rust_alias_record(
                    *t,
                    als@[k3 as int] as int,
                ));
                assert(r.deep_view() =~~= base3 + rust_aliases_of(
                    *t,
                    als@.take(k3 + 1 as int),
                ));
            }
            k3 = k3 + 1;
        }
        proof {
            assert(ss@.take(ss@.len() as int) =~= ss@);
            assert(es@.take(es@.len() as int) =~= es@);
            assert(ts@.take(ts@.len() as int) =~= ts@);
            assert(als@.take(als@.len() as int) =~= als@);
        }
        r
    }

    fn extract_func_spec(&self, t: &SyntaxTree, f: usize, receiver: Option<String>)
        -> (r: Option<FuncSpec>)
        requires
            t.wf(),
            t.valid(f as int),
        ensures
            match r {
                Some(x) => rust_fn_record(*t, f as int, receiver.deep_view())
                    =~~= seq![x.deep_view()],
                None => rust_fn_record(*t, f as int, receiver.deep_view())
                    =~~= Seq::<FuncSpecV>::empty(),
            },
    {
        let nm = match NodeHelper::field(t, f, "name") {
            None => {
                return None;
            },
            Some(nm) => nm,
        };
        let params = match NodeHelper::field_text(t, f, "parameters") {
            Some(p) => p,
            None => "()".to_owned(),
        };
        let ret = match NodeHelper::child_by_kind(t, f, "return_type") {
            Some(rt) => {
                let mut s = " -> ".to_owned();
                let txt = NodeHelper::text(t, rt);
                s.append(txt.as_str());
                s
            },
            None => String::new(),
        };
        let tp = match NodeHelper::child_by_kind(t, f, "type_parameters") {
            Some(ps) => NodeHelper::text(t, ps),
            None => String::new(),
        };
        let mut sig = "fn ".to_owned();
        let name = NodeHelper::text(t, nm);
        sig.append(name.as_str());
        sig.append(tp.as_str());
        sig.append(params.as_str());
        sig.append(ret.as_str());
        let doc = NodeHelper::preceding_comment(t, f);
        let x = FuncSpec {
            signature: sig,
            doc,
            receiver,
            uses: Vec::new(),
            behavior: None,
            tests: None,
        };
        proof {
            assert(rust_fn_record(*t, f as int, x.receiver.deep_view()) =~~= seq![
                x.deep_view(),
            ]);
        }
        Some(x)
    }

    fn is_inside_impl(&self, t: &SyntaxTree, node: usize) -> (r: bool)
        requires
            t.wf(),
            t.valid(node as int),
        ensures
            r == spec_inside_kind(*t, node as int, "impl_item"@),
    {
        NodeHelper::inside_kind(t, node, "impl_item")
    }

    fn extract_functions(&self, t: &SyntaxTree) -> (r: Vec<FuncSpec>)
        requires
            t.wf(),
        ensures
            r.deep_view() == rust_functions(*t),
    {
        let ns = NodeHelper::find_all(t, 0, "function_item");
        let mut r: Vec<FuncSpec> = Vec::new();
        let mut k: usize = 0;
        while k < ns.len()
            invariant
                t.wf(),
                ns@ == spec_find_all(*t, 0, "function_item"@),
                forall|j: int| 0 <= j < ns@.len() ==> t.valid(#[trigger] ns@[j] as int),
                k <= ns@.len(),
                r.deep_view() == rust_funcs_of(*t, ns@.take(k as int)),
            decreases ns@.len() - k,
        {
            if !self.is_inside_impl(t, ns[k]) {
                match self.extract_func_spec(t, ns[k], None) {
                    Some(x) => {
                        r.push(x);
                    },
                    None => {},
                }
            }
            proof {
                assert(ns@.take(k + 1 as int).drop_last() =~= ns@.take(k as int));
                assert(ns@.take(k + 1 as int).last() == ns@[k as int]);
                assert(r.deep_view() =~~= rust_funcs_of(*t, ns@.take(k + 1 as int)));
            }
            k = k + 1;
        }
        proof {
            assert(ns@.take(ns@.len() as int) =~= ns@);
        }
        r
    }

    fn get_impl_type(&self, t: &SyntaxTree, im: usize) -> (r: Option<String>)
        requires
            t.wf(),
            t.valid(im as int),
        ensures
            r.deep_view() == spec_field_text(*t, im as int, "type"@),
    {
        NodeHelper::field_text(t, im, "type")
    }

    fn extract_methods(&self, t: &SyntaxTree) -> (r: Vec<FuncSpec>)
        requires
            t.wf(),
        ensures
            r.deep_view() == rust_methods(*t),
    {
        let ims = NodeHelper::find_all(t, 0, "impl_item");
        let mut r: Vec<FuncSpec> = Vec::new();
        let mut k: usize = 0;
        while k < ims.len()
            invariant
                t.wf(),
                ims@ == spec_find_all(*t, 0, "impl_item"@),
                forall|j: int| 0 <= j < ims@.len() ==> t.valid(#[trigger] ims@[j] as int),
                k <= ims@.len(),
                r.deep_view() == rust_methods_of(*t, ims@.take(k as int)),
            decreases ims@.len() - k,
        {
            let im = ims[k];
            let ghost pre = r.deep_view();
            let receiver = self.get_impl_type(t, im);
            match NodeHelper::child_by_kind(t, im, "declaration_list") {
                Some(b) => {
                    let fs = NodeHelper::find_all(t, b, "function_item");
                    let mut j: usize = 0;
                    while j < fs.len()
                        invariant
                            t.wf(),
                            t.valid(im as int),
                            fs@ == spec_find_all(*t, b as int, "function_item"@),
                            forall|x: int|
                                0 <= x < fs@.len() ==> t.valid(#[trigger] fs@[x] as int),
                            j <= fs@.len(),
                            receiver.deep_view() == spec_field_text(*t, im as int, "type"@),
                            r.deep_view() == pre + rust_impl_fns_of(
                                *t,
                                fs@.take(j as int),
                                spec_field_text(*t, im as int, "type"@),
                            ),
                        decreases fs@.len() - j,
                    {
                        let ghost preF = rust_impl_fns_of(
                            *t,
                            fs@.take(j as int),
                            spec_field_text(*t, im as int, "type"@),
                        );
                        match self.extract_func_spec(t, fs[j], clone_opt_string(&receiver)) {
                            Some(x) => {
                                r.push(x);
                            },
                            None => {},
                        }
                        proof {
                            assert(fs@.take(j + 1 as int).drop_last() =~= fs@.take(j as int));
                            assert(fs@.take(j + 1 as int).last() == fs@[j as int]);
                            crate::strutil::seq_assoc(
                                pre,
                                preF,
                                rust_fn_record(
                                    *t,
                                    fs@[j as int] as int,
                                    spec_field_text(*t, im as int, "type"@),
                                ),
                            );
                            assert(r.deep_view() =~~= (pre + preF) + rust_fn_record(
                                *t,
                                fs@[j as int] as int,
                                spec_field_text(*t, im as int, "type"@),
                            ));
                            assert(r.deep_view() =~~= pre + rust_impl_fns_of(
                                *t,
                                fs@.take(j + 1 as int),
                                spec_field_text(*t, im as int, "type"@),
                            ));
                        }
                        j = j + 1;
                    }
                    proof {
                        assert(fs@.take(fs@.len() as int) =~= fs@);
                    }
                },
                None => {},
            }
            proof {
                assert(ims@.take(k + 1 as int).drop_last() =~= ims@.take(k as int));
                assert(ims@.take(k + 1 as int).last() == ims@[k as int]);
                assert(r.deep_view() =~~= rust_methods_of(*t, ims@.take(k + 1 as int)));
            }
            k = k + 1;
        }
        proof {
            assert(ims@.take(ims@.len() as int) =~= ims@);
        }
        r
    }

    fn extract_constants(&self, t: &SyntaxTree) -> (r: Vec<ConstSpec>)
        requires
            t.wf(),
        ensures
            r.deep_view() == rust_constants(*t),
    {
        let ns = NodeHelper::find_all(t, 0, "const_item");
        let mut r: Vec<ConstSpec> = Vec::new();
        let mut k: usize = 0;
        while k < ns.len()
            invariant
                t.wf(),
                ns@ == spec_find_all(*t, 0, "const_item"@),
                forall|j: int| 0 <= j < ns@.len() ==> t.valid(#[trigger] ns@[j] as int),
                k <= ns@.len(),
                r.deep_view() == rust_consts_of(*t, ns@.take(k as int)),
            decreases ns@.len() - k,
        {
            let c = ns[k];
            match NodeHelper::field(t, c, "name") {
                Some(nm) => {
                    let x = ConstSpec {
                        name: NodeHelper::text(t, nm),
                        ty_name: NodeHelper::field_text(t, c, "type"),
                        value: NodeHelper::field_text(t, c, "value"),
                        doc: NodeHelper::preceding_comment(t, c),
                    };
                    r.push(x);
                },
                None => {},
            }
            proof {
                assert(ns@.take(k + 1 as int).drop_last() =~= ns@.take(k as int));
                assert(ns@.take(k + 1 as int).last() == ns@[k as int]);
                assert(r.deep_view() =~~= rust_consts_of(*t, ns@.take(k + 1 as int)));
            }
            k = k + 1;
        }
        proof {
            assert(ns@.take(ns@.len() as int) =~= ns@);
        }
        r
    }

    fn extract_statics(&self, t: &SyntaxTree) -> (r: Vec<VarSpec>)
        requires
            t.wf(),
        ensures
            r.deep_view() == rust_statics(*t),
    {
        let ns = NodeHelper::find_all(t, 0, "static_item");
        let mut r: Vec<VarSpec> = Vec::new();
        let mut k: usize = 0;
        while k < ns.len()
            invariant
                t.wf(),
                ns@ == spec_find_all(*t, 0, "static_item"@),
                forall|j: int| 0 <= j < ns@.len() ==> t.valid(#[trigger] ns@[j] as int),
                k <= ns@.len(),
                r.deep_view() == rust_statics_of(*t, ns@.take(k as int)),
            decreases ns@.len() - k,
        {
            let c = ns[k];
            match NodeHelper::field(t, c, "name") {
                Some(nm) => {
                    let x = VarSpec {
                        name: NodeHelper::text(t, nm),
                        ty_name: NodeHelper::field_text(t, c, "type"),
                        doc: NodeHelper::preceding_comment(t, c),
                    };
                    r.push(x);
                },
                None => {},
            }
            proof {
                assert(ns@.take(k + 1 as int).drop_last() =~= ns@.take(k as int));
                assert(ns@.take(k + 1 as int).last() == ns@[k as int]);
                assert(r.deep_view() =~~= rust_statics_of(*t, ns@.take(k + 1 as int)));
            }
            k = k + 1;
        }
        proof {
            assert(ns@.take(ns@.len() as int) =~= ns@);
        }
        r
    }

    /// Extraction is a pure function of the source text and the path:
    /// on success the record is exactly [`rust_file_record`] of the
    /// parsed tree, and the only failure is the grammar failing to
    /// produce a tree.
    pub(crate) fn extract_file(&self, source: &str, path: &str) -> (r: Result<
        FileSpec,
        ExtractError,
    >)
        ensures
            match r {
                Ok(spec) => rust_parse(source@) is Some && spec.deep_view()
                    == rust_file_record(rust_parse(source@)->0, path@),
                Err(e) => rust_parse(source@) is None && e == ExtractError::ParseFailure,
            },
    {
        match exec_rust_parse(source) {
            None => Err(ExtractError::ParseFailure),
            Some(tree) => {
                let spec = FileSpec {
                    file: path.to_owned(),
                    package: self.extract_module(path),
                    imports: self.extract_uses(&tree),
                    types: self.extract_types(&tree),
                    functions: self.extract_functions(&tree),
                    methods: self.extract_methods(&tree),
                    constants: self.extract_constants(&tree),
                    variables: self.extract_statics(&tree),
                    errors: Vec::new(),
                };
                proof {
                    assert(spec.deep_view() =~~= rust_file_record(tree, path@));
                }
                Ok(spec)
            },
        }
    }
}

impl Default for RustPlugin {
    fn default() -> (r: Self) {
        RustPlugin
    }
}

} // verus!
