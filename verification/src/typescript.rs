//! Extraction for TypeScript source files.
//!
//! Interfaces and classes carry their members in the type record; the
//! file-level method list stays empty.  Arrow functions bound by
//! `const` count as functions; other `const` declarators are constants
//! and `let` declarators are variables.  A `.tsx` file is parsed with
//! the TSX grammar, everything else with the plain grammar.

use vstd::prelude::*;
use vstd::string::StringExecFns;

use crate::strutil::str_eq_local;
use crate::parse::{exec_ts_parse, exec_tsx_parse, ts_parse, tsx_parse};
use crate::paths::{module_name_of, spec_extension, spec_file_stem};
use crate::records::{
    ConstSpec, ConstSpecV, ExtractError, FileSpec, FileSpecV, FuncSpec, FuncSpecV, TypeSpec,
    TypeSpecV, VarSpec, VarSpecV,
};
use crate::strutil::{
    from_chars, join_sep_exec, spec_join_sep, spec_trim_matches, to_chars, trim_matches_char,
};
use crate::tree::{
    children_of, kind_of, spec_child_by_kind, spec_children_by_kind, spec_field,
    spec_field_text, spec_find_all, spec_inside_kind, spec_preceding_comment,
    spec_prev_sibling, text_of, NodeHelper, SyntaxTree,
};

verus! {

/// The fallback module name: the file's stem, or `unknown`.
pub open spec fn ts_module(path: Seq<char>) -> Seq<char> {
    match spec_file_stem(path) {
        Some(s) => s,
        None => "unknown"@,
    }
}

/// What one `import_statement` contributes: its source string with
/// double then single quotes stripped.
pub open spec fn ts_import_entry(t: SyntaxTree, i: int) -> Seq<Seq<char>> {
    match spec_field(t, i, "source"@) {
        Some(s) => seq![
            spec_trim_matches(spec_trim_matches(text_of(t, s as int), '"'), '\''),
        ],
        None => Seq::empty(),
    }
}

pub open spec fn ts_imports_of(t: SyntaxTree, ns: Seq<usize>) -> Seq<Seq<char>>
    decreases ns.len(),
{
    if ns.len() == 0 {
        Seq::empty()
    } else {
        ts_imports_of(t, ns.drop_last()) + ts_import_entry(t, ns.last() as int)
    }
}

/// Every imported path in the file, in source order.
pub open spec fn ts_imports(t: SyntaxTree) -> Seq<Seq<char>> {
    ts_imports_of(t, spec_find_all(t, 0, "import_statement"@))
}

/// One type-parameter-list child's entry.
pub open spec fn ts_tp_entry(t: SyntaxTree, c: int) -> Seq<Seq<char>> {
    if kind_of(t, c) == "type_parameter"@ {
        seq![text_of(t, c)]
    } else {
        Seq::empty()
    }
}

pub open spec fn ts_tps_of(t: SyntaxTree, cs: Seq<usize>) -> Seq<Seq<char>>
    decreases cs.len(),
{
    if cs.len() == 0 {
        Seq::empty()
    } else {
        ts_tps_of(t, cs.drop_last()) + ts_tp_entry(t, cs.last() as int)
    }
}

/// The type parameters of a declaration.
pub open spec fn ts_tps(t: SyntaxTree, node: int) -> Seq<Seq<char>> {
    match spec_child_by_kind(t, node, "type_parameters"@) {
        None => Seq::empty(),
        Some(ps) => ts_tps_of(t, children_of(t, ps as int)),
    }
}

/// One extends-clause child's entry, for interfaces.
pub open spec fn ts_extend_entry(t: SyntaxTree, c: int) -> Seq<Seq<char>> {
    if kind_of(t, c) == "type_identifier"@ || kind_of(t, c) == "generic_type"@ {
        seq![text_of(t, c)]
    } else {
        Seq::empty()
    }
}

pub open spec fn ts_extends_of(t: SyntaxTree, cs: Seq<usize>) -> Seq<Seq<char>>
    decreases cs.len(),
{
    if cs.len() == 0 {
        Seq::empty()
    } else {
        ts_extends_of(t, cs.drop_last()) + ts_extend_entry(t, cs.last() as int)
    }
}

/// The types an interface extends.
pub open spec fn ts_iface_embeds(t: SyntaxTree, node: int) -> Seq<Seq<char>> {
    match spec_child_by_kind(t, node, "extends_clause"@) {
        None => Seq::empty(),
        Some(h) => ts_extends_of(t, children_of(t, h as int)),
    }
}

/// One interface-body member's field entry: a property signature as
/// `name` with its type annotation appended when present.
pub open spec fn ts_prop_entry(t: SyntaxTree, c: int) -> Seq<Seq<char>> {
    if kind_of(t, c) == "property_signature"@ {
        match spec_field(t, c, "name"@) {
            None => Seq::empty(),
            Some(n) => {
                let ann = match spec_child_by_kind(t, c, "type_annotation"@) {
                    Some(a) => text_of(t, a as int),
                    None => Seq::empty(),
                };
                seq![text_of(t, n as int) + ann]
            },
        }
    } else {
        Seq::empty()
    }
}

/// One interface-body member's method entry: a method signature as
/// `name(params) ann`; property signatures take priority and contribute
/// nothing here.
pub open spec fn ts_msig_entry(t: SyntaxTree, c: int) -> Seq<Seq<char>> {
    if kind_of(t, c) == "property_signature"@ {
        Seq::empty()
    } else if kind_of(t, c) == "method_signature"@ {
        match spec_field(t, c, "name"@) {
            None => Seq::empty(),
            Some(n) => {
                let params = match spec_field_text(t, c, "parameters"@) {
                    Some(p) => p,
                    None => "()"@,
                };
                let ann = match spec_child_by_kind(t, c, "type_annotation"@) {
                    Some(a) => text_of(t, a as int),
                    None => Seq::empty(),
                };
                seq![text_of(t, n as int) + params + ann]
            },
        }
    } else {
        Seq::empty()
    }
}

pub open spec fn ts_props_of(t: SyntaxTree, cs: Seq<usize>) -> Seq<Seq<char>>
    decreases cs.len(),
{
    if cs.len() == 0 {
        Seq::empty()
    } else {
        ts_props_of(t, cs.drop_last()) + ts_prop_entry(t, cs.last() as int)
    }
}

pub open spec fn ts_msigs_of(t: SyntaxTree, cs: Seq<usize>) -> Seq<Seq<char>>
    decreases cs.len(),
{
    if cs.len() == 0 {
        Seq::empty()
    } else {
        ts_msigs_of(t, cs.drop_last()) + ts_msig_entry(t, cs.last() as int)
    }
}

/// The body node of an interface: an `object_type` child, or an
/// `interface_body` child for older grammars.
pub open spec fn ts_iface_body(t: SyntaxTree, node: int) -> Option<usize> {
    match spec_child_by_kind(t, node, "object_type"@) {
        Some(b) => Some(b),
        None => spec_child_by_kind(t, node, "interface_body"@),
    }
}

/// The record of one `interface_declaration`; nothing without a name.
pub open spec fn ts_iface_record(t: SyntaxTree, node: int) -> Seq<TypeSpecV> {
    match spec_field(t, node, "name"@) {
        None => Seq::empty(),
        Some(nm) => {
            let cs = match ts_iface_body(t, node) {
                Some(b) => children_of(t, b as int),
                None => Seq::empty(),
            };
            seq![
                TypeSpecV {
                    name: text_of(t, nm as int) + " interface"@,
                    doc: spec_preceding_comment(t, node),
                    kind: "interface"@,
                    fields: ts_props_of(t, cs),
                    methods: ts_msigs_of(t, cs),
                    embeds: ts_iface_embeds(t, node),
                    implements: None,
                    implemented_by: Seq::empty(),
                    type_params: ts_tps(t, node),
                    variants: Seq::empty(),
                },
            ]
        },
    }
}

/// One class-heritage child's contribution to the extended types: the
/// second child of an `extends_clause`.
pub open spec fn ts_class_extend_entry(t: SyntaxTree, c: int) -> Seq<Seq<char>> {
    if kind_of(t, c) == "extends_clause"@ {
        let ch = children_of(t, c);
        if ch.len() > 1 {
            seq![text_of(t, ch[1] as int)]
        } else {
            Seq::empty()
        }
    } else {
        Seq::empty()
    }
}

pub open spec fn ts_class_extends_of(t: SyntaxTree, cs: Seq<usize>) -> Seq<Seq<char>>
    decreases cs.len(),
{
    if cs.len() == 0 {
        Seq::empty()
    } else {
        ts_class_extends_of(t, cs.drop_last()) + ts_class_extend_entry(t, cs.last() as int)
    }
}

/// The implemented types an `implements_clause` names.
pub open spec fn ts_impl_types_of(t: SyntaxTree, cs: Seq<usize>) -> Seq<Seq<char>>
    decreases cs.len(),
{
    if cs.len() == 0 {
        Seq::empty()
    } else {
        ts_impl_types_of(t, cs.drop_last()) + ts_extend_entry(t, cs.last() as int)
    }
}

/// One class-heritage child applied to the `implements` slot: a clause
/// naming at least one type replaces it.
pub open spec fn ts_impl_step(t: SyntaxTree, c: int, cur: Option<Seq<char>>)
    -> Option<Seq<char>> {
    if kind_of(t, c) == "implements_clause"@ {
        let tys = ts_impl_types_of(t, children_of(t, c));
        if tys.len() > 0 {
            Some(spec_join_sep(tys, ", "@))
        } else {
            cur
        }
    } else {
        cur
    }
}

pub open spec fn ts_impl_fold(t: SyntaxTree, cs: Seq<usize>, cur: Option<Seq<char>>)
    -> Option<Seq<char>>
    decreases cs.len(),
{
    if cs.len() == 0 {
        cur
    } else {
        ts_impl_fold(t, cs.skip(1), ts_impl_step(t, cs[0] as int, cur))
    }
}

/// The heritage children of a class declaration.
pub open spec fn ts_heritage_children(t: SyntaxTree, node: int) -> Seq<usize> {
    match spec_child_by_kind(t, node, "class_heritage"@) {
        None => Seq::empty(),
        Some(h) => children_of(t, h as int),
    }
}

/// One class-body member's field entry.
pub open spec fn ts_cfield_entry(t: SyntaxTree, c: int) -> Seq<Seq<char>> {
    if kind_of(t, c) == "public_field_definition"@ || kind_of(t, c)
        == "property_declaration"@ {
        match spec_field(t, c, "name"@) {
            None => Seq::empty(),
            Some(n) => {
                let ann = match spec_child_by_kind(t, c, "type_annotation"@) {
                    Some(a) => text_of(t, a as int),
                    None => Seq::empty(),
                };
                seq![text_of(t, n as int) + ann]
            },
        }
    } else {
        Seq::empty()
    }
}

/// One class-body member's method entry; field kinds take priority and
/// contribute nothing here.
pub open spec fn ts_cmethod_entry(t: SyntaxTree, c: int) -> Seq<Seq<char>> {
    if kind_of(t, c) == "public_field_definition"@ || kind_of(t, c)
        == "property_declaration"@ {
        Seq::empty()
    } else if kind_of(t, c) == "method_definition"@ {
        match spec_field(t, c, "name"@) {
            None => Seq::empty(),
            Some(n) => {
                let params = match spec_field_text(t, c, "parameters"@) {
                    Some(p) => p,
                    None => "()"@,
                };
                let ann = match spec_child_by_kind(t, c, "type_annotation"@) {
                    Some(a) => text_of(t, a as int),
                    None => Seq::empty(),
                };
                seq![text_of(t, n as int) + params + ann]
            },
        }
    } else {
        Seq::empty()
    }
}

pub open spec fn ts_cfields_of(t: SyntaxTree, cs: Seq<usize>) -> Seq<Seq<char>>
    decreases cs.len(),
{
    if cs.len() == 0 {
        Seq::empty()
    } else {
        ts_cfields_of(t, cs.drop_last()) + ts_cfield_entry(t, cs.last() as int)
    }
}

pub open spec fn ts_cmethods_of(t: SyntaxTree, cs: Seq<usize>) -> Seq<Seq<char>>
    decreases cs.len(),
{
    if cs.len() == 0 {
        Seq::empty()
    } else {
        ts_cmethods_of(t, cs.drop_last()) + ts_cmethod_entry(t, cs.last() as int)
    }
}

/// The children of a class body, when it has one.
pub open spec fn ts_class_body_children(t: SyntaxTree, node: int) -> Seq<usize> {
    match spec_child_by_kind(t, node, "class_body"@) {
        None => Seq::empty(),
        Some(b) => children_of(t, b as int),
    }
}

/// The record of one `class_declaration`; nothing without a name.
pub open spec fn ts_class_record(t: SyntaxTree, node: int) -> Seq<TypeSpecV> {
    match spec_field(t, node, "name"@) {
        None => Seq::empty(),
        Some(nm) => {
            let hs = ts_heritage_children(t, node);
            let bs = ts_class_body_children(t, node);
            seq![
                TypeSpecV {
                    name: text_of(t, nm as int) + " class"@,
                    doc: spec_preceding_comment(t, node),
                    kind: "class"@,
                    fields: ts_cfields_of(t, bs),
                    methods: ts_cmethods_of(t, bs),
                    embeds: ts_class_extends_of(t, hs),
                    implements: ts_impl_fold(t, hs, None),
                    implemented_by: Seq::empty(),
                    type_params: ts_tps(t, node),
                    variants: Seq::empty(),
                },
            ]
        },
    }
}

/// The record of one `type_alias_declaration`; nothing without a name.
pub open spec fn ts_alias_record(t: SyntaxTree, node: int) -> Seq<TypeSpecV> {
    match spec_field(t, node, "name"@) {
        None => Seq::empty(),
        Some(nm) => seq![
            TypeSpecV {
                name: text_of(t, nm as int) + " type"@,
                doc: spec_preceding_comment(t, node),
                kind: "type_alias"@,
                fields: Seq::empty(),
                methods: Seq::empty(),
                embeds: Seq::empty(),
                implements: None,
                implemented_by: Seq::empty(),
                type_params: ts_tps(t, node),
                variants: Seq::empty(),
            },
        ],
    }
}

/// One enum-body child's variant entry.
pub open spec fn ts_variant_entry(t: SyntaxTree, c: int) -> Seq<Seq<char>> {
    if kind_of(t, c) == "property_identifier"@ || kind_of(t, c) == "enum_assignment"@ {
        seq![text_of(t, c)]
    } else {
        Seq::empty()
    }
}

pub open spec fn ts_variants_of(t: SyntaxTree, cs: Seq<usize>) -> Seq<Seq<char>>
    decreases cs.len(),
{
    if cs.len() == 0 {
        Seq::empty()
    } else {
        ts_variants_of(t, cs.drop_last()) + ts_variant_entry(t, cs.last() as int)
    }
}

/// The record of one `enum_declaration`; nothing without a name.
pub open spec fn ts_enum_record(t: SyntaxTree, node: int) -> Seq<TypeSpecV> {
    match spec_field(t, node, "name"@) {
        None => Seq::empty(),
        Some(nm) => {
            let cs = match spec_child_by_kind(t, node, "enum_body"@) {
                None => Seq::empty(),
                Some(b) => children_of(t, b as int),
            };
            seq![
                TypeSpecV {
                    name: text_of(t, nm as int) + " enum"@,
                    doc: spec_preceding_comment(t, node),
                    kind: "enum"@,
                    fields: Seq::empty(),
                    methods: Seq::empty(),
                    embeds: Seq::empty(),
                    implements: None,
                    implemented_by: Seq::empty(),
                    type_params: Seq::empty(),
                    variants: ts_variants_of(t, cs),
                },
            ]
        },
    }
}

pub open spec fn ts_ifaces_of(t: SyntaxTree, ns: Seq<usize>) -> Seq<TypeSpecV>
    decreases ns.len(),
{
    if ns.len() == 0 {
        Seq::empty()
    } else {
        ts_ifaces_of(t, ns.drop_last()) + ts_iface_record(t, ns.last() as int)
    }
}

pub open spec fn ts_classes_of(t: SyntaxTree, ns: Seq<usize>) -> Seq<TypeSpecV>
    decreases ns.len(),
{
    if ns.len() == 0 {
        Seq::empty()
    } else {
        ts_classes_of(t, ns.drop_last()) + ts_class_record(t, ns.last() as int)
    }
}

pub open spec fn ts_aliases_of(t: SyntaxTree, ns: Seq<usize>) -> Seq<TypeSpecV>
    decreases ns.len(),
{
    if ns.len() == 0 {
        Seq::empty()
    } else {
        ts_aliases_of(t, ns.drop_last()) + ts_alias_record(t, ns.last() as int)
    }
}

pub open spec fn ts_enums_of(t: SyntaxTree, ns: Seq<usize>) -> Seq<TypeSpecV>
    decreases ns.len(),
{
    if ns.len() == 0 {
        Seq::empty()
    } else {
        ts_enums_of(t, ns.drop_last()) + ts_enum_record(t, ns.last() as int)
    }
}

/// Every type definition in the file: interfaces, then classes, then
/// aliases, then enums, each group in source order.
pub open spec fn ts_types(t: SyntaxTree) -> Seq<TypeSpecV> {
    ts_ifaces_of(t, spec_find_all(t, 0, "interface_declaration"@)) + ts_classes_of(
        t,
        spec_find_all(t, 0, "class_declaration"@),
    ) + ts_aliases_of(t, spec_find_all(t, 0, "type_alias_declaration"@)) + ts_enums_of(
        t,
        spec_find_all(t, 0, "enum_declaration"@),
    )
}

/// A node sits inside a class when an ancestor is a class declaration
/// or a class expression.
pub open spec fn ts_inside_class(t: SyntaxTree, i: int) -> bool {
    spec_inside_kind(t, i, "class_declaration"@) || spec_inside_kind(t, i, "class"@)
}

/// The record of one `function_declaration`,
/// `function name<tp>(params) ann`; nothing without a name, and
/// nothing inside a class.
pub open spec fn ts_func_record(t: SyntaxTree, f: int) -> Seq<FuncSpecV> {
    if ts_inside_class(t, f) {
        Seq::empty()
    } else {
        match spec_field(t, f, "name"@) {
            None => Seq::empty(),
            Some(nm) => {
                let params = match spec_field_text(t, f, "parameters"@) {
                    Some(p) => p,
                    None => "()"@,
                };
                let ann = match spec_child_by_kind(t, f, "type_annotation"@) {
                    Some(a) => text_of(t, a as int),
                    None => Seq::empty(),
                };
                let tp = match spec_child_by_kind(t, f, "type_parameters"@) {
                    Some(ps) => text_of(t, ps as int),
                    None => Seq::empty(),
                };
                seq![
                    FuncSpecV {
                        signature: "function "@ + text_of(t, nm as int) + tp + params + ann,
                        doc: spec_preceding_comment(t, f),
                        receiver: None,
                        uses: Seq::empty(),
                        behavior: None,
                        tests: None,
                    },
                ]
            },
        }
    }
}

pub open spec fn ts_funcs_of(t: SyntaxTree, ns: Seq<usize>) -> Seq<FuncSpecV>
    decreases ns.len(),
{
    if ns.len() == 0 {
        Seq::empty()
    } else {
        ts_funcs_of(t, ns.drop_last()) + ts_func_record(t, ns.last() as int)
    }
}

/// The formatted parameter list of an arrow function: its parameter
/// list text, or a single parameter wrapped in parentheses.
pub open spec fn ts_arrow_params(t: SyntaxTree, arrow: int) -> Seq<char> {
    match spec_field(t, arrow, "parameters"@) {
        Some(p) => {
            let txt = text_of(t, p as int);
            if txt.len() > 0 && txt[0] == '(' {
                txt
            } else {
                "("@ + txt + ")"@
            }
        },
        None => match spec_field(t, arrow, "parameter"@) {
            Some(p) => {
                let txt = text_of(t, p as int);
                if txt.len() > 0 && txt[0] == '(' {
                    txt
                } else {
                    "("@ + txt + ")"@
                }
            },
            None => "()"@,
        },
    }
}

/// The record of one `const name = (…) => …` declarator: named like a
/// constant, documented from the declaration it sits in.
pub open spec fn ts_arrow_record(t: SyntaxTree, decl: int, arrow: int) -> Seq<FuncSpecV> {
    match spec_field(t, decl, "name"@) {
        None => Seq::empty(),
        Some(nm) => {
            let ann = match spec_child_by_kind(t, arrow, "type_annotation"@) {
                Some(a) => text_of(t, a as int),
                None => Seq::empty(),
            };
            let doc = match t.nodes@[decl].parent {
                Some(p) => spec_preceding_comment(t, p as int),
                None => spec_preceding_comment(t, decl),
            };
            seq![
                FuncSpecV {
                    signature: "const "@ + text_of(t, nm as int) + " = "@ + ts_arrow_params(
                        t,
                        arrow,
                    ) + ann,
                    doc,
                    receiver: None,
                    uses: Seq::empty(),
                    behavior: None,
                    tests: None,
                },
            ]
        },
    }
}

/// What one declarator of a lexical declaration contributes to the
/// function list: an entry only when its value is an arrow function.
pub open spec fn ts_declarator_fn(t: SyntaxTree, dr: int) -> Seq<FuncSpecV> {
    match spec_field(t, dr, "value"@) {
        Some(v) => if kind_of(t, v as int) == "arrow_function"@ {
            ts_arrow_record(t, dr, v as int)
        } else {
            Seq::empty()
        },
        None => Seq::empty(),
    }
}

pub open spec fn ts_declarator_fns_of(t: SyntaxTree, drs: Seq<usize>) -> Seq<FuncSpecV>
    decreases drs.len(),
{
    if drs.len() == 0 {
        Seq::empty()
    } else {
        ts_declarator_fns_of(t, drs.drop_last()) + ts_declarator_fn(t, drs.last() as int)
    }
}

/// What one `lexical_declaration` contributes to the function list.
pub open spec fn ts_lexical_fns(t: SyntaxTree, d: int) -> Seq<FuncSpecV> {
    if ts_inside_class(t, d) {
        Seq::empty()
    } else {
        ts_declarator_fns_of(t, spec_children_by_kind(t, d, "variable_declarator"@))
    }
}

pub open spec fn ts_lexical_fns_of(t: SyntaxTree, ns: Seq<usize>) -> Seq<FuncSpecV>
    decreases ns.len(),
{
    if ns.len() == 0 {
        Seq::empty()
    } else {
        ts_lexical_fns_of(t, ns.drop_last()) + ts_lexical_fns(t, ns.last() as int)
    }
}

/// Every function in the file: declarations first, then arrow
/// functions bound by lexical declarations, each in source order.
pub open spec fn ts_functions(t: SyntaxTree) -> Seq<FuncSpecV> {
    ts_funcs_of(t, spec_find_all(t, 0, "function_declaration"@)) + ts_lexical_fns_of(
        t,
        spec_find_all(t, 0, "lexical_declaration"@),
    )
}

/// Whether a lexical declaration's first child reads as the given
/// keyword.
pub open spec fn ts_decl_keyword_is(t: SyntaxTree, d: int, kw: Seq<char>) -> bool {
    let ch = children_of(t, d);
    ch.len() > 0 && text_of(t, ch[0] as int) == kw
}

/// One declarator's constant entry: a named `const` whose value is not
/// an arrow function; the initializer text is kept as the value.
pub open spec fn ts_const_entry(t: SyntaxTree, dr: int, d: int) -> Seq<ConstSpecV> {
    match spec_field(t, dr, "name"@) {
        None => Seq::empty(),
        Some(nm) => {
            let value = spec_field(t, dr, "value"@);
            if match value {
                Some(v) => kind_of(t, v as int) == "arrow_function"@,
                None => false,
            } {
                Seq::empty()
            } else {
                seq![
                    ConstSpecV {
                        name: text_of(t, nm as int),
                        ty_name: match spec_child_by_kind(t, dr, "type_annotation"@) {
                            Some(a) => Some(text_of(t, a as int)),
                            None => None,
                        },
                        value: match value {
                            Some(v) => Some(text_of(t, v as int)),
                            None => None,
                        },
                        doc: spec_preceding_comment(t, d),
                    },
                ]
            }
        },
    }
}

pub open spec fn ts_const_entries_of(t: SyntaxTree, drs: Seq<usize>, d: int)
    -> Seq<ConstSpecV>
    decreases drs.len(),
{
    if drs.len() == 0 {
        Seq::empty()
    } else {
        ts_const_entries_of(t, drs.drop_last(), d) + ts_const_entry(t, drs.last() as int, d)
    }
}

/// What one `lexical_declaration` contributes to the constant list.
pub open spec fn ts_lexical_consts(t: SyntaxTree, d: int) -> Seq<ConstSpecV> {
    if ts_inside_class(t, d) || !ts_decl_keyword_is(t, d, "const"@) {
        Seq::empty()
    } else {
        ts_const_entries_of(t, spec_children_by_kind(t, d, "variable_declarator"@), d)
    }
}

pub open spec fn ts_consts_of(t: SyntaxTree, ns: Seq<usize>) -> Seq<ConstSpecV>
    decreases ns.len(),
{
    if ns.len() == 0 {
        Seq::empty()
    } else {
        ts_consts_of(t, ns.drop_last()) + ts_lexical_consts(t, ns.last() as int)
    }
}

/// Every module-level constant in the file, in source order.
pub open spec fn ts_constants(t: SyntaxTree) -> Seq<ConstSpecV> {
    ts_consts_of(t, spec_find_all(t, 0, "lexical_declaration"@))
}

/// One declarator's variable entry for a `let` declaration.
pub open spec fn ts_var_entry(t: SyntaxTree, dr: int, d: int) -> Seq<VarSpecV> {
    match spec_field(t, dr, "name"@) {
        None => Seq::empty(),
        Some(nm) => seq![
            VarSpecV {
                name: text_of(t, nm as int),
                ty_name: match spec_child_by_kind(t, dr, "type_annotation"@) {
                    Some(a) => Some(text_of(t, a as int)),
                    None => None,
                },
                doc: spec_preceding_comment(t, d),
            },
        ],
    }
}

pub open spec fn ts_var_entries_of(t: SyntaxTree, drs: Seq<usize>, d: int) -> Seq<VarSpecV>
    decreases drs.len(),
{
    if drs.len() == 0 {
        Seq::empty()
    } else {
        ts_var_entries_of(t, drs.drop_last(), d) + ts_var_entry(t, drs.last() as int, d)
    }
}

/// What one `lexical_declaration` contributes to the variable list.
pub open spec fn ts_lexical_vars(t: SyntaxTree, d: int) -> Seq<VarSpecV> {
    if ts_inside_class(t, d) || !ts_decl_keyword_is(t, d, "let"@) {
        Seq::empty()
    } else {
        ts_var_entries_of(t, spec_children_by_kind(t, d, "variable_declarator"@), d)
    }
}

pub open spec fn ts_vars_of(t: SyntaxTree, ns: Seq<usize>) -> Seq<VarSpecV>
    decreases ns.len(),
{
    if ns.len() == 0 {
        Seq::empty()
    } else {
        ts_vars_of(t, ns.drop_last()) + ts_lexical_vars(t, ns.last() as int)
    }
}

/// Every module-level `let` variable in the file, in source order.
pub open spec fn ts_variables(t: SyntaxTree) -> Seq<VarSpecV> {
    ts_vars_of(t, spec_find_all(t, 0, "lexical_declaration"@))
}

/// Everything the TypeScript module extracts from one parsed file.
pub open spec fn ts_file_record(t: SyntaxTree, path: Seq<char>) -> FileSpecV {
    FileSpecV {
        file: path,
        package: ts_module(path),
        imports: ts_imports(t),
        types: ts_types(t),
        functions: ts_functions(t),
        methods: Seq::empty(),
        constants: ts_constants(t),
        variables: ts_variables(t),
        errors: Seq::empty(),
    }
}

/// Whether a path selects the TSX grammar.
pub open spec fn ts_is_tsx(path: Seq<char>) -> bool {
    spec_extension(path) == Some("tsx"@)
}

/// What parsing the file yields: the TSX grammar for `.tsx` paths, the
/// plain TypeScript grammar otherwise.
pub open spec fn ts_parse_of(path: Seq<char>, source: Seq<char>) -> Option<SyntaxTree> {
    if ts_is_tsx(path) {
        tsx_parse(source)
    } else {
        ts_parse(source)
    }
}

/// Extraction for TypeScript source files.
#[derive(Clone, Copy, PartialEq, Eq, Structural, Debug)]
pub struct TypeScriptPlugin;

impl TypeScriptPlugin {
    pub fn new() -> (r: TypeScriptPlugin) {
        TypeScriptPlugin
    }

    fn extract_module(&self, path: &str) -> (r: String)
        ensures
            r@ == ts_module(path@),
    {
        module_name_of(path)
    }

    fn extract_imports(&self, t: &SyntaxTree) -> (r: Vec<String>)
        requires
            t.wf(),
        ensures
            r.deep_view() == ts_imports(*t),
    {
        let ns = NodeHelper::find_all(t, 0, "import_statement");
        let mut r: Vec<String> = Vec::new();
        let mut k: usize = 0;
        while k < ns.len()
            invariant
                t.wf(),
                ns@ == spec_find_all(*t, 0, "import_statement"@),
                forall|j: int| 0 <= j < ns@.len() ==> t.valid(#[trigger] ns@[j] as int),
                k <= ns@.len(),
                r.deep_view() == ts_imports_of(*t, ns@.take(k as int)),
            decreases ns@.len() - k,
        {
            match NodeHelper::field(t, ns[k], "source") {
                Some(s) => {
                    let txt = NodeHelper::text(t, s);
                    let chars = to_chars(txt.as_str());
                    let t1 = trim_matches_char(&chars, '"');
                    let t2 = trim_matches_char(&t1, '\'');
                    r.push(from_chars(&t2));
                },
                None => {},
            }
            proof {
                assert(ns@.take(k + 1 as int).drop_last() =~= ns@.take(k as int));
                assert(ns@.take(k + 1 as int).last() == ns@[k as int]);
                assert(r.deep_view() =~~= ts_imports_of(*t, ns@.take(k + 1 as int)));
            }
            k = k + 1;
        }
        proof {
            assert(ns@.take(ns@.len() as int) =~= ns@);
        }
        r
    }

    fn extract_type_params(&self, t: &SyntaxTree, node: usize) -> (r: Vec<String>)
        requires
            t.wf(),
            t.valid(node as int),
        ensures
            r.deep_view() == ts_tps(*t, node as int),
    {
        let mut r: Vec<String> = Vec::new();
        match NodeHelper::child_by_kind(t, node, "type_parameters") {
            None => {},
            Some(ps) => {
                proof {
                    assert(t.wf_node(ps as int));
                }
                let ghost cs = children_of(*t, ps as int);
                let nch = t.nodes[ps].children.len();
                let mut k: usize = 0;
                while k < nch
                    invariant
                        t.wf(),
                        t.valid(ps as int),
                        cs == children_of(*t, ps as int),
                        nch == cs.len(),
                        t.wf_node(ps as int),
                        k <= nch,
                        r.deep_view() == ts_tps_of(*t, cs.take(k as int)),
                    decreases nch - k,
                {
                    let c = t.nodes[ps].children[k];
                    if str_eq_local(&t.nodes[c].kind, "type_parameter") {
                        r.push(NodeHelper::text(t, c));
                    }
                    proof {
                        assert(cs.take(k + 1 as int).drop_last() =~= cs.take(k as int));
                        assert(cs.take(k + 1 as int).last() == cs[k as int]);
                        assert(r.deep_view() =~~= ts_tps_of(*t, cs.take(k + 1 as int)));
                    }
                    k = k + 1;
                }
                proof {
                    assert(cs.take(cs.len() as int) =~= cs);
                }
            },
        }
        r
    }

    /// The text of a node's `type_annotation` child, or nothing.
    fn annotation_of(&self, t: &SyntaxTree, node: usize) -> (r: String)
        requires
            t.wf(),
            t.valid(node as int),
        ensures
            r@ == match spec_child_by_kind(*t, node as int, "type_annotation"@) {
                Some(a) => text_of(*t, a as int),
                None => Seq::<char>::empty(),
            },
    {
        match NodeHelper::child_by_kind(t, node, "type_annotation") {
            Some(a) => NodeHelper::text(t, a),
            None => String::new(),
        }
    }

    fn extract_interface(&self, t: &SyntaxTree, node: usize) -> (r: Option<TypeSpec>)
        requires
            t.wf(),
            t.valid(node as int),
        ensures
            match r {
                Some(x) => ts_iface_record(*t, node as int) =~~= seq![x.deep_view()],
                None => ts_iface_record(*t, node as int) =~~= Seq::<TypeSpecV>::empty(),
            },
    {
        let nm = match NodeHelper::field(t, node, "name") {
            None => {
                return None;
            },
            Some(nm) => nm,
        };
        let doc = NodeHelper::preceding_comment(t, node);
        let type_params = self.extract_type_params(t, node);

        let mut embeds: Vec<String> = Vec::new();
        match NodeHelper::child_by_kind(t, node, "extends_clause") {
            None => {},
            Some(h) => {
                proof {
                    assert(t.wf_node(h as int));
                }
                let ghost cs = children_of(*t, h as int);
                let nch = t.nodes[h].children.len();
                let mut k: usize = 0;
                while k < nch
                    invariant
                        t.wf(),
                        t.valid(h as int),
                        cs == children_of(*t, h as int),
                        nch == cs.len(),
                        t.wf_node(h as int),
                        k <= nch,
                        embeds.deep_view() == ts_extends_of(*t, cs.take(k as int)),
                    decreases nch - k,
                {
                    let c = t.nodes[h].children[k];
                    if str_eq_local(&t.nodes[c].kind, "type_identifier") || str_eq_local(
                        &t.nodes[c].kind,
                        "generic_type",
                    ) {
                        embeds.push(NodeHelper::text(t, c));
                    }
                    proof {
                        assert(cs.take(k + 1 as int).drop_last() =~= cs.take(k as int));
                        assert(cs.take(k + 1 as int).last() == cs[k as int]);
                        assert(embeds.deep_view() =~~= ts_extends_of(*t, cs.take(k + 1 as int)));
                    }
                    k = k + 1;
                }
                proof {
                    assert(cs.take(cs.len() as int) =~= cs);
                }
            },
        }

        let mut fields: Vec<String> = Vec::new();
        let mut methods: Vec<String> = Vec::new();
        let body = match NodeHelper::child_by_kind(t, node, "object_type") {
            Some(b) => Some(b),
            None => NodeHelper::child_by_kind(t, node, "interface_body"),
        };
        match body {
            None => {},
            Some(b) => {
                proof {
                    assert(t.wf_node(b as int));
                }
                let ghost cs = children_of(*t, b as int);
                let nch = t.nodes[b].children.len();
                let mut k: usize = 0;
                while k < nch
                    invariant
                        t.wf(),
                        t.valid(b as int),
                        cs == children_of(*t, b as int),
                        nch == cs.len(),
                        t.wf_node(b as int),
                        k <= nch,
                        fields.deep_view() == ts_props_of(*t, cs.take(k as int)),
                        methods.deep_view() == ts_msigs_of(*t, cs.take(k as int)),
                    decreases nch - k,
                {
                    let c = t.nodes[b].children[k];
                    let is_prop = str_eq_local(&t.nodes[c].kind, "property_signature");
                    let is_meth = str_eq_local(&t.nodes[c].kind, "method_signature");
                    if is_prop {
                        match NodeHelper::field(t, c, "name") {
                            Some(n) => {
                                let mut e = NodeHelper::text(t, n);
                                let ann = self.annotation_of(t, c);
                                e.append(ann.as_str());
                                fields.push(e);
                            },
                            None => {},
                        }
                    } else if is_meth {
                        match NodeHelper::field(t, c, "name") {
                            Some(n) => {
                                let params = match NodeHelper::field_text(t, c, "parameters") {
                                    Some(p) => p,
                                    None => "()".to_owned(),
                                };
                                let ann = self.annotation_of(t, c);
                                let mut e = NodeHelper::text(t, n);
                                e.append(params.as_str());
                                e.append(ann.as_str());
                                methods.push(e);
                            },
                            None => {},
                        }
                    }
                    proof {
                        assert(cs.take(k + 1 as int).drop_last() =~= cs.take(k as int));
                        assert(cs.take(k + 1 as int).last() == cs[k as int]);
                        assert(fields.deep_view() =~~= ts_props_of(*t, cs.take(k + 1 as int)));
                        assert(methods.deep_view() =~~= ts_msigs_of(*t, cs.take(k + 1 as int)));
                    }
                    k = k + 1;
                }
                proof {
                    assert(cs.take(cs.len() as int) =~= cs);
                }
            },
        }

        let mut disp = NodeHelper::text(t, nm);
        disp.append(" interface");
        let x = TypeSpec {
            name: disp,
            doc,
            kind: "interface".to_owned(),
            fields,
            methods,
            embeds,
            implements: None,
            implemented_by: Vec::new(),
            type_params,
            variants: Vec::new(),
        };
        proof {
            assert(ts_iface_record(*t, node as int) =~~= seq![x.deep_view()]);
        }
        Some(x)
    }

    fn extract_class(&self, t: &SyntaxTree, node: usize) -> (r: Option<TypeSpec>)
        requires
            t.wf(),
            t.valid(node as int),
        ensures
            match r {
                Some(x) => ts_class_record(*t, node as int) =~~= seq![x.deep_view()],
                None => ts_class_record(*t, node as int) =~~= Seq::<TypeSpecV>::empty(),
            },
    {
        let nm = match NodeHelper::field(t, node, "name") {
            None => {
                return None;
            },
            Some(nm) => nm,
        };
        let doc = NodeHelper::preceding_comment(t, node);
        let type_params = self.extract_type_params(t, node);

        let mut embeds: Vec<String> = Vec::new();
        let mut implements: Option<String> = None;
        match NodeHelper::child_by_kind(t, node, "class_heritage") {
            None => {},
            Some(h) => {
                proof {
                    assert(t.wf_node(h as int));
                }
                let ghost cs = children_of(*t, h as int);
                let nch = t.nodes[h].children.len();
                let mut k: usize = 0;
                proof {
                    assert(cs.skip(0) =~= cs);
                }
                while k < nch
                    invariant
                        t.wf(),
                        t.valid(h as int),
                        cs == children_of(*t, h as int),
                        nch == cs.len(),
                        t.wf_node(h as int),
                        k <= nch,
                        embeds.deep_view() == ts_class_extends_of(*t, cs.take(k as int)),
                        ts_impl_fold(*t, cs.skip(k as int), implements.deep_view())
                            == ts_impl_fold(*t, cs, None),
                    decreases nch - k,
                {
                    let c = t.nodes[h].children[k];
                    let ghost impl_before = implements.deep_view();
                    let is_ext = str_eq_local(&t.nodes[c].kind, "extends_clause");
                    let is_impl = str_eq_local(&t.nodes[c].kind, "implements_clause");
                    if is_ext {
                        proof {
                            assert(t.wf_node(c as int));
                        }
                        if t.nodes[c].children.len() > 1 {
                            let ty = t.nodes[c].children[1];
                            embeds.push(NodeHelper::text(t, ty));
                        }
                    }
                    if is_impl {
                        proof {
                            assert(t.wf_node(c as int));
                        }
                        let ghost ics = children_of(*t, c as int);
                        let mut tys: Vec<String> = Vec::new();
                        let inch = t.nodes[c].children.len();
                        let mut j: usize = 0;
                        while j < inch
                            invariant
                                t.wf(),
                                t.valid(c as int),
                                ics == children_of(*t, c as int),
                                inch == ics.len(),
                                t.wf_node(c as int),
                                j <= inch,
                                tys.deep_view() == ts_impl_types_of(*t, ics.take(j as int)),
                            decreases inch - j,
                        {
                            let ic = t.nodes[c].children[j];
                            if str_eq_local(&t.nodes[ic].kind, "type_identifier")
                                || str_eq_local(&t.nodes[ic].kind, "generic_type") {
                                tys.push(NodeHelper::text(t, ic));
                            }
                            proof {
                                assert(ics.take(j + 1 as int).drop_last() =~= ics.take(
                                    j as int,
                                ));
                                assert(ics.take(j + 1 as int).last() == ics[j as int]);
                                assert(tys.deep_view() =~~= ts_impl_types_of(
                                    *t,
                                    ics.take(j + 1 as int),
                                ));
                            }
                            j = j + 1;
                        }
                        proof {
                            assert(ics.take(ics.len() as int) =~= ics);
                        }
                        if tys.len() > 0 {
                            implements = Some(join_sep_exec(&tys, ", "));
                        }
                    }
                    proof {
                        assert(cs.take(k + 1 as int).drop_last() =~= cs.take(k as int));
                        assert(cs.take(k + 1 as int).last() == cs[k as int]);
                        assert(embeds.deep_view() =~~= ts_class_extends_of(
                            *t,
                            cs.take(k + 1 as int),
                        ));
                        assert(implements.deep_view() == ts_impl_step(
                            *t,
                            c as int,
                            impl_before,
                        ));
                        assert(cs.skip(k as int)[0] == cs[k as int]);
                        assert(cs.skip(k as int).skip(1) =~= cs.skip(k + 1 as int));
                    }
                    k = k + 1;
                }
                proof {
                    assert(cs.take(cs.len() as int) =~= cs);
                    assert(cs.skip(cs.len() as int) =~= Seq::<usize>::empty());
                }
            },
        }

        let mut fields: Vec<String> = Vec::new();
        let mut methods: Vec<String> = Vec::new();
        match NodeHelper::child_by_kind(t, node, "class_body") {
            None => {},
            Some(b) => {
                proof {
                    assert(t.wf_node(b as int));
                }
                let ghost cs = children_of(*t, b as int);
                let nch = t.nodes[b].children.len();
                let mut k: usize = 0;
                while k < nch
                    invariant
                        t.wf(),
                        t.valid(b as int),
                        cs == children_of(*t, b as int),
                        nch == cs.len(),
                        t.wf_node(b as int),
                        k <= nch,
                        fields.deep_view() == ts_cfields_of(*t, cs.take(k as int)),
                        methods.deep_view() == ts_cmethods_of(*t, cs.take(k as int)),
                    decreases nch - k,
                {
                    let c = t.nodes[b].children[k];
                    let is_field = str_eq_local(&t.nodes[c].kind, "public_field_definition")
                        || str_eq_local(&t.nodes[c].kind, "property_declaration");
                    let is_meth = str_eq_local(&t.nodes[c].kind, "method_definition");
                    if is_field {
                        match NodeHelper::field(t, c, "name") {
                            Some(n) => {
                                let mut e = NodeHelper::text(t, n);
                                let ann = self.annotation_of(t, c);
                                e.append(ann.as_str());
                                fields.push(e);
                            },
                            None => {},
                        }
                    } else if is_meth {
                        match NodeHelper::field(t, c, "name") {
                            Some(n) => {
                                let params = match NodeHelper::field_text(t, c, "parameters") {
                                    Some(p) => p,
                                    None => "()".to_owned(),
                                };
                                let ann = self.annotation_of(t, c);
                                let mut e = NodeHelper::text(t, n);
                                e.append(params.as_str());
                                e.append(ann.as_str());
                                methods.push(e);
                            },
                            None => {},
                        }
                    }
                    proof {
                        assert(cs.take(k + 1 as int).drop_last() =~= cs.take(k as int));
                        assert(cs.take(k + 1 as int).last() == cs[k as int]);
                        assert(fields.deep_view() =~~= ts_cfields_of(*t, cs.take(k + 1 as int)));
                        assert(methods.deep_view() =~~= ts_cmethods_of(
                            *t,
                            cs.take(k + 1 as int),
                        ));
                    }
                    k = k + 1;
                }
                proof {
                    assert(cs.take(cs.len() as int) =~= cs);
                }
            },
        }

        let mut disp = NodeHelper::text(t, nm);
        disp.append(" class");
        let x = TypeSpec {
            name: disp,
            doc,
            kind: "class".to_owned(),
            fields,
            methods,
            embeds,
            implements,
            implemented_by: Vec::new(),
            type_params,
            variants: Vec::new(),
        };
        proof {
            assert(ts_class_record(*t, node as int) =~~= seq![x.deep_view()]);
        }
        Some(x)
    }

    fn extract_type_alias(&self, t: &SyntaxTree, node: usize) -> (r: Option<TypeSpec>)
        requires
            t.wf(),
            t.valid(node as int),
        ensures
            match r {
                Some(x) => ts_alias_record(*t, node as int) =~~= seq![x.deep_view()],
                None => ts_alias_record(*t, node as int) =~~= Seq::<TypeSpecV>::empty(),
            },
    {
        let nm = match NodeHelper::field(t, node, "name") {
            None => {
                return None;
            },
            Some(nm) => nm,
        };
        let doc = NodeHelper::preceding_comment(t, node);
        let type_params = self.extract_type_params(t, node);
        let mut disp = NodeHelper::text(t, nm);
        disp.append(" type");
        let x = TypeSpec {
            name: disp,
            doc,
            kind: "type_alias".to_owned(),
            fields: Vec::new(),
            methods: Vec::new(),
            embeds: Vec::new(),
            implements: None,
            implemented_by: Vec::new(),
            type_params,
            variants: Vec::new(),
        };
        proof {
            assert(ts_alias_record(*t, node as int) =~~= seq![x.deep_view()]);
        }
        Some(x)
    }

    fn extract_enum(&self, t: &SyntaxTree, node: usize) -> (r: Option<TypeSpec>)
        requires
            t.wf(),
            t.valid(node as int),
        ensures
            match r {
                Some(x) => ts_enum_record(*t, node as int) =~~= seq![x.deep_view()],
                None => ts_enum_record(*t, node as int) =~~= Seq::<TypeSpecV>::empty(),
            },
    {
        let nm = match NodeHelper::field(t, node, "name") {
            None => {
                return None;
            },
            Some(nm) => nm,
        };
        let doc = NodeHelper::preceding_comment(t, node);
        let mut variants: Vec<String> = Vec::new();
        match NodeHelper::child_by_kind(t, node, "enum_body") {
            None => {},
            Some(b) => {
                proof {
                    assert(t.wf_node(b as int));
                }
                let ghost cs = children_of(*t, b as int);
                let nch = t.nodes[b].children.len();
                let mut k: usize = 0;
                while k < nch
                    invariant
                        t.wf(),
                        t.valid(b as int),
                        cs == children_of(*t, b as int),
                        nch == cs.len(),
                        t.wf_node(b as int),
                        k <= nch,
                        variants.deep_view() == ts_variants_of(*t, cs.take(k as int)),
                    decreases nch - k,
                {
                    let c = t.nodes[b].children[k];
                    if str_eq_local(&t.nodes[c].kind, "property_identifier") || str_eq_local(
                        &t.nodes[c].kind,
                        "enum_assignment",
                    ) {
                        variants.push(NodeHelper::text(t, c));
                    }
                    proof {
                        assert(cs.take(k + 1 as int).drop_last() =~= cs.take(k as int));
                        assert(cs.take(k + 1 as int).last() == cs[k as int]);
                        assert(variants.deep_view() =~~= ts_variants_of(
                            *t,
                            cs.take(k + 1 as int),
                        ));
                    }
                    k = k + 1;
                }
                proof {
                    assert(cs.take(cs.len() as int) =~= cs);
                }
            },
        }
        let mut disp = NodeHelper::text(t, nm);
        disp.append(" enum");
        let x = TypeSpec {
            name: disp,
            doc,
            kind: "enum".to_owned(),
            fields: Vec::new(),
            methods: Vec::new(),
            embeds: Vec::new(),
            implements: None,
            implemented_by: Vec::new(),
            type_params: Vec::new(),
            variants,
        };
        proof {
            assert(ts_enum_record(*t, node as int) =~~= seq![x.deep_view()]);
        }
        Some(x)
    }

    fn extract_types(&self, t: &SyntaxTree) -> (r: Vec<TypeSpec>)
        requires
            t.wf(),
        ensures
            r.deep_view() == ts_types(*t),
    {
        let mut r: Vec<TypeSpec> = Vec::new();
        let ifs = NodeHelper::find_all(t, 0, "interface_declaration");
        let mut k: usize = 0;
        while k < ifs.len()
            invariant
                t.wf(),
                ifs@ == spec_find_all(*t, 0, "interface_declaration"@),
                forall|j: int| 0 <= j < ifs@.len() ==> t.valid(#[trigger] ifs@[j] as int),
                k <= ifs@.len(),
                r.deep_view() == ts_ifaces_of(*t, ifs@.take(k as int)),
            decreases ifs@.len() - k,
        {
            match self.extract_interface(t, ifs[k]) {
                Some(x) => {
                    r.push(x);
                },
                None => {},
            }
            proof {
                assert(ifs@.take(k + 1 as int).drop_last() =~= ifs@.take(k as int));
                assert(ifs@.take(k + 1 as int).last() == ifs@[k as int]);
                assert(r.deep_view() =~~= ts_ifaces_of(*t, ifs@.take(k + 1 as int)));
            }
            k = k + 1;
        }
        let cls = NodeHelper::find_all(t, 0, "class_declaration");
        let ghost base1 = r.deep_view();
        let mut k1: usize = 0;
        while k1 < cls.len()
            invariant
                t.wf(),
                cls@ == spec_find_all(*t, 0, "class_declaration"@),
                forall|j: int| 0 <= j < cls@.len() ==> t.valid(#[trigger] cls@[j] as int),
                k1 <= cls@.len(),
                r.deep_view() == base1 + ts_classes_of(*t, cls@.take(k1 as int)),
            decreases cls@.len() - k1,
        {
            let ghost preC = ts_classes_of(*t, cls@.take(k1 as int));
            match self.extract_class(t, cls[k1]) {
                Some(x) => {
                    r.push(x);
                },
                None => {},
            }
            proof {
                assert(cls@.take(k1 + 1 as int).drop_last() =~= cls@.take(k1 as int));
                assert(cls@.take(k1 + 1 as int).last() == cls@[k1 as int]);
                crate::strutil::seq_assoc(
                    base1,
                    preC,
                    ts_class_record(*t, cls@[k1 as int] as int),
                );
                assert(r.deep_view() =~~= (base1 + preC) + ts_class_record(
                    *t,
                    cls@[k1 as int] as int,
                ));
                assert(r.deep_view() =~~= base1 + ts_classes_of(*t, cls@.take(k1 + 1 as int)));
            }
            k1 = k1 + 1;
        }
        let als = NodeHelper::find_all(t, 0, "type_alias_declaration");
        let ghost base2 = r.deep_view();
        let mut k2: usize = 0;
        while k2 < als.len()
            invariant
                t.wf(),
                als@ == spec_find_all(*t, 0, "type_alias_declaration"@),
                forall|j: int| 0 <= j < als@.len() ==> t.valid(#[trigger] als@[j] as int),
                k2 <= als@.len(),
                r.deep_view() == base2 + ts_aliases_of(*t, als@.take(k2 as int)),
            decreases als@.len() - k2,
        {
            let ghost preA = ts_aliases_of(*t, als@.take(k2 as int));
            match self.extract_type_alias(t, als[k2]) {
                Some(x) => {
                    r.push(x);
                },
                None => {},
            }
            proof {
                assert(als@.take(k2 + 1 as int).drop_last() =~= als@.take(k2 as int));
                assert(als@.take(k2 + 1 as int).last() == als@[k2 as int]);
                crate::strutil::seq_assoc(
                    base2,
                    preA,
                    ts_alias_record(*t, als@[k2 as int] as int),
                );
                assert(r.deep_view() =~~= (base2 + preA) + ts_alias_record(
                    *t,
                    als@[k2 as int] as int,
                ));
                assert(r.deep_view() =~~= base2 + ts_aliases_of(*t, als@.take(k2 + 1 as int)));
            }
            k2 = k2 + 1;
        }
        let ens = NodeHelper::find_all(t, 0, "enum_declaration");
        let ghost base3 = r.deep_view();
        let mut k3: usize = 0;
        while k3 < ens.len()
            invariant
                t.wf(),
                ens@ == spec_find_all(*t, 0, "enum_declaration"@),
                forall|j: int| 0 <= j < ens@.len() ==> t.valid(#[trigger] ens@[j] as int),
                k3 <= ens@.len(),
                r.deep_view() == base3 + ts_enums_of(*t, ens@.take(k3 as int)),
            decreases ens@.len() - k3,
        {
            let ghost preE = ts_enums_of(*t, ens@.take(k3 as int));
            match self.extract_enum(t, ens[k3]) {
                Some(x) => {
                    r.push(x);
                },
                None => {},
            }
            proof {
                assert(ens@.take(k3 + 1 as int).drop_last() =~= ens@.take(k3 as int));
                assert(ens@.take(k3 + 1 as int).last() == ens@[k3 as int]);
                crate::strutil::seq_assoc(
                    base3,
                    preE,
                    ts_enum_record(*t, ens@[k3 as int] as int),
                );
                assert(r.deep_view() =~~= (base3 + preE) + ts_enum_record(
                    *t,
                    ens@[k3 as int] as int,
                ));
                assert(r.deep_view() =~~= base3 + ts_enums_of(*t, ens@.take(k3 + 1 as int)));
            }
            k3 = k3 + 1;
        }
        proof {
            assert(ifs@.take(ifs@.len() as int) =~= ifs@);
            assert(cls@.take(cls@.len() as int) =~= cls@);
            assert(als@.take(als@.len() as int) =~= als@);
            assert(ens@.take(ens@.len() as int) =~= ens@);
        }
        r
    }

    fn is_inside_class(&self, t: &SyntaxTree, node: usize) -> (r: bool)
        requires
            t.wf(),
            t.valid(node as int),
        ensures
            r == ts_inside_class(*t, node as int),
    {
        NodeHelper::inside_kind(t, node, "class_declaration") || NodeHelper::inside_kind(
            t,
            node,
            "class",
        )
    }

    fn extract_func_spec(&self, t: &SyntaxTree, f: usize) -> (r: Option<FuncSpec>)
        requires
            t.wf(),
            t.valid(f as int),
            !ts_inside_class(*t, f as int),
        ensures
            match r {
                Some(x) => ts_func_record(*t, f as int) =~~= seq![x.deep_view()],
                None => ts_func_record(*t, f as int) =~~= Seq::<FuncSpecV>::empty(),
            },
    {
        let nm = match NodeHelper::field(t, f, "name") {
            None => {
                return None;
            },
            Some(nm) => nm,
        };
        let params = match NodeHelper::field_text(t, f, "parameters") {
            Some(p) => p,
            None => "()".to_owned(),
        };
        let ann = self.annotation_of(t, f);
        let tp = match NodeHelper::child_by_kind(t, f, "type_parameters") {
            Some(ps) => NodeHelper::text(t, ps),
            None => String::new(),
        };
        let mut sig = "function ".to_owned();
        let name = NodeHelper::text(t, nm);
        sig.append(name.as_str());
        sig.append(tp.as_str());
        sig.append(params.as_str());
        sig.append(ann.as_str());
        let doc = NodeHelper::preceding_comment(t, f);
        let x = FuncSpec {
            signature: sig,
            doc,
            receiver: None,
            uses: Vec::new(),
            behavior: None,
            tests: None,
        };
        proof {
            assert(ts_func_record(*t, f as int) =~~= seq![x.deep_view()]);
        }
        Some(x)
    }

    fn extract_arrow_func(&self, t: &SyntaxTree, dr: usize, arrow: usize)
        -> (r: Option<FuncSpec>)
        requires
            t.wf(),
            t.valid(dr as int),
            t.valid(arrow as int),
        ensures
            match r {
                Some(x) => ts_arrow_record(*t, dr as int, arrow as int) =~~= seq![
                    x.deep_view(),
                ],
                None => ts_arrow_record(*t, dr as int, arrow as int)
                    =~~= Seq::<FuncSpecV>::empty(),
            },
    {
        let nm = match NodeHelper::field(t, dr, "name") {
            None => {
                return None;
            },
            Some(nm) => nm,
        };
        let pnode = match NodeHelper::field(t, arrow, "parameters") {
            Some(p) => Some(p),
            None => NodeHelper::field(t, arrow, "parameter"),
        };
        let params: String = match pnode {
            Some(p) => {
                let txt = NodeHelper::text(t, p);
                let chars = to_chars(txt.as_str());
                if chars.len() > 0 && chars[0] == '(' {
                    txt
                } else {
                    let mut s = "(".to_owned();
                    s.append(txt.as_str());
                    s.append(")");
                    s
                }
            },
            None => "()".to_owned(),
        };
        let ann = self.annotation_of(t, arrow);
        let mut sig = "const ".to_owned();
        let name = NodeHelper::text(t, nm);
        sig.append(name.as_str());
        sig.append(" = ");
        sig.append(params.as_str());
        sig.append(ann.as_str());
        proof {
            assert(t.wf_parent(dr as int));
        }
        let doc = match t.nodes[dr].parent {
            Some(p) => NodeHelper::preceding_comment(t, p),
            None => NodeHelper::preceding_comment(t, dr),
        };
        let x = FuncSpec {
            signature: sig,
            doc,
            receiver: None,
            uses: Vec::new(),
            behavior: None,
            tests: None,
        };
        proof {
            assert(ts_arrow_record(*t, dr as int, arrow as int) =~~= seq![x.deep_view()]);
        }
        Some(x)
    }

    fn extract_functions(&self, t: &SyntaxTree) -> (r: Vec<FuncSpec>)
        requires
            t.wf(),
        ensures
            r.deep_view() == ts_functions(*t),
    {
        let ns = NodeHelper::find_all(t, 0, "function_declaration");
        let mut r: Vec<FuncSpec> = Vec::new();
        let mut k: usize = 0;
        while k < ns.len()
            invariant
                t.wf(),
                ns@ == spec_find_all(*t, 0, "function_declaration"@),
                forall|j: int| 0 <= j < ns@.len() ==> t.valid(#[trigger] ns@[j] as int),
                k <= ns@.len(),
                r.deep_view() == ts_funcs_of(*t, ns@.take(k as int)),
            decreases ns@.len() - k,
        {
            if !self.is_inside_class(t, ns[k]) {
                match self.extract_func_spec(t, ns[k]) {
                    Some(x) => {
                        r.push(x);
                    },
                    None => {},
                }
            }
            proof {
                assert(ns@.take(k + 1 as int).drop_last() =~= ns@.take(k as int));
                assert(ns@.take(k + 1 as int).last() == ns@[k as int]);
                assert(r.deep_view() =~~= ts_funcs_of(*t, ns@.take(k + 1 as int)));
            }
            k = k + 1;
        }
        let lds = NodeHelper::find_all(t, 0, "lexical_declaration");
        let ghost base = r.deep_view();
        let mut k1: usize = 0;
        while k1 < lds.len()
            invariant
                t.wf(),
                lds@ == spec_find_all(*t, 0, "lexical_declaration"@),
                forall|j: int| 0 <= j < lds@.len() ==> t.valid(#[trigger] lds@[j] as int),
                k1 <= lds@.len(),
                r.deep_view() == base + ts_lexical_fns_of(*t, lds@.take(k1 as int)),
            decreases lds@.len() - k1,
        {
            let d = lds[k1];
            let ghost preL = ts_lexical_fns_of(*t, lds@.take(k1 as int));
            if !self.is_inside_class(t, d) {
                let drs = NodeHelper::children_by_kind(t, d, "variable_declarator");
                let ghost base2 = r.deep_view();
                let mut j: usize = 0;
                while j < drs.len()
                    invariant
                        t.wf(),
                        t.valid(d as int),
                        drs@ == spec_children_by_kind(*t, d as int, "variable_declarator"@),
                        forall|x: int| 0 <= x < drs@.len() ==> t.valid(#[trigger] drs@[x] as int),
                        j <= drs@.len(),
                        r.deep_view() == base2 + ts_declarator_fns_of(*t, drs@.take(j as int)),
                    decreases drs@.len() - j,
                {
                    let dr = drs[j];
                    let ghost preD = ts_declarator_fns_of(*t, drs@.take(j as int));
                    match NodeHelper::field(t, dr, "value") {
                        Some(v) => {
                            if str_eq_local(&t.nodes[v].kind, "arrow_function") {
                                match self.extract_arrow_func(t, dr, v) {
                                    Some(x) => {
                                        r.push(x);
                                    },
                                    None => {},
                                }
                            }
                        },
                        None => {},
                    }
                    proof {
                        assert(drs@.take(j + 1 as int).drop_last() =~= drs@.take(j as int));
                        assert(drs@.take(j + 1 as int).last() == drs@[j as int]);
                        crate::strutil::seq_assoc(
                            base2,
                            preD,
                            ts_declarator_fn(*t, drs@[j as int] as int),
                        );
                        assert(r.deep_view() =~~= (base2 + preD) + ts_declarator_fn(
                            *t,
                            drs@[j as int] as int,
                        ));
                        assert(r.deep_view() =~~= base2 + ts_declarator_fns_of(
                            *t,
                            drs@.take(j + 1 as int),
                        ));
                    }
                    j = j + 1;
                }
                proof {
                    assert(drs@.take(drs@.len() as int) =~= drs@);
                }
            }
            proof {
                assert(lds@.take(k1 + 1 as int).drop_last() =~= lds@.take(k1 as int));
                assert(lds@.take(k1 + 1 as int).last() == lds@[k1 as int]);
                crate::strutil::seq_assoc(
                    base,
                    preL,
                    ts_lexical_fns(*t, lds@[k1 as int] as int),
                );
                assert(r.deep_view() =~~= (base + preL) + ts_lexical_fns(
                    *t,
                    lds@[k1 as int] as int,
                ));
                assert(r.deep_view() =~~= base + ts_lexical_fns_of(
                    *t,
                    lds@.take(k1 + 1 as int),
                ));
            }
            k1 = k1 + 1;
        }
        proof {
            assert(ns@.take(ns@.len() as int) =~= ns@);
            assert(lds@.take(lds@.len() as int) =~= lds@);
        }
        r
    }

    /// Whether the declaration's first child reads as the given keyword.
    fn decl_keyword_is(&self, t: &SyntaxTree, d: usize, kw: &str) -> (r: bool)
        requires
            t.wf(),
            t.valid(d as int),
        ensures
            r == ts_decl_keyword_is(*t, d as int, kw@),
    {
        proof {
            assert(t.wf_node(d as int));
        }
        if t.nodes[d].children.len() == 0 {
            return false;
        }
        let c0 = t.nodes[d].children[0];
        crate::strutil::str_eq(t.nodes[c0].text.as_str(), kw)
    }

    fn extract_constants(&self, t: &SyntaxTree) -> (r: Vec<ConstSpec>)
        requires
            t.wf(),
        ensures
            r.deep_view() == ts_constants(*t),
    {
        let lds = NodeHelper::find_all(t, 0, "lexical_declaration");
        let mut r: Vec<ConstSpec> = Vec::new();
        let mut k: usize = 0;
        while k < lds.len()
            invariant
                t.wf(),
                lds@ == spec_find_all(*t, 0, "lexical_declaration"@),
                forall|j: int| 0 <= j < lds@.len() ==> t.valid(#[trigger] lds@[j] as int),
                k <= lds@.len(),
                r.deep_view() == ts_consts_of(*t, lds@.take(k as int)),
            decreases lds@.len() - k,
        {
            let d = lds[k];
            let ghost pre = r.deep_view();
            if !self.is_inside_class(t, d) && self.decl_keyword_is(t, d, "const") {
                let drs = NodeHelper::children_by_kind(t, d, "variable_declarator");
                let mut j: usize = 0;
                while j < drs.len()
                    invariant
                        t.wf(),
                        t.valid(d as int),
                        drs@ == spec_children_by_kind(*t, d as int, "variable_declarator"@),
                        forall|x: int| 0 <= x < drs@.len() ==> t.valid(#[trigger] drs@[x] as int),
                        j <= drs@.len(),
                        r.deep_view() == pre + ts_const_entries_of(
                            *t,
                            drs@.take(j as int),
                            d as int,
                        ),
                    decreases drs@.len() - j,
                {
                    let dr = drs[j];
                    let ghost preD = ts_const_entries_of(*t, drs@.take(j as int), d as int);
                    match NodeHelper::field(t, dr, "name") {
                        Some(nm) => {
                            let value = NodeHelper::field(t, dr, "value");
                            let is_arrow = match value {
                                Some(v) => str_eq_local(&t.nodes[v].kind, "arrow_function"),
                                None => false,
                            };
                            if !is_arrow {
                                let ty_name = match NodeHelper::child_by_kind(
                                    t,
                                    dr,
                                    "type_annotation",
                                ) {
                                    Some(a) => Some(NodeHelper::text(t, a)),
                                    None => None,
                                };
                                let value_str = match value {
                                    Some(v) => Some(NodeHelper::text(t, v)),
                                    None => None,
                                };
                                let x = ConstSpec {
                                    name: NodeHelper::text(t, nm),
                                    ty_name,
                                    value: value_str,
                                    doc: NodeHelper::preceding_comment(t, d),
                                };
                                r.push(x);
                            }
                        },
                        None => {},
                    }
                    proof {
                        assert(drs@.take(j + 1 as int).drop_last() =~= drs@.take(j as int));
                        assert(drs@.take(j + 1 as int).last() == drs@[j as int]);
                        crate::strutil::seq_assoc(
                            pre,
                            preD,
                            ts_const_entry(*t, drs@[j as int] as int, d as int),
                        );
                        assert(r.deep_view() =~~= (pre + preD) + ts_const_entry(
                            *t,
                            drs@[j as int] as int,
                            d as int,
                        ));
                        assert(r.deep_view() =~~= pre + ts_const_entries_of(
                            *t,
                            drs@.take(j + 1 as int),
                            d as int,
                        ));
                    }
                    j = j + 1;
                }
                proof {
                    assert(drs@.take(drs@.len() as int) =~= drs@);
                }
            }
            proof {
                assert(lds@.take(k + 1 as int).drop_last() =~= lds@.take(k as int));
                assert(lds@.take(k + 1 as int).last() == lds@[k as int]);
                assert(r.deep_view() =~~= ts_consts_of(*t, lds@.take(k + 1 as int)));
            }
            k = k + 1;
        }
        proof {
            assert(lds@.take(lds@.len() as int) =~= lds@);
        }
        r
    }

    fn extract_variables(&self, t: &SyntaxTree) -> (r: Vec<VarSpec>)
        requires
            t.wf(),
        ensures
            r.deep_view() == ts_variables(*t),
    {
        let lds = NodeHelper::find_all(t, 0, "lexical_declaration");
        let mut r: Vec<VarSpec> = Vec::new();
        let mut k: usize = 0;
        while k < lds.len()
            invariant
                t.wf(),
                lds@ == spec_find_all(*t, 0, "lexical_declaration"@),
                forall|j: int| 0 <= j < lds@.len() ==> t.valid(#[trigger] lds@[j] as int),
                k <= lds@.len(),
                r.deep_view() == ts_vars_of(*t, lds@.take(k as int)),
            decreases lds@.len() - k,
        {
            let d = lds[k];
            let ghost pre = r.deep_view();
            if !self.is_inside_class(t, d) && self.decl_keyword_is(t, d, "let") {
                let drs = NodeHelper::children_by_kind(t, d, "variable_declarator");
                let mut j: usize = 0;
                while j < drs.len()
                    invariant
                        t.wf(),
                        t.valid(d as int),
                        drs@ == spec_children_by_kind(*t, d as int, "variable_declarator"@),
                        forall|x: int| 0 <= x < drs@.len() ==> t.valid(#[trigger] drs@[x] as int),
                        j <= drs@.len(),
                        r.deep_view() == pre + ts_var_entries_of(
                            *t,
                            drs@.take(j as int),
                            d as int,
                        ),
                    decreases drs@.len() - j,
                {
                    let dr = drs[j];
                    let ghost preD = ts_var_entries_of(*t, drs@.take(j as int), d as int);
                    match NodeHelper::field(t, dr, "name") {
                        Some(nm) => {
                            let ty_name = match NodeHelper::child_by_kind(
                                t,
                                dr,
                                "type_annotation",
                            ) {
                                Some(a) => Some(NodeHelper::text(t, a)),
                                None => None,
                            };
                            let x = VarSpec {
                                name: NodeHelper::text(t, nm),
                                ty_name,
                                doc: NodeHelper::preceding_comment(t, d),
                            };
                            r.push(x);
                        },
                        None => {},
                    }
                    proof {
                        assert(drs@.take(j + 1 as int).drop_last() =~= drs@.take(j as int));
                        assert(drs@.take(j + 1 as int).last() == drs@[j as int]);
                        crate::strutil::seq_assoc(
                            pre,
                            preD,
                            ts_var_entry(*t, drs@[j as int] as int, d as int),
                        );
                        assert(r.deep_view() =~~= (pre + preD) + ts_var_entry(
                            *t,
                            drs@[j as int] as int,
                            d as int,
                        ));
                        assert(r.deep_view() =~~= pre + ts_var_entries_of(
                            *t,
                            drs@.take(j + 1 as int),
                            d as int,
                        ));
                    }
                    j = j + 1;
                }
                proof {
                    assert(drs@.take(drs@.len() as int) =~= drs@);
                }
            }
            proof {
                assert(lds@.take(k + 1 as int).drop_last() =~= lds@.take(k as int));
                assert(lds@.take(k + 1 as int).last() == lds@[k as int]);
                assert(r.deep_view() =~~= ts_vars_of(*t, lds@.take(k + 1 as int)));
            }
            k = k + 1;
        }
        proof {
            assert(lds@.take(lds@.len() as int) =~= lds@);
        }
        r
    }

    /// Whether the path names a TSX file.
    fn is_tsx_path(&self, path: &str) -> (r: bool)
        ensures
            r == ts_is_tsx(path@),
    {
        broadcast use crate::strutil::lemma_chars_deep_view;

        let v = to_chars(path);
        match crate::paths::extension_chars(&v) {
            Some(e) => {
                let tsx = to_chars("tsx");
                crate::strutil::chars_eq(&e, &tsx)
            },
            None => false,
        }
    }

    /// Extraction is a pure function of the source text and the path:
    /// the grammar is chosen by the path's extension, on success the
    /// record is exactly [`ts_file_record`] of the parsed tree, and the
    /// only failure is the grammar failing to produce a tree.
    pub(crate) fn extract_file(&self, source: &str, path: &str) -> (r: Result<
        FileSpec,
        ExtractError,
    >)
        ensures
            match r {
                Ok(spec) => ts_parse_of(path@, source@) is Some && spec.deep_view()
                    == ts_file_record(ts_parse_of(path@, source@)->0, path@),
                Err(e) => ts_parse_of(path@, source@) is None && e
                    == ExtractError::ParseFailure,
            },
    {
        let parsed = if self.is_tsx_path(path) {
            exec_tsx_parse(source)
        } else {
            exec_ts_parse(source)
        };
        match parsed {
            None => Err(ExtractError::ParseFailure),
            Some(tree) => {
                let spec = FileSpec {
                    file: path.to_owned(),
                    package: self.extract_module(path),
                    imports: self.extract_imports(&tree),
                    types: self.extract_types(&tree),
                    functions: self.extract_functions(&tree),
                    methods: Vec::new(),
                    constants: self.extract_constants(&tree),
                    variables: self.extract_variables(&tree),
                    errors: Vec::new(),
                };
                proof {
                    assert(spec.deep_view() =~~= ts_file_record(tree, path@));
                }
                Ok(spec)
            },
        }
    }
}

impl Default for TypeScriptPlugin {
    fn default() -> (r: Self) {
        TypeScriptPlugin
    }
}

} // verus!
