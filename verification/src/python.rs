//! Extraction for Python source files.
//!
//! Classes carry their own methods as signature strings in the type
//! record; a module-level callable whose first parameter follows the
//! self convention is a method of the file, every other module-level
//! callable a free function.  Documentation comes from docstrings — a
//! leading string expression in a body — rather than from comments,
//! and module-level constants are recognized by the conservative
//! all-uppercase heuristic.

use vstd::prelude::*;
use vstd::string::StringExecFns;

use crate::parse::{exec_python_parse, python_parse};
use crate::records::{
    ConstSpec, ConstSpecV, ExtractError, FileSpec, FileSpecV, FuncSpec, FuncSpecV, TypeSpec,
    TypeSpecV,
};
use crate::strutil::str_eq_local;
use crate::paths::{module_name_of, spec_file_stem};
use crate::strutil::{
    chars_range, chars_starts_with, contains_char, from_chars, is_const_ident,
    spec_contains_char, spec_is_const_ident, spec_starts_with, spec_trim,
    spec_trim_end_matches, spec_trim_start_matches, str_starts_with, to_chars,
    trim_chars, trim_end_matches_seq, trim_start_matches_seq,
};
use crate::tree::{
    children_of, kind_of, spec_child_by_kind, spec_children_by_kind, spec_field,
    spec_field_text, spec_find_all, spec_inside_kind, text_of, NodeHelper, SyntaxTree,
};

verus! {

/// The fallback module name: the file's stem, or `unknown`.
pub open spec fn py_module(path: Seq<char>) -> Seq<char> {
    match spec_file_stem(path) {
        Some(s) => s,
        None => "unknown"@,
    }
}

/// What one `import_statement` contributes: the module list after the
/// `import ` keyword, trimmed.
pub open spec fn py_import_entry(t: SyntaxTree, i: int) -> Seq<Seq<char>> {
    let txt = text_of(t, i);
    if spec_starts_with(txt, "import "@) {
        seq![spec_trim(txt.skip("import "@.len() as int))]
    } else {
        Seq::empty()
    }
}

pub open spec fn py_imports_of(t: SyntaxTree, ns: Seq<usize>) -> Seq<Seq<char>>
    decreases ns.len(),
{
    if ns.len() == 0 {
        Seq::empty()
    } else {
        py_imports_of(t, ns.drop_last()) + py_import_entry(t, ns.last() as int)
    }
}

pub open spec fn py_from_imports_of(t: SyntaxTree, ns: Seq<usize>) -> Seq<Seq<char>>
    decreases ns.len(),
{
    if ns.len() == 0 {
        Seq::empty()
    } else {
        py_from_imports_of(t, ns.drop_last()).push(text_of(t, ns.last() as int))
    }
}

/// Every import in the file: plain imports first, then `from` imports,
/// each in source order.
pub open spec fn py_imports(t: SyntaxTree) -> Seq<Seq<char>> {
    py_imports_of(t, spec_find_all(t, 0, "import_statement"@)) + py_from_imports_of(
        t,
        spec_find_all(t, 0, "import_from_statement"@),
    )
}

/// The docstring of a definition: the text of a leading string
/// expression in its body, triple quotes stripped, trimmed.
pub open spec fn py_docstring(t: SyntaxTree, node: int) -> Option<Seq<char>> {
    match spec_child_by_kind(t, node, "block"@) {
        None => None,
        Some(body) => {
            let ch = children_of(t, body as int);
            if ch.len() > 0 && kind_of(t, ch[0] as int) == "expression_statement"@ {
                let inner = children_of(t, ch[0] as int);
                if inner.len() > 0 && kind_of(t, inner[0] as int) == "string"@ {
                    let txt = text_of(t, inner[0] as int);
                    Some(
                        spec_trim(
                            spec_trim_end_matches(
                                spec_trim_end_matches(
                                    spec_trim_start_matches(
                                        spec_trim_start_matches(txt, "\"\"\""@),
                                        "'''"@,
                                    ),
                                    "\"\"\""@,
                                ),
                                "'''"@,
                            ),
                        ),
                    )
                } else {
                    None
                }
            } else {
                None
            }
        },
    }
}

/// One base-class entry of a class's argument list.
pub open spec fn py_base_entry(t: SyntaxTree, c: int) -> Seq<Seq<char>> {
    if kind_of(t, c) == "identifier"@ || kind_of(t, c) == "attribute"@ {
        seq![text_of(t, c)]
    } else {
        Seq::empty()
    }
}

pub open spec fn py_bases_of(t: SyntaxTree, cs: Seq<usize>) -> Seq<Seq<char>>
    decreases cs.len(),
{
    if cs.len() == 0 {
        Seq::empty()
    } else {
        py_bases_of(t, cs.drop_last()) + py_base_entry(t, cs.last() as int)
    }
}

/// The base classes a class declaration names.
pub open spec fn py_class_embeds(t: SyntaxTree, node: int) -> Seq<Seq<char>> {
    match spec_child_by_kind(t, node, "argument_list"@) {
        None => Seq::empty(),
        Some(args) => py_bases_of(t, children_of(t, args as int)),
    }
}

/// One class-level typed assignment's field entry, `name: type`, kept
/// only when the annotation does not look like a callable.
pub open spec fn py_typed_entry(t: SyntaxTree, a: int) -> Seq<Seq<char>> {
    let ch = children_of(t, a);
    if ch.len() > 2 && !spec_contains_char(text_of(t, ch[2] as int), '(') {
        seq![text_of(t, ch[0] as int) + ": "@ + text_of(t, ch[2] as int)]
    } else {
        Seq::empty()
    }
}

pub open spec fn py_typed_of(t: SyntaxTree, ns: Seq<usize>) -> Seq<Seq<char>>
    decreases ns.len(),
{
    if ns.len() == 0 {
        Seq::empty()
    } else {
        py_typed_of(t, ns.drop_last()) + py_typed_entry(t, ns.last() as int)
    }
}

/// One `self.x = …` assignment adds the field `x`, unless an entry
/// with that prefix is already present.
pub open spec fn py_assign_step(t: SyntaxTree, a: int, fields: Seq<Seq<char>>)
    -> Seq<Seq<char>> {
    let ch = children_of(t, a);
    if ch.len() > 0 && kind_of(t, ch[0] as int) == "attribute"@ && spec_starts_with(
        text_of(t, ch[0] as int),
        "self."@,
    ) {
        let fname = text_of(t, ch[0] as int).skip("self."@.len() as int);
        if exists|i: int| 0 <= i < fields.len() && spec_starts_with(#[trigger] fields[i], fname) {
            fields
        } else {
            fields.push(fname)
        }
    } else {
        fields
    }
}

pub open spec fn py_assign_fold(t: SyntaxTree, asgs: Seq<usize>, fields: Seq<Seq<char>>)
    -> Seq<Seq<char>>
    decreases asgs.len(),
{
    if asgs.len() == 0 {
        fields
    } else {
        py_assign_fold(t, asgs.skip(1), py_assign_step(t, asgs[0] as int, fields))
    }
}

/// One method of a class body applied to the field list: only
/// `__init__`'s `self.x` assignments add fields.
pub open spec fn py_fd_fields(t: SyntaxTree, fd: int, fields: Seq<Seq<char>>)
    -> Seq<Seq<char>> {
    match spec_field_text(t, fd, "name"@) {
        Some(n) => if n == "__init__"@ {
            py_assign_fold(t, spec_find_all(t, fd, "assignment"@), fields)
        } else {
            fields
        },
        None => fields,
    }
}

pub open spec fn py_init_fold(t: SyntaxTree, fds: Seq<usize>, fields: Seq<Seq<char>>)
    -> Seq<Seq<char>>
    decreases fds.len(),
{
    if fds.len() == 0 {
        fields
    } else {
        py_init_fold(t, fds.skip(1), py_fd_fields(t, fds[0] as int, fields))
    }
}

/// The formatted signature of a function definition,
/// `def name(params) -> ret`; nothing without a name.
pub open spec fn py_sig(t: SyntaxTree, fd: int) -> Option<Seq<char>> {
    match spec_field(t, fd, "name"@) {
        None => None,
        Some(nm) => {
            let params = match spec_field_text(t, fd, "parameters"@) {
                Some(p) => p,
                None => "()"@,
            };
            let ret = match spec_field_text(t, fd, "return_type"@) {
                Some(rt) => " -> "@ + rt,
                None => Seq::empty(),
            };
            Some("def "@ + text_of(t, nm as int) + params + ret)
        },
    }
}

/// One class-body method's signature entry: double-underscore names
/// are kept out, except `__init__`.
pub open spec fn py_msig_entry(t: SyntaxTree, fd: int) -> Seq<Seq<char>> {
    match spec_field_text(t, fd, "name"@) {
        None => Seq::empty(),
        Some(n) => if !spec_starts_with(n, "__"@) || n == "__init__"@ {
            match py_sig(t, fd) {
                Some(sig) => seq![sig],
                None => Seq::empty(),
            }
        } else {
            Seq::empty()
        },
    }
}

pub open spec fn py_msigs_of(t: SyntaxTree, fds: Seq<usize>) -> Seq<Seq<char>>
    decreases fds.len(),
{
    if fds.len() == 0 {
        Seq::empty()
    } else {
        py_msigs_of(t, fds.drop_last()) + py_msig_entry(t, fds.last() as int)
    }
}

/// The fields of a class body: typed assignments first, then `self.x`
/// assignments of `__init__`, first-seen order, prefix-deduplicated.
pub open spec fn py_class_fields(t: SyntaxTree, node: int) -> Seq<Seq<char>> {
    match spec_child_by_kind(t, node, "block"@) {
        None => Seq::empty(),
        Some(body) => {
            let base = py_typed_of(t, spec_find_all(t, body as int, "typed_assignment"@));
            py_init_fold(
                t,
                spec_children_by_kind(t, body as int, "function_definition"@),
                base,
            )
        },
    }
}

/// The method signatures of a class body.
pub open spec fn py_class_methods(t: SyntaxTree, node: int) -> Seq<Seq<char>> {
    match spec_child_by_kind(t, node, "block"@) {
        None => Seq::empty(),
        Some(body) => py_msigs_of(
            t,
            spec_children_by_kind(t, body as int, "function_definition"@),
        ),
    }
}

/// The record of one class definition; nothing without a name.
pub open spec fn py_class_record(t: SyntaxTree, node: int) -> Seq<TypeSpecV> {
    match spec_field(t, node, "name"@) {
        None => Seq::empty(),
        Some(nm) => seq![
            TypeSpecV {
                name: text_of(t, nm as int) + " class"@,
                doc: py_docstring(t, node),
                kind: "class"@,
                fields: py_class_fields(t, node),
                methods: py_class_methods(t, node),
                embeds: py_class_embeds(t, node),
                implements: None,
                implemented_by: Seq::empty(),
                type_params: Seq::empty(),
                variants: Seq::empty(),
            },
        ],
    }
}

pub open spec fn py_classes_of(t: SyntaxTree, ns: Seq<usize>) -> Seq<TypeSpecV>
    decreases ns.len(),
{
    if ns.len() == 0 {
        Seq::empty()
    } else {
        py_classes_of(t, ns.drop_last()) + py_class_record(t, ns.last() as int)
    }
}

/// Every class in the file, in source order.
pub open spec fn py_classes(t: SyntaxTree) -> Seq<TypeSpecV> {
    py_classes_of(t, spec_find_all(t, 0, "class_definition"@))
}

/// Whether a function's parameter list opens with a self-like binding.
pub open spec fn py_has_self(t: SyntaxTree, fd: int) -> bool {
    match spec_field_text(t, fd, "parameters"@) {
        Some(p) => spec_starts_with(p, "(self"@) || spec_starts_with(p, "(cls"@),
        None => false,
    }
}

/// One module-level callable's record: the receiver is `self` exactly
/// when the parameter list opens with the self convention; nothing
/// without a name.
pub open spec fn py_fn_entry(t: SyntaxTree, fd: int) -> Seq<FuncSpecV> {
    match py_sig(t, fd) {
        None => Seq::empty(),
        Some(sig) => seq![
            FuncSpecV {
                signature: sig,
                doc: py_docstring(t, fd),
                receiver: if py_has_self(t, fd) {
                    Some("self"@)
                } else {
                    None
                },
                uses: Seq::empty(),
                behavior: None,
                tests: None,
            },
        ],
    }
}

/// One module-level free function's record: callables nested in classes
/// belong to their class, and a callable bound to a self-like first
/// parameter is a method, never a free function.
pub open spec fn py_func_record(t: SyntaxTree, fd: int) -> Seq<FuncSpecV> {
    if spec_inside_kind(t, fd, "class_definition"@) || py_has_self(t, fd) {
        Seq::empty()
    } else {
        py_fn_entry(t, fd)
    }
}

/// One module-level method's record: a callable outside any class whose
/// first parameter follows the self convention.
pub open spec fn py_method_record(t: SyntaxTree, fd: int) -> Seq<FuncSpecV> {
    if spec_inside_kind(t, fd, "class_definition"@) || !py_has_self(t, fd) {
        Seq::empty()
    } else {
        py_fn_entry(t, fd)
    }
}

pub open spec fn py_funcs_of(t: SyntaxTree, ns: Seq<usize>) -> Seq<FuncSpecV>
    decreases ns.len(),
{
    if ns.len() == 0 {
        Seq::empty()
    } else {
        py_funcs_of(t, ns.drop_last()) + py_func_record(t, ns.last() as int)
    }
}

pub open spec fn py_methods_of(t: SyntaxTree, ns: Seq<usize>) -> Seq<FuncSpecV>
    decreases ns.len(),
{
    if ns.len() == 0 {
        Seq::empty()
    } else {
        py_methods_of(t, ns.drop_last()) + py_method_record(t, ns.last() as int)
    }
}

/// Every module-level free function in the file, in source order.
pub open spec fn py_functions(t: SyntaxTree) -> Seq<FuncSpecV> {
    py_funcs_of(t, spec_find_all(t, 0, "function_definition"@))
}

/// Every module-level self-bearing callable in the file, in source
/// order.
pub open spec fn py_methods(t: SyntaxTree) -> Seq<FuncSpecV> {
    py_methods_of(t, spec_find_all(t, 0, "function_definition"@))
}

/// One expression statement's constant entry: a module-level assignment
/// to an all-uppercase identifier.
pub open spec fn py_const_entry(t: SyntaxTree, es: int) -> Seq<ConstSpecV> {
    if spec_inside_kind(t, es, "class_definition"@) || spec_inside_kind(
        t,
        es,
        "function_definition"@,
    ) {
        Seq::empty()
    } else {
        match spec_child_by_kind(t, es, "assignment"@) {
            None => Seq::empty(),
            Some(a) => {
                let ch = children_of(t, a as int);
                if ch.len() > 0 && kind_of(t, ch[0] as int) == "identifier"@
                    && spec_is_const_ident(text_of(t, ch[0] as int)) {
                    seq![
                        ConstSpecV {
                            name: text_of(t, ch[0] as int),
                            ty_name: None,
                            value: if ch.len() > 2 {
                                Some(text_of(t, ch[2] as int))
                            } else {
                                None
                            },
                            doc: None,
                        },
                    ]
                } else {
                    Seq::empty()
                }
            },
        }
    }
}

pub open spec fn py_consts_of(t: SyntaxTree, ns: Seq<usize>) -> Seq<ConstSpecV>
    decreases ns.len(),
{
    if ns.len() == 0 {
        Seq::empty()
    } else {
        py_consts_of(t, ns.drop_last()) + py_const_entry(t, ns.last() as int)
    }
}

/// Every module-level constant in the file, in source order.
pub open spec fn py_constants(t: SyntaxTree) -> Seq<ConstSpecV> {
    py_consts_of(t, spec_find_all(t, 0, "expression_statement"@))
}

/// Everything the Python module extracts from one parsed file.
pub open spec fn py_file_record(t: SyntaxTree, path: Seq<char>) -> FileSpecV {
    FileSpecV {
        file: path,
        package: py_module(path),
        imports: py_imports(t),
        types: py_classes(t),
        functions: py_functions(t),
        methods: py_methods(t),
        constants: py_constants(t),
        variables: Seq::empty(),
        errors: Seq::empty(),
    }
}

/// Extraction for Python source files.
#[derive(Clone, Copy, PartialEq, Eq, Structural, Debug)]
pub struct PythonPlugin;

impl PythonPlugin {
    pub fn new() -> (r: PythonPlugin) {
        PythonPlugin
    }

    fn extract_module(&self, path: &str) -> (r: String)
        ensures
            r@ == py_module(path@),
    {
        module_name_of(path)
    }

    fn extract_imports(&self, t: &SyntaxTree) -> (r: Vec<String>)
        requires
            t.wf(),
        ensures
            r.deep_view() == py_imports(*t),
    {
        let ns = NodeHelper::find_all(t, 0, "import_statement");
        let mut r: Vec<String> = Vec::new();
        let kw = to_chars("import ");
        let mut k: usize = 0;
        while k < ns.len()
            invariant
                t.wf(),
                kw@ == "import "@,
                ns@ == spec_find_all(*t, 0, "import_statement"@),
                forall|j: int| 0 <= j < ns@.len() ==> t.valid(#[trigger] ns@[j] as int),
                k <= ns@.len(),
                r.deep_view() == py_imports_of(*t, ns@.take(k as int)),
            decreases ns@.len() - k,
        {
            let txt = NodeHelper::text(t, ns[k]);
            let chars = to_chars(txt.as_str());
            if chars_starts_with(&chars, &kw) {
                let rest = chars_range(&chars, kw.len(), chars.len());
                proof {
                    assert(rest@ =~= chars@.skip("import "@.len() as int));
                }
                let trimmed = trim_chars(&rest);
                r.push(from_chars(&trimmed));
            }
            proof {
                assert(ns@.take(k + 1 as int).drop_last() =~= ns@.take(k as int));
                assert(ns@.take(k + 1 as int).last() == ns@[k as int]);
                assert(r.deep_view() =~~= py_imports_of(*t, ns@.take(k + 1 as int)));
            }
            k = k + 1;
        }
        let froms = NodeHelper::find_all(t, 0, "import_from_statement");
        let ghost base = r.deep_view();
        let mut k2: usize = 0;
        while k2 < froms.len()
            invariant
                t.wf(),
                froms@ == spec_find_all(*t, 0, "import_from_statement"@),
                forall|j: int| 0 <= j < froms@.len() ==> t.valid(#[trigger] froms@[j] as int),
                k2 <= froms@.len(),
                r.deep_view() == base + py_from_imports_of(*t, froms@.take(k2 as int)),
            decreases froms@.len() - k2,
        {
            r.push(NodeHelper::text(t, froms[k2]));
            proof {
                assert(froms@.take(k2 + 1 as int).drop_last() =~= froms@.take(k2 as int));
                assert(froms@.take(k2 + 1 as int).last() == froms@[k2 as int]);
                assert((base + py_from_imports_of(*t, froms@.take(k2 as int))).push(
                    text_of(*t, froms@[k2 as int] as int),
                ) =~~= base + py_from_imports_of(*t, froms@.take(k2 as int)).push(
                    text_of(*t, froms@[k2 as int] as int),
                ));
                assert(r.deep_view() =~~= base + py_from_imports_of(
                    *t,
                    froms@.take(k2 + 1 as int),
                ));
            }
            k2 = k2 + 1;
        }
        proof {
            assert(ns@.take(ns@.len() as int) =~= ns@);
            assert(froms@.take(froms@.len() as int) =~= froms@);
        }
        r
    }

    fn extract_docstring(&self, t: &SyntaxTree, node: usize) -> (r: Option<String>)
        requires
            t.wf(),
            t.valid(node as int),
        ensures
            r.deep_view() == py_docstring(*t, node as int),
    {
        let body = match NodeHelper::child_by_kind(t, node, "block") {
            None => {
                return None;
            },
            Some(b) => b,
        };
        proof {
            assert(t.wf_node(body as int));
        }
        if t.nodes[body].children.len() == 0 {
            return None;
        }
        let first = t.nodes[body].children[0];
        if !str_eq_local(&t.nodes[first].kind, "expression_statement") {
            return None;
        }
        proof {
            assert(t.wf_node(first as int));
        }
        if t.nodes[first].children.len() == 0 {
            return None;
        }
        let inner = t.nodes[first].children[0];
        if !str_eq_local(&t.nodes[inner].kind, "string") {
            return None;
        }
        let txt = NodeHelper::text(t, inner);
        let chars = to_chars(txt.as_str());
        let dq = to_chars("\"\"\"");
        let sq = to_chars("'''");
        let s1 = trim_start_matches_seq(&chars, &dq);
        let s2 = trim_start_matches_seq(&s1, &sq);
        let s3 = trim_end_matches_seq(&s2, &dq);
        let s4 = trim_end_matches_seq(&s3, &sq);
        let s5 = trim_chars(&s4);
        Some(from_chars(&s5))
    }

    fn build_func_signature(&self, t: &SyntaxTree, fd: usize) -> (r: Option<String>)
        requires
            t.wf(),
            t.valid(fd as int),
        ensures
            r.deep_view() == py_sig(*t, fd as int),
    {
        let nm = match NodeHelper::field(t, fd, "name") {
            None => {
                return None;
            },
            Some(nm) => nm,
        };
        let params = match NodeHelper::field_text(t, fd, "parameters") {
            Some(p) => p,
            None => "()".to_owned(),
        };
        let ret = match NodeHelper::field_text(t, fd, "return_type") {
            Some(rt) => {
                let mut s = " -> ".to_owned();
                s.append(rt.as_str());
                s
            },
            None => String::new(),
        };
        let mut sig = "def ".to_owned();
        let name = NodeHelper::text(t, nm);
        sig.append(name.as_str());
        sig.append(params.as_str());
        sig.append(ret.as_str());
        Some(sig)
    }

    fn has_self_param(&self, t: &SyntaxTree, fd: usize) -> (r: bool)
        requires
            t.wf(),
            t.valid(fd as int),
        ensures
            r == py_has_self(*t, fd as int),
    {
        match NodeHelper::field_text(t, fd, "parameters") {
            Some(p) => str_starts_with(p.as_str(), "(self") || str_starts_with(
                p.as_str(),
                "(cls",
            ),
            None => false,
        }
    }

    fn is_inside_class(&self, t: &SyntaxTree, node: usize) -> (r: bool)
        requires
            t.wf(),
            t.valid(node as int),
        ensures
            r == spec_inside_kind(*t, node as int, "class_definition"@),
    {
        NodeHelper::inside_kind(t, node, "class_definition")
    }

    fn is_inside_function(&self, t: &SyntaxTree, node: usize) -> (r: bool)
        requires
            t.wf(),
            t.valid(node as int),
        ensures
            r == spec_inside_kind(*t, node as int, "function_definition"@),
    {
        NodeHelper::inside_kind(t, node, "function_definition")
    }

    fn extract_func_spec(&self, t: &SyntaxTree, fd: usize) -> (r: Option<FuncSpec>)
        requires
            t.wf(),
            t.valid(fd as int),
        ensures
            match r {
                Some(x) => py_fn_entry(*t, fd as int) =~~= seq![x.deep_view()],
                None => py_fn_entry(*t, fd as int) =~~= Seq::<FuncSpecV>::empty(),
            },
    {
        let sig = match self.build_func_signature(t, fd) {
            None => {
                return None;
            },
            Some(s) => s,
        };
        let doc = self.extract_docstring(t, fd);
        let has_self = self.has_self_param(t, fd);
        let x = FuncSpec {
            signature: sig,
            doc,
            receiver: if has_self {
                Some("self".to_owned())
            } else {
                None
            },
            uses: Vec::new(),
            behavior: None,
            tests: None,
        };
        proof {
            assert(py_fn_entry(*t, fd as int) =~~= seq![x.deep_view()]);
        }
        Some(x)
    }

    fn extract_functions(&self, t: &SyntaxTree) -> (r: Vec<FuncSpec>)
        requires
            t.wf(),
        ensures
            r.deep_view() == py_functions(*t),
    {
        let ns = NodeHelper::find_all(t, 0, "function_definition");
        let mut r: Vec<FuncSpec> = Vec::new();
        let mut k: usize = 0;
        while k < ns.len()
            invariant
                t.wf(),
                ns@ == spec_find_all(*t, 0, "function_definition"@),
                forall|j: int| 0 <= j < ns@.len() ==> t.valid(#[trigger] ns@[j] as int),
                k <= ns@.len(),
                r.deep_view() == py_funcs_of(*t, ns@.take(k as int)),
            decreases ns@.len() - k,
        {
            if !self.is_inside_class(t, ns[k]) && !self.has_self_param(t, ns[k]) {
                match self.extract_func_spec(t, ns[k]) {
                    Some(x) => {
                        r.push(x);
                    },
                    None => {},
                }
            }
            proof {
                assert(ns@.take(k + 1 as int).drop_last() =~= ns@.take(k as int));
                assert(ns@.take(k + 1 as int).last() == ns@[k as int]);
                assert(r.deep_view() =~~= py_funcs_of(*t, ns@.take(k + 1 as int)));
            }
            k = k + 1;
        }
        proof {
            assert(ns@.take(ns@.len() as int) =~= ns@);
        }
        r
    }

    fn extract_methods(&self, t: &SyntaxTree) -> (r: Vec<FuncSpec>)
        requires
            t.wf(),
        ensures
            r.deep_view() == py_methods(*t),
    {
        let ns = NodeHelper::find_all(t, 0, "function_definition");
        let mut r: Vec<FuncSpec> = Vec::new();
        let mut k: usize = 0;
        while k < ns.len()
            invariant
                t.wf(),
                ns@ == spec_find_all(*t, 0, "function_definition"@),
                forall|j: int| 0 <= j < ns@.len() ==> t.valid(#[trigger] ns@[j] as int),
                k <= ns@.len(),
                r.deep_view() == py_methods_of(*t, ns@.take(k as int)),
            decreases ns@.len() - k,
        {
            if !self.is_inside_class(t, ns[k]) && self.has_self_param(t, ns[k]) {
                match self.extract_func_spec(t, ns[k]) {
                    Some(x) => {
                        r.push(x);
                    },
                    None => {},
                }
            }
            proof {
                assert(ns@.take(k + 1 as int).drop_last() =~= ns@.take(k as int));
                assert(ns@.take(k + 1 as int).last() == ns@[k as int]);
                assert(r.deep_view() =~~= py_methods_of(*t, ns@.take(k + 1 as int)));
            }
            k = k + 1;
        }
        proof {
            assert(ns@.take(ns@.len() as int) =~= ns@);
        }
        r
    }

    /// Whether some existing field entry begins with `fname`.
    fn has_prefix_entry(&self, fields: &Vec<String>, fname: &Vec<char>) -> (r: bool)
        ensures
            r == exists|i: int|
                0 <= i < fields.deep_view().len() && spec_starts_with(
                    #[trigger] fields.deep_view()[i],
                    fname@,
                ),
    {
        let mut i: usize = 0;
        while i < fields.len()
            invariant
                i <= fields@.len(),
                fields.deep_view().len() == fields@.len(),
                forall|j: int|
                    0 <= j < i ==> !spec_starts_with(
                        #[trigger] fields.deep_view()[j],
                        fname@,
                    ),
            decreases fields@.len() - i,
        {
            let fc = to_chars(fields[i].as_str());
            if chars_starts_with(&fc, fname) {
                proof {
                    assert(fields.deep_view()[i as int] == fields@[i as int]@);
                }
                return true;
            }
            proof {
                assert(fields.deep_view()[i as int] == fields@[i as int]@);
            }
            i = i + 1;
        }
        false
    }

    /// Applies one `__init__` body's assignments to the field list.
    fn apply_init_assignments(&self, t: &SyntaxTree, fd: usize, fields: &mut Vec<String>)
        requires
            t.wf(),
            t.valid(fd as int),
        ensures
            final(fields).deep_view() == py_assign_fold(
                *t,
                spec_find_all(*t, fd as int, "assignment"@),
                old(fields).deep_view(),
            ),
    {
        let asgs = NodeHelper::find_all(t, fd, "assignment");
        let ghost start = fields.deep_view();
        let kw = to_chars("self.");
        let mut j: usize = 0;
        proof {
            assert(asgs@.skip(0) =~= asgs@);
        }
        while j < asgs.len()
            invariant
                t.wf(),
                kw@ == "self."@,
                asgs@ == spec_find_all(*t, fd as int, "assignment"@),
                forall|x: int| 0 <= x < asgs@.len() ==> t.valid(#[trigger] asgs@[x] as int),
                j <= asgs@.len(),
                py_assign_fold(*t, asgs@.skip(j as int), fields.deep_view())
                    == py_assign_fold(*t, asgs@, start),
            decreases asgs@.len() - j,
        {
            let a = asgs[j];
            let ghost before = fields.deep_view();
            proof {
                assert(t.wf_node(a as int));
            }
            if t.nodes[a].children.len() > 0 {
                let left = t.nodes[a].children[0];
                if str_eq_local(&t.nodes[left].kind, "attribute") {
                    let txt = NodeHelper::text(t, left);
                    let chars = to_chars(txt.as_str());
                    if chars_starts_with(&chars, &kw) {
                        let fname = chars_range(&chars, kw.len(), chars.len());
                        proof {
                            assert(fname@ =~= chars@.skip("self."@.len() as int));
                        }
                        if !self.has_prefix_entry(fields, &fname) {
                            fields.push(from_chars(&fname));
                        }
                    }
                }
            }
            proof {
                assert(fields.deep_view() =~~= py_assign_step(*t, a as int, before));
                assert(asgs@.skip(j as int)[0] == asgs@[j as int]);
                assert(asgs@.skip(j as int).skip(1) =~= asgs@.skip(j + 1 as int));
            }
            j = j + 1;
        }
        proof {
            assert(asgs@.skip(asgs@.len() as int) =~= Seq::<usize>::empty());
        }
    }

    fn extract_class(&self, t: &SyntaxTree, node: usize) -> (r: Option<TypeSpec>)
        requires
            t.wf(),
            t.valid(node as int),
        ensures
            match r {
                Some(x) => py_class_record(*t, node as int) =~~= seq![x.deep_view()],
                None => py_class_record(*t, node as int) =~~= Seq::<TypeSpecV>::empty(),
            },
    {
        let nm = match NodeHelper::field(t, node, "name") {
            None => {
                return None;
            },
            Some(nm) => nm,
        };
        let name = NodeHelper::text(t, nm);
        let doc = self.extract_docstring(t, node);

        // base classes
        let mut embeds: Vec<String> = Vec::new();
        match NodeHelper::child_by_kind(t, node, "argument_list") {
            Some(args) => {
                proof {
                    assert(t.wf_node(args as int));
                }
                let ghost cs = children_of(*t, args as int);
                let nch = t.nodes[args].children.len();
                let mut k: usize = 0;
                while k < nch
                    invariant
                        t.wf(),
                        t.valid(args as int),
                        cs == children_of(*t, args as int),
                        nch == cs.len(),
                        t.wf_node(args as int),
                        k <= nch,
                        embeds.deep_view() == py_bases_of(*t, cs.take(k as int)),
                    decreases nch - k,
                {
                    let c = t.nodes[args].children[k];
                    if str_eq_local(&t.nodes[c].kind, "identifier") || str_eq_local(
                        &t.nodes[c].kind,
                        "attribute",
                    ) {
                        embeds.push(NodeHelper::text(t, c));
                    }
                    proof {
                        assert(cs.take(k + 1 as int).drop_last() =~= cs.take(k as int));
                        assert(cs.take(k + 1 as int).last() == cs[k as int]);
                        assert(embeds.deep_view() =~~= py_bases_of(*t, cs.take(k + 1 as int)));
                    }
                    k = k + 1;
                }
                proof {
                    assert(cs.take(cs.len() as int) =~= cs);
                }
            },
            None => {},
        }

        // fields and method signatures from the class body
        let mut fields: Vec<String> = Vec::new();
        let mut methods: Vec<String> = Vec::new();
        match NodeHelper::child_by_kind(t, node, "block") {
            Some(body) => {
                let tas = NodeHelper::find_all(t, body, "typed_assignment");
                let mut k: usize = 0;
                while k < tas.len()
                    invariant
                        t.wf(),
                        tas@ == spec_find_all(*t, body as int, "typed_assignment"@),
                        forall|x: int| 0 <= x < tas@.len() ==> t.valid(#[trigger] tas@[x] as int),
                        k <= tas@.len(),
                        fields.deep_view() == py_typed_of(*t, tas@.take(k as int)),
                    decreases tas@.len() - k,
                {
                    let a = tas[k];
                    proof {
                        assert(t.wf_node(a as int));
                    }
                    if t.nodes[a].children.len() > 2 {
                        let n0 = t.nodes[a].children[0];
                        let n2 = t.nodes[a].children[2];
                        let ty_txt = NodeHelper::text(t, n2);
                        let ty_chars = to_chars(ty_txt.as_str());
                        if !contains_char(&ty_chars, '(') {
                            let mut e = NodeHelper::text(t, n0);
                            e.append(": ");
                            e.append(ty_txt.as_str());
                            fields.push(e);
                        }
                    }
                    proof {
                        assert(tas@.take(k + 1 as int).drop_last() =~= tas@.take(k as int));
                        assert(tas@.take(k + 1 as int).last() == tas@[k as int]);
                        assert(fields.deep_view() =~~= py_typed_of(*t, tas@.take(k + 1 as int)));
                    }
                    k = k + 1;
                }
                proof {
                    assert(tas@.take(tas@.len() as int) =~= tas@);
                }

                let fds = NodeHelper::children_by_kind(t, body, "function_definition");
                let ghost base = fields.deep_view();
                let mut k2: usize = 0;
                proof {
                    assert(fds@.skip(0) =~= fds@);
                }
                while k2 < fds.len()
                    invariant
                        t.wf(),
                        fds@ == spec_children_by_kind(*t, body as int, "function_definition"@),
                        forall|x: int| 0 <= x < fds@.len() ==> t.valid(#[trigger] fds@[x] as int),
                        k2 <= fds@.len(),
                        methods.deep_view() == py_msigs_of(*t, fds@.take(k2 as int)),
                        py_init_fold(*t, fds@.skip(k2 as int), fields.deep_view())
                            == py_init_fold(*t, fds@, base),
                    decreases fds@.len() - k2,
                {
                    let fd = fds[k2];
                    let ghost before = fields.deep_view();
                    match NodeHelper::field_text(t, fd, "name") {
                        Some(n) => {
                            let is_dunder = str_starts_with(n.as_str(), "__");
                            let is_init = crate::strutil::str_eq(n.as_str(), "__init__");
                            if !is_dunder || is_init {
                                match self.build_func_signature(t, fd) {
                                    Some(sig) => {
                                        methods.push(sig);
                                    },
                                    None => {},
                                }
                            }
                            if is_init {
                                self.apply_init_assignments(t, fd, &mut fields);
                            }
                        },
                        None => {},
                    }
                    proof {
                        assert(fds@.take(k2 + 1 as int).drop_last() =~= fds@.take(k2 as int));
                        assert(fds@.take(k2 + 1 as int).last() == fds@[k2 as int]);
                        assert(methods.deep_view() =~~= py_msigs_of(
                            *t,
                            fds@.take(k2 + 1 as int),
                        ));
                        assert(fields.deep_view() =~~= py_fd_fields(
                            *t,
                            fds@[k2 as int] as int,
                            before,
                        ));
                        assert(fds@.skip(k2 as int)[0] == fds@[k2 as int]);
                        assert(fds@.skip(k2 as int).skip(1) =~= fds@.skip(k2 + 1 as int));
                    }
                    k2 = k2 + 1;
                }
                proof {
                    assert(fds@.skip(fds@.len() as int) =~= Seq::<usize>::empty());
                    assert(fds@.take(fds@.len() as int) =~= fds@);
                    assert(fields.deep_view() == py_class_fields(*t, node as int));
                }
            },
            None => {},
        }

        let ghost name0 = name@;
        let ghost doc0 = doc.deep_view();
        let mut disp = name;
        disp.append(" class");
        let x = TypeSpec {
            name: disp,
            doc,
            kind: "class".to_owned(),
            fields,
            methods,
            embeds,
            implements: None,
            implemented_by: Vec::new(),
            type_params: Vec::new(),
            variants: Vec::new(),
        };
        proof {
            assert(py_class_record(*t, node as int) =~~= seq![x.deep_view()]);
        }
        Some(x)
    }

    fn extract_classes(&self, t: &SyntaxTree) -> (r: Vec<TypeSpec>)
        requires
            t.wf(),
        ensures
            r.deep_view() == py_classes(*t),
    {
        let ns = NodeHelper::find_all(t, 0, "class_definition");
        let mut r: Vec<TypeSpec> = Vec::new();
        let mut k: usize = 0;
        while k < ns.len()
            invariant
                t.wf(),
                ns@ == spec_find_all(*t, 0, "class_definition"@),
                forall|j: int| 0 <= j < ns@.len() ==> t.valid(#[trigger] ns@[j] as int),
                k <= ns@.len(),
                r.deep_view() == py_classes_of(*t, ns@.take(k as int)),
            decreases ns@.len() - k,
        {
            match self.extract_class(t, ns[k]) {
                Some(x) => {
                    r.push(x);
                },
                None => {},
            }
            proof {
                assert(ns@.take(k + 1 as int).drop_last() =~= ns@.take(k as int));
                assert(ns@.take(k + 1 as int).last() == ns@[k as int]);
                assert(r.deep_view() =~~= py_classes_of(*t, ns@.take(k + 1 as int)));
            }
            k = k + 1;
        }
        proof {
            assert(ns@.take(ns@.len() as int) =~= ns@);
        }
        r
    }

    /// Extraction is a pure function of the source text and the path:
    /// on success the record is exactly [`py_file_record`] of the parsed
    /// tree, and the only failure is the grammar failing to produce a
    /// tree.
    pub(crate) fn extract_file(&self, source: &str, path: &str) -> (r: Result<
        FileSpec,
        ExtractError,
    >)
        ensures
            match r {
                Ok(spec) => python_parse(source@) is Some && spec.deep_view()
                    == py_file_record(python_parse(source@)->0, path@),
                Err(e) => python_parse(source@) is None && e == ExtractError::ParseFailure,
            },
    {
        match exec_python_parse(source) {
            None => Err(ExtractError::ParseFailure),
            Some(tree) => {
                let spec = FileSpec {
                    file: path.to_owned(),
                    package: self.extract_module(path),
                    imports: self.extract_imports(&tree),
                    types: self.extract_classes(&tree),
                    functions: self.extract_functions(&tree),
                    methods: self.extract_methods(&tree),
                    constants: self.extract_constants(&tree),
                    variables: Vec::new(),
                    errors: Vec::new(),
                };
                proof {
                    assert(spec.deep_view() =~~= py_file_record(tree, path@));
                }
                Ok(spec)
            },
        }
    }

    fn extract_constants(&self, t: &SyntaxTree) -> (r: Vec<ConstSpec>)
        requires
            t.wf(),
        ensures
            r.deep_view() == py_constants(*t),
    {
        let ns = NodeHelper::find_all(t, 0, "expression_statement");
        let mut r: Vec<ConstSpec> = Vec::new();
        let mut k: usize = 0;
        while k < ns.len()
            invariant
                t.wf(),
                ns@ == spec_find_all(*t, 0, "expression_statement"@),
                forall|j: int| 0 <= j < ns@.len() ==> t.valid(#[trigger] ns@[j] as int),
                k <= ns@.len(),
                r.deep_view() == py_consts_of(*t, ns@.take(k as int)),
            decreases ns@.len() - k,
        {
            let es = ns[k];
            if !self.is_inside_class(t, es) && !self.is_inside_function(t, es) {
                match NodeHelper::child_by_kind(t, es, "assignment") {
                    Some(a) => {
                        proof {
                            assert(t.wf_node(a as int));
                        }
                        let nch = t.nodes[a].children.len();
                        if nch > 0 {
                            let left = t.nodes[a].children[0];
                            if str_eq_local(&t.nodes[left].kind, "identifier") {
                                let name = NodeHelper::text(t, left);
                                let name_chars = to_chars(name.as_str());
                                if is_const_ident(&name_chars) {
                                    let value: Option<String> = if nch > 2 {
                                        let right = t.nodes[a].children[2];
                                        Some(NodeHelper::text(t, right))
                                    } else {
                                        None
                                    };
                                    let x = ConstSpec {
                                        name,
                                        ty_name: None,
                                        value,
                                        doc: None,
                                    };
                                    r.push(x);
                                }
                            }
                        }
                    },
                    None => {},
                }
            }
            proof {
                assert(ns@.take(k + 1 as int).drop_last() =~= ns@.take(k as int));
                assert(ns@.take(k + 1 as int).last() == ns@[k as int]);
                assert(r.deep_view() =~~= py_consts_of(*t, ns@.take(k + 1 as int)));
            }
            k = k + 1;
        }
        proof {
            assert(ns@.take(ns@.len() as int) =~= ns@);
        }
        r
    }
}

} // verus!
