//! Parsing: the only place the crate touches tree-sitter.
//!
//! Each grammar's parse is a pure function of the source text, so its
//! result is given a name (`go_parse`, …) that the language modules'
//! contracts build on.  The conversion into the [`SyntaxTree`] arena
//! walks the tree-sitter tree once, in preorder, and is trusted to
//! produce a well-formed arena.

use vstd::prelude::*;

use crate::records::ExtractError;
use crate::tree::{SynNode, SyntaxTree};

verus! {

#[verifier::external_type_specification]
#[verifier::external_body]
pub struct ExLanguage(tree_sitter::Language);

#[verifier::external_type_specification]
#[verifier::external_body]
pub struct ExParser(tree_sitter::Parser);

#[verifier::external_type_specification]
#[verifier::external_body]
pub struct ExNode<'tree>(tree_sitter::Node<'tree>);

/// Copies one tree-sitter node and its subtree into the arena, in
/// preorder, recording kind, text, field name, extra flag, row, and the
/// parent/child links.  Helper of [`parse_with`]; relies on tree-sitter's
/// `Node` and `TreeCursor` accessors.
#[verifier::external_body]
fn convert_node(
    node: tree_sitter::Node,
    parent: Option<usize>,
    field: Option<String>,
    source: &str,
    out: &mut Vec<SynNode>,
) {
    let idx = out.len();
    let kind = node.kind().to_string();
    let text = node.utf8_text(source.as_bytes()).unwrap_or("").to_string();
    let (extra, row) = (node.is_extra(), node.start_position().row);
    out.push(SynNode { kind, text, field_name: field, extra, row, parent, children: Vec::new() });
    let mut cursor = node.walk();
    if cursor.goto_first_child() {
        loop {
            let cidx = out.len();
            out[idx].children.push(cidx);
            let f = cursor.field_name().map(|s| s.to_string());
            convert_node(cursor.node(), Some(idx), f, source, out);
            if !cursor.goto_next_sibling() { break; }
        }
    }
}

/// Relies on tree-sitter's `Parser::parse` and [`convert_node`]: parses
/// `source` with the given grammar and copies the tree into an arena.
/// The copy is made in preorder, so the arena is well-formed.
#[verifier::external_body]
fn parse_with(language: tree_sitter::Language, source: &str) -> (r: Option<SyntaxTree>)
    ensures
        r is Some ==> r->0.wf(),
{
    let mut parser = tree_sitter::Parser::new();
    if parser.set_language(&language).is_err() {
        return None;
    }
    let tree = parser.parse(source, None)?;
    let mut nodes: Vec<SynNode> = Vec::new();
    convert_node(tree.root_node(), None, None, source, &mut nodes);
    Some(SyntaxTree { nodes })
}

/// What parsing Go source yields: a pure function of the text.
pub uninterp spec fn go_parse(s: Seq<char>) -> Option<SyntaxTree>;

/// What parsing Rust source yields: a pure function of the text.
pub uninterp spec fn rust_parse(s: Seq<char>) -> Option<SyntaxTree>;

/// What parsing Python source yields: a pure function of the text.
pub uninterp spec fn python_parse(s: Seq<char>) -> Option<SyntaxTree>;

/// What parsing TypeScript source yields: a pure function of the text.
pub uninterp spec fn ts_parse(s: Seq<char>) -> Option<SyntaxTree>;

/// What parsing TSX source yields: a pure function of the text.
pub uninterp spec fn tsx_parse(s: Seq<char>) -> Option<SyntaxTree>;

/// Relies on tree-sitter with the Go grammar: the result depends on the
/// source text alone, and a produced arena is well-formed.
#[verifier::external_body]
pub(crate) fn exec_go_parse(source: &str) -> (r: Option<SyntaxTree>)
    ensures
        r == go_parse(source@),
        r is Some ==> r->0.wf(),
{
    parse_with(tree_sitter_go::LANGUAGE.into(), source)
}

/// Relies on tree-sitter with the Rust grammar: the result depends on
/// the source text alone, and a produced arena is well-formed.
#[verifier::external_body]
pub(crate) fn exec_rust_parse(source: &str) -> (r: Option<SyntaxTree>)
    ensures
        r == rust_parse(source@),
        r is Some ==> r->0.wf(),
{
    parse_with(tree_sitter_rust::LANGUAGE.into(), source)
}

/// Relies on tree-sitter with the Python grammar: the result depends on
/// the source text alone, and a produced arena is well-formed.
#[verifier::external_body]
pub(crate) fn exec_python_parse(source: &str) -> (r: Option<SyntaxTree>)
    ensures
        r == python_parse(source@),
        r is Some ==> r->0.wf(),
{
    parse_with(tree_sitter_python::LANGUAGE.into(), source)
}

/// Relies on tree-sitter with the TypeScript grammar: the result depends
/// on the source text alone, and a produced arena is well-formed.
#[verifier::external_body]
pub(crate) fn exec_ts_parse(source: &str) -> (r: Option<SyntaxTree>)
    ensures
        r == ts_parse(source@),
        r is Some ==> r->0.wf(),
{
    parse_with(tree_sitter_typescript::LANGUAGE_TYPESCRIPT.into(), source)
}

/// Relies on tree-sitter with the TSX grammar: the result depends on the
/// source text alone, and a produced arena is well-formed.
#[verifier::external_body]
pub(crate) fn exec_tsx_parse(source: &str) -> (r: Option<SyntaxTree>)
    ensures
        r == tsx_parse(source@),
        r is Some ==> r->0.wf(),
{
    parse_with(tree_sitter_typescript::LANGUAGE_TSX.into(), source)
}

/// A parser for one grammar, wrapping tree-sitter's `Parser`.
pub struct TreeSitterParser {
    parser: tree_sitter::Parser,
}

impl TreeSitterParser {
    /// Relies on tree-sitter's `Parser::new` and `Parser::set_language`:
    /// fails only when the grammar's version is incompatible.
    #[verifier::external_body]
    pub fn new(language: tree_sitter::Language) -> (r: Result<TreeSitterParser, ExtractError>)
        ensures
            r is Err ==> r->Err_0 == ExtractError::ParseFailure,
    {
        let mut parser = tree_sitter::Parser::new();
        match parser.set_language(&language) {
            Ok(()) => Ok(TreeSitterParser { parser }),
            Err(_) => Err(ExtractError::ParseFailure),
        }
    }

    /// Relies on tree-sitter's `Parser::parse` and [`convert_node`]:
    /// parses the text with this parser's grammar; a produced arena is
    /// well-formed.
    #[verifier::external_body]
    pub fn parse(&mut self, source: &str) -> (r: Result<SyntaxTree, ExtractError>)
        ensures
            r is Ok ==> r->Ok_0.wf(),
    {
        match self.parser.parse(source, None) {
            Some(tree) => {
                let mut nodes: Vec<SynNode> = Vec::new();
                convert_node(tree.root_node(), None, None, source, &mut nodes);
                Ok(SyntaxTree { nodes })
            },
            None => Err(ExtractError::ParseFailure),
        }
    }
}

} // verus!
