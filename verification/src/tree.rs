//! The syntax-tree model and the language-independent query layer.
//!
//! A parsed source file is held as an arena of nodes in preorder: every
//! child's index is greater than its parent's, so ancestor walks and
//! sibling walks terminate, and a scan by index visits nodes in source
//! order.  All queries the language modules need — text, children by
//! kind, named fields, recursive search, the backward comment walk —
//! are verified against spec functions over this arena.

use vstd::prelude::*;

use crate::strutil::{
    chars_range, contains_seq, is_space, lemma_chars_deep_view, spec_contains_seq,
    spec_join_lines, spec_lines, spec_starts_with, spec_trim, spec_trim_end_matches,
    spec_trim_start, split_lines, to_chars, from_chars, chars_starts_with, trim_chars,
    trim_end_matches_seq, str_eq, join_lines_exec,
};

verus! {

/// One node of a parsed syntax tree.
pub struct SynNode {
    /// The grammar's kind tag for this node.
    pub kind: String,
    /// The exact source text this node spans.
    pub text: String,
    /// The grammar field name under which this node sits in its parent.
    pub field_name: Option<String>,
    /// Whether the grammar marks this node as an "extra" (comments and
    /// other nodes that may appear anywhere).
    pub extra: bool,
    /// 0-indexed source row of the node's start.
    pub row: usize,
    /// Arena index of the parent; `None` only for the root.
    pub parent: Option<usize>,
    /// Arena indices of the children, in source order.
    pub children: Vec<usize>,
}

/// A parsed syntax tree: nodes in preorder, node 0 the root.
pub struct SyntaxTree {
    pub nodes: Vec<SynNode>,
}

impl SyntaxTree {
    /// `i` is a valid arena index.
    pub open spec fn valid(self, i: int) -> bool {
        0 <= i < self.nodes@.len()
    }

    /// The links of node `i` are consistent: children lie after it, in
    /// strictly increasing order, and point back to it.
    pub open spec fn wf_node(self, i: int) -> bool {
        let ch = self.nodes@[i].children@;
        &&& (forall|k: int|
            0 <= k < ch.len() ==> i < #[trigger] ch[k] < self.nodes@.len()
                && self.nodes@[ch[k] as int].parent == Some(i as usize))
        &&& (forall|k1: int, k2: int|
            0 <= k1 < k2 < ch.len() ==> #[trigger] ch[k1] < #[trigger] ch[k2])
        &&& self.nodes@[i].row < usize::MAX
    }

    /// The parent link of node `i` is consistent: it points before `i`
    /// and `i` is among its children; only the root has none.
    pub open spec fn wf_parent(self, i: int) -> bool {
        if i == 0 {
            self.nodes@[0].parent is None
        } else {
            match self.nodes@[i].parent {
                None => false,
                Some(p) => p < i && self.nodes@[p as int].children@.contains(i as usize),
            }
        }
    }

    /// The whole arena is a consistent preorder tree.
    pub open spec fn wf(self) -> bool {
        &&& self.nodes@.len() > 0
        &&& (forall|i: int| self.valid(i) ==> #[trigger] self.wf_node(i))
        &&& (forall|i: int| self.valid(i) ==> #[trigger] self.wf_parent(i))
    }
}

/// The kind tag of node `i`.
pub open spec fn kind_of(t: SyntaxTree, i: int) -> Seq<char> {
    t.nodes@[i].kind@
}

/// The source text of node `i`.
pub open spec fn text_of(t: SyntaxTree, i: int) -> Seq<char> {
    t.nodes@[i].text@
}

/// The children of node `i`.
pub open spec fn children_of(t: SyntaxTree, i: int) -> Seq<usize> {
    t.nodes@[i].children@
}

/// `j` is `root` itself or lies in the subtree below `root`.
pub open spec fn in_subtree(t: SyntaxTree, root: int, j: int) -> bool
    decreases j,
{
    if j == root {
        true
    } else {
        match t.nodes@[j].parent {
            None => false,
            Some(p) => 0 <= (p as int) < j && in_subtree(t, root, p as int),
        }
    }
}

/// First entry of `ch` from position `k` on whose kind is `kind`.
pub open spec fn first_child_kind_from(t: SyntaxTree, ch: Seq<usize>, k: int, kind: Seq<char>)
    -> Option<usize>
    decreases ch.len() - k,
{
    if k < 0 || k >= ch.len() {
        None
    } else if kind_of(t, ch[k] as int) == kind {
        Some(ch[k])
    } else {
        first_child_kind_from(t, ch, k + 1, kind)
    }
}

/// The first direct child of `i` with kind `kind`.
pub open spec fn spec_child_by_kind(t: SyntaxTree, i: int, kind: Seq<char>) -> Option<usize> {
    first_child_kind_from(t, children_of(t, i), 0, kind)
}

/// The direct children of `i` with kind `kind`, among the first `n`.
pub open spec fn children_kind_upto(t: SyntaxTree, ch: Seq<usize>, n: int, kind: Seq<char>)
    -> Seq<usize>
    decreases n,
{
    if n <= 0 {
        Seq::empty()
    } else {
        let pre = children_kind_upto(t, ch, n - 1, kind);
        if 0 <= n - 1 < ch.len() && kind_of(t, ch[n - 1] as int) == kind {
            pre.push(ch[n - 1])
        } else {
            pre
        }
    }
}

/// All direct children of `i` with kind `kind`, in order.
pub open spec fn spec_children_by_kind(t: SyntaxTree, i: int, kind: Seq<char>) -> Seq<usize> {
    children_kind_upto(t, children_of(t, i), children_of(t, i).len() as int, kind)
}

/// First entry of `ch` from position `k` on that sits under field `name`.
pub open spec fn first_field_from(t: SyntaxTree, ch: Seq<usize>, k: int, name: Seq<char>)
    -> Option<usize>
    decreases ch.len() - k,
{
    if k < 0 || k >= ch.len() {
        None
    } else if match t.nodes@[ch[k] as int].field_name {
        Some(f) => f@ == name,
        None => false,
    } {
        Some(ch[k])
    } else {
        first_field_from(t, ch, k + 1, name)
    }
}

/// The first child of `i` under the grammar field `name`; absence is a
/// normal outcome, since many grammar productions are optional.
pub open spec fn spec_field(t: SyntaxTree, i: int, name: Seq<char>) -> Option<usize> {
    first_field_from(t, children_of(t, i), 0, name)
}

/// The text of the field `name` of `i`, when present.
pub open spec fn spec_field_text(t: SyntaxTree, i: int, name: Seq<char>) -> Option<Seq<char>> {
    match spec_field(t, i, name) {
        Some(c) => Some(text_of(t, c as int)),
        None => None,
    }
}

/// The nodes with kind `kind` in the subtree of `root`, among indices
/// below `n`, in index (that is, preorder) order.
pub open spec fn find_all_upto(t: SyntaxTree, root: int, kind: Seq<char>, n: int) -> Seq<usize>
    decreases n,
{
    if n <= 0 {
        Seq::empty()
    } else {
        let pre = find_all_upto(t, root, kind, n - 1);
        if in_subtree(t, root, n - 1) && kind_of(t, n - 1) == kind {
            pre.push((n - 1) as usize)
        } else {
            pre
        }
    }
}

/// Every node of kind `kind` anywhere in the subtree of `root`, in
/// preorder.
pub open spec fn spec_find_all(t: SyntaxTree, root: int, kind: Seq<char>) -> Seq<usize> {
    find_all_upto(t, root, kind, t.nodes@.len() as int)
}

/// Some proper ancestor of `i` has kind `kind`.
pub open spec fn spec_inside_kind(t: SyntaxTree, i: int, kind: Seq<char>) -> bool
    decreases i,
{
    match t.nodes@[i].parent {
        None => false,
        Some(p) => 0 <= (p as int) < i && (kind_of(t, p as int) == kind || spec_inside_kind(
            t,
            p as int,
            kind,
        )),
    }
}

/// The position of `x` in `ch` (meaningful when `ch` holds `x` once).
pub open spec fn pos_in(ch: Seq<usize>, x: usize) -> int {
    choose|k: int| 0 <= k < ch.len() && ch[k] == x
}

/// The sibling directly before `i` under its parent.
pub open spec fn spec_prev_sibling(t: SyntaxTree, i: int) -> Option<usize> {
    match t.nodes@[i].parent {
        None => None,
        Some(p) => {
            let ch = children_of(t, p as int);
            if ch.contains(i as usize) {
                let k = pos_in(ch, i as usize);
                if k > 0 {
                    Some(ch[k - 1])
                } else {
                    None
                }
            } else {
                None
            }
        },
    }
}

/// The comment forms every language module recognizes.
pub open spec fn is_comment_kind(k: Seq<char>) -> bool {
    k == "comment"@ || k == "line_comment"@ || k == "block_comment"@
}

/// A sibling the backward walk steps over without collecting.
pub open spec fn spec_skippable(t: SyntaxTree, p: int) -> bool {
    spec_contains_seq(kind_of(t, p), "whitespace"@) || t.nodes@[p].extra
}

/// One comment line with its marker syntax stripped.
pub open spec fn spec_clean_line(l: Seq<char>) -> Seq<char> {
    let tr = spec_trim(l);
    if spec_starts_with(tr, "///"@) {
        spec_trim(tr.skip(3))
    } else if spec_starts_with(tr, "//!"@) {
        spec_trim(tr.skip(3))
    } else if spec_starts_with(tr, "//"@) {
        spec_trim(tr.skip(2))
    } else if spec_starts_with(tr, "/*"@) {
        spec_trim(spec_trim_end_matches(spec_trim_start(tr.skip(2)), "*/"@))
    } else if spec_starts_with(tr, "*/"@) {
        Seq::empty()
    } else if tr.len() > 0 && tr[0] == '*' {
        spec_trim(tr.skip(1))
    } else if tr.len() > 0 && tr[0] == '#' {
        spec_trim(tr.skip(1))
    } else if spec_starts_with(tr, "\"\"\""@) || spec_starts_with(tr, "'''"@) {
        spec_trim(
            spec_trim_end_matches(spec_trim_end_matches(tr.skip(3), "\"\"\""@), "'''"@),
        )
    } else {
        tr
    }
}

/// The cleaned lines, with lines that clean to nothing discarded.
pub open spec fn cleaned_lines(ls: Seq<Seq<char>>) -> Seq<Seq<char>>
    decreases ls.len(),
{
    if ls.len() == 0 {
        Seq::empty()
    } else {
        let rest = cleaned_lines(ls.drop_last());
        let c = spec_clean_line(ls.last());
        if c.len() > 0 {
            rest.push(c)
        } else {
            rest
        }
    }
}

/// A whole comment with markers stripped from each line and empty lines
/// discarded, the survivors joined with single newlines.
pub open spec fn spec_clean_comment(s: Seq<char>) -> Seq<char> {
    spec_join_lines(cleaned_lines(spec_lines(s)))
}

/// The cleaned texts of the comments directly before node `i`, in source
/// order: the backward sibling walk collects comments, steps over
/// whitespace and "extra" nodes, and stops at anything else.
pub open spec fn doc_comments(t: SyntaxTree, i: int) -> Seq<Seq<char>>
    decreases i,
{
    match spec_prev_sibling(t, i) {
        None => Seq::empty(),
        Some(p) => {
            if !(0 <= (p as int) < i) {
                Seq::empty()
            } else if is_comment_kind(kind_of(t, p as int)) {
                doc_comments(t, p as int).push(spec_clean_comment(text_of(t, p as int)))
            } else if spec_skippable(t, p as int) {
                doc_comments(t, p as int)
            } else {
                Seq::empty()
            }
        },
    }
}

/// The documentation attached to node `i`: the cleaned preceding
/// comments joined with newlines, or nothing when there are none.
pub open spec fn spec_preceding_comment(t: SyntaxTree, i: int) -> Option<Seq<char>> {
    let cs = doc_comments(t, i);
    if cs.len() == 0 {
        None
    } else {
        Some(spec_join_lines(cs))
    }
}

/// In a well-formed tree the subtree of `root` lies at or after `root`.
pub proof fn lemma_in_subtree_bounds(t: SyntaxTree, root: int, j: int)
    requires
        in_subtree(t, root, j),
    ensures
        j >= root,
    decreases j,
{
    if j != root {
        match t.nodes@[j].parent {
            None => {},
            Some(p) => {
                lemma_in_subtree_bounds(t, root, p as int);
            },
        }
    }
}

/// A value occurs at only one position in a strictly increasing child
/// list.
pub proof fn lemma_child_pos_unique(t: SyntaxTree, p: int, a: int, b: int)
    requires
        t.wf(),
        t.valid(p),
        0 <= a < children_of(t, p).len(),
        0 <= b < children_of(t, p).len(),
        children_of(t, p)[a] == children_of(t, p)[b],
    ensures
        a == b,
{
    assert(t.wf_node(p));
    if a < b {
        assert(children_of(t, p)[a] < children_of(t, p)[b]);
    }
    if b < a {
        assert(children_of(t, p)[b] < children_of(t, p)[a]);
    }
}

/// Helper functions for reading a parsed syntax tree.
pub struct NodeHelper;

impl NodeHelper {
    /// The exact source text node `node` spans.
    pub fn text(t: &SyntaxTree, node: usize) -> (r: String)
        requires
            t.wf(),
            t.valid(node as int),
        ensures
            r@ == text_of(*t, node as int),
    {
        t.nodes[node].text.clone()
    }

    /// The 1-indexed source line of node `node`, for diagnostics only.
    pub fn line_number(t: &SyntaxTree, node: usize) -> (r: usize)
        requires
            t.wf(),
            t.valid(node as int),
        ensures
            r == t.nodes@[node as int].row + 1,
    {
        proof {
            assert(t.wf_node(node as int));
        }
        t.nodes[node].row + 1
    }

    /// The first direct child of `node` with the given kind.
    pub fn child_by_kind(t: &SyntaxTree, node: usize, kind: &str) -> (r: Option<usize>)
        requires
            t.wf(),
            t.valid(node as int),
        ensures
            r == spec_child_by_kind(*t, node as int, kind@),
            r is Some ==> t.valid(r->0 as int),
    {
        let ghost ch = children_of(*t, node as int);
        proof {
            assert(t.wf_node(node as int));
        }
        let nch = t.nodes[node].children.len();
        let mut k: usize = 0;
        while k < nch
            invariant
                t.wf(),
                t.valid(node as int),
                nch == ch.len(),
                ch == children_of(*t, node as int),
                k <= nch,
                t.wf_node(node as int),
                spec_child_by_kind(*t, node as int, kind@) == first_child_kind_from(
                    *t,
                    ch,
                    k as int,
                    kind@,
                ),
            decreases nch - k,
        {
            let c = t.nodes[node].children[k];
            if str_eq(t.nodes[c].kind.as_str(), kind) {
                return Some(c);
            }
            k = k + 1;
        }
        None
    }

    /// All direct children of `node` with the given kind, in order.
    pub fn children_by_kind(t: &SyntaxTree, node: usize, kind: &str) -> (r: Vec<usize>)
        requires
            t.wf(),
            t.valid(node as int),
        ensures
            r@ == spec_children_by_kind(*t, node as int, kind@),
            forall|j: int| 0 <= j < r@.len() ==> t.valid(#[trigger] r@[j] as int),
    {
        let ghost ch = children_of(*t, node as int);
        proof {
            assert(t.wf_node(node as int));
        }
        let nch = t.nodes[node].children.len();
        let mut r: Vec<usize> = Vec::new();
        let mut k: usize = 0;
        while k < nch
            invariant
                t.wf(),
                t.valid(node as int),
                nch == ch.len(),
                ch == children_of(*t, node as int),
                k <= nch,
                t.wf_node(node as int),
                r@ == children_kind_upto(*t, ch, k as int, kind@),
                forall|j: int| 0 <= j < r@.len() ==> t.valid(#[trigger] r@[j] as int),
            decreases nch - k,
        {
            let c = t.nodes[node].children[k];
            if str_eq(t.nodes[c].kind.as_str(), kind) {
                r.push(c);
            }
            k = k + 1;
        }
        r
    }

    /// Whether `node` has a direct child of the given kind.
    pub fn has_child_kind(t: &SyntaxTree, node: usize, kind: &str) -> (r: bool)
        requires
            t.wf(),
            t.valid(node as int),
        ensures
            r == (spec_child_by_kind(*t, node as int, kind@) is Some),
    {
        Self::child_by_kind(t, node, kind).is_some()
    }

    /// The child of `node` under the grammar field `name`; absence is a
    /// normal, non-error outcome.
    pub fn field(t: &SyntaxTree, node: usize, name: &str) -> (r: Option<usize>)
        requires
            t.wf(),
            t.valid(node as int),
        ensures
            r == spec_field(*t, node as int, name@),
            r is Some ==> t.valid(r->0 as int),
    {
        let ghost ch = children_of(*t, node as int);
        proof {
            assert(t.wf_node(node as int));
        }
        let nch = t.nodes[node].children.len();
        let mut k: usize = 0;
        while k < nch
            invariant
                t.wf(),
                t.valid(node as int),
                nch == ch.len(),
                ch == children_of(*t, node as int),
                k <= nch,
                t.wf_node(node as int),
                spec_field(*t, node as int, name@) == first_field_from(*t, ch, k as int, name@),
            decreases nch - k,
        {
            let c = t.nodes[node].children[k];
            let hit = match &t.nodes[c].field_name {
                Some(f) => str_eq(f.as_str(), name),
                None => false,
            };
            if hit {
                return Some(c);
            }
            k = k + 1;
        }
        None
    }

    /// The text of the field `name` of `node`, when present.
    pub fn field_text(t: &SyntaxTree, node: usize, name: &str) -> (r: Option<String>)
        requires
            t.wf(),
            t.valid(node as int),
        ensures
            r.deep_view() == spec_field_text(*t, node as int, name@),
    {
        match Self::field(t, node, name) {
            Some(c) => Some(Self::text(t, c)),
            None => None,
        }
    }

    /// Whether `j` lies in the subtree rooted at `root`.
    pub fn is_in_subtree(t: &SyntaxTree, root: usize, j: usize) -> (r: bool)
        requires
            t.wf(),
            t.valid(root as int),
            t.valid(j as int),
        ensures
            r == in_subtree(*t, root as int, j as int),
    {
        let mut cur = j;
        while cur != root
            invariant
                t.wf(),
                t.valid(root as int),
                t.valid(cur as int),
                in_subtree(*t, root as int, j as int) == in_subtree(
                    *t,
                    root as int,
                    cur as int,
                ),
            decreases cur,
        {
            proof {
                assert(t.wf_parent(cur as int));
            }
            match t.nodes[cur].parent {
                None => {
                    return false;
                },
                Some(p) => {
                    cur = p;
                },
            }
        }
        true
    }

    /// Every node of the given kind anywhere in the subtree of `root`,
    /// in preorder.
    pub fn find_all(t: &SyntaxTree, root: usize, kind: &str) -> (r: Vec<usize>)
        requires
            t.wf(),
            t.valid(root as int),
        ensures
            r@ == spec_find_all(*t, root as int, kind@),
            forall|j: int| 0 <= j < r@.len() ==> t.valid(#[trigger] r@[j] as int),
    {
        let mut r: Vec<usize> = Vec::new();
        let n = t.nodes.len();
        let mut j: usize = 0;
        while j < n
            invariant
                t.wf(),
                t.valid(root as int),
                n == t.nodes@.len(),
                j <= n,
                r@ == find_all_upto(*t, root as int, kind@, j as int),
                forall|k: int| 0 <= k < r@.len() ==> t.valid(#[trigger] r@[k] as int),
            decreases n - j,
        {
            if str_eq(t.nodes[j].kind.as_str(), kind) && Self::is_in_subtree(t, root, j) {
                r.push(j);
            }
            j = j + 1;
        }
        r
    }

    /// Whether some proper ancestor of `node` has the given kind.
    pub fn inside_kind(t: &SyntaxTree, node: usize, kind: &str) -> (r: bool)
        requires
            t.wf(),
            t.valid(node as int),
        ensures
            r == spec_inside_kind(*t, node as int, kind@),
    {
        let mut cur = node;
        while t.nodes[cur].parent.is_some()
            invariant
                t.wf(),
                t.valid(cur as int),
                spec_inside_kind(*t, node as int, kind@) == spec_inside_kind(
                    *t,
                    cur as int,
                    kind@,
                ),
            decreases cur,
        {
            proof {
                assert(t.wf_parent(cur as int));
            }
            let p = t.nodes[cur].parent.unwrap();
            if str_eq(t.nodes[p].kind.as_str(), kind) {
                return true;
            }
            cur = p;
        }
        false
    }

    /// The sibling directly before `node`, when it has one.
    pub fn prev_sibling(t: &SyntaxTree, node: usize) -> (r: Option<usize>)
        requires
            t.wf(),
            t.valid(node as int),
        ensures
            r == spec_prev_sibling(*t, node as int),
            r is Some ==> t.valid(r->0 as int) && (r->0 as int) < node,
    {
        proof {
            assert(t.wf_parent(node as int));
        }
        let p = match t.nodes[node].parent {
            None => {
                return None;
            },
            Some(p) => p,
        };
        proof {
            assert(t.wf_node(p as int));
        }
        let ghost ch = children_of(*t, p as int);
        let nch = t.nodes[p].children.len();
        let mut k: usize = 0;
        while k < nch
            invariant
                t.wf(),
                t.valid(node as int),
                t.valid(p as int),
                t.nodes@[node as int].parent == Some(p),
                ch == children_of(*t, p as int),
                nch == ch.len(),
                k <= nch,
                forall|j: int| 0 <= j < k ==> ch[j] != node,
            decreases nch - k,
        {
            let c = t.nodes[p].children[k];
            if c == node {
                proof {
                    assert(ch.contains(node));
                    let k0 = pos_in(ch, node);
                    lemma_child_pos_unique(*t, p as int, k as int, k0);
                    assert(t.wf_node(p as int));
                    if k > 0 {
                        assert(ch[k - 1] < ch[k as int]);
                        assert(t.wf_node(p as int));
                    }
                }
                if k > 0 {
                    let s = t.nodes[p].children[k - 1];
                    return Some(s);
                } else {
                    return None;
                }
            }
            k = k + 1;
        }
        proof {
            assert(t.wf_parent(node as int));
            assert(ch.contains(node));
            let k0 = pos_in(ch, node);
            assert(0 <= k0 < ch.len() && ch[k0] == node);
            assert(false);
        }
        None
    }

    /// One comment's text with its marker syntax stripped from each
    /// line; lines that clean to nothing are discarded.
    pub fn clean_comment(comment: &str) -> (r: String)
        ensures
            r@ == spec_clean_comment(comment@),
    {
        let v = to_chars(comment);
        let cleaned = Self::clean_comment_chars(&v);
        from_chars(&cleaned)
    }

    /// Character-level form of [`Self::clean_comment`].
    pub fn clean_comment_chars(v: &Vec<char>) -> (r: Vec<char>)
        ensures
            r@ == spec_clean_comment(v@),
    {
        broadcast use lemma_chars_deep_view;

        let ls = split_lines(v);
        let mut keep: Vec<Vec<char>> = Vec::new();
        let mut k: usize = 0;
        while k < ls.len()
            invariant
                k <= ls@.len(),
                ls.deep_view() == spec_lines(v@),
                ls.deep_view().len() == ls@.len(),
                keep.deep_view() == cleaned_lines(ls.deep_view().take(k as int)),
            decreases ls@.len() - k,
        {
            let c = Self::clean_line(&ls[k]);
            let ghost pre = keep.deep_view();
            if c.len() > 0 {
                keep.push(c);
            }
            proof {
                let taken = ls.deep_view().take(k + 1 as int);
                assert(taken.drop_last() =~~= ls.deep_view().take(k as int));
                assert(taken.last() == ls.deep_view()[k as int]);
                assert(ls.deep_view()[k as int] == ls@[k as int]@);
                if c@.len() > 0 {
                    assert(keep.deep_view() =~~= pre.push(c@));
                    assert(cleaned_lines(taken) =~~= pre.push(spec_clean_line(taken.last())));
                } else {
                    assert(cleaned_lines(taken) =~~= pre);
                }
            }
            k = k + 1;
        }
        proof {
            assert(ls.deep_view().take(ls@.len() as int) =~~= ls.deep_view());
        }
        join_lines_exec(&keep)
    }

    /// One line of a comment with its marker stripped, as
    /// [`spec_clean_line`] states.
    pub fn clean_line(l: &Vec<char>) -> (r: Vec<char>)
        ensures
            r@ == spec_clean_line(l@),
    {
        proof {
            reveal_strlit("///");
            reveal_strlit("//!");
            reveal_strlit("//");
            reveal_strlit("/*");
            reveal_strlit("*/");
            reveal_strlit("\"\"\"");
            reveal_strlit("'''");
        }
        let tr = trim_chars(l);
        let p_doc = to_chars("///");
        let p_inner = to_chars("//!");
        let p_line = to_chars("//");
        let p_block = to_chars("/*");
        let p_close = to_chars("*/");
        let p_dq = to_chars("\"\"\"");
        let p_sq = to_chars("'''");
        if chars_starts_with(&tr, &p_doc) {
            let rest = chars_range(&tr, 3, tr.len());
            proof {
                assert(rest@ =~= tr@.skip(3));
            }
            trim_chars(&rest)
        } else if chars_starts_with(&tr, &p_inner) {
            let rest = chars_range(&tr, 3, tr.len());
            proof {
                assert(rest@ =~= tr@.skip(3));
            }
            trim_chars(&rest)
        } else if chars_starts_with(&tr, &p_line) {
            let rest = chars_range(&tr, 2, tr.len());
            proof {
                assert(rest@ =~= tr@.skip(2));
            }
            trim_chars(&rest)
        } else if chars_starts_with(&tr, &p_block) {
            let rest = chars_range(&tr, 2, tr.len());
            proof {
                assert(rest@ =~= tr@.skip(2));
            }
            let rest2 = Self::trim_start_chars(&rest);
            let rest3 = trim_end_matches_seq(&rest2, &p_close);
            trim_chars(&rest3)
        } else if chars_starts_with(&tr, &p_close) {
            Vec::new()
        } else if tr.len() > 0 && tr[0] == '*' {
            let rest = chars_range(&tr, 1, tr.len());
            proof {
                assert(rest@ =~= tr@.skip(1));
            }
            trim_chars(&rest)
        } else if tr.len() > 0 && tr[0] == '#' {
            let rest = chars_range(&tr, 1, tr.len());
            proof {
                assert(rest@ =~= tr@.skip(1));
            }
            trim_chars(&rest)
        } else if chars_starts_with(&tr, &p_dq) || chars_starts_with(&tr, &p_sq) {
            let rest = chars_range(&tr, 3, tr.len());
            proof {
                assert(rest@ =~= tr@.skip(3));
            }
            let rest2 = trim_end_matches_seq(&rest, &p_dq);
            let rest3 = trim_end_matches_seq(&rest2, &p_sq);
            trim_chars(&rest3)
        } else {
            tr
        }
    }

    /// Leading whitespace removed.
    pub fn trim_start_chars(v: &Vec<char>) -> (r: Vec<char>)
        ensures
            r@ == spec_trim_start(v@),
    {
        let mut a: usize = 0;
        while a < v.len() && crate::strutil::char_is_space(v[a])
            invariant
                a <= v@.len(),
                forall|j: int| 0 <= j < a ==> is_space(v@[j]),
            decreases v@.len() - a,
        {
            a = a + 1;
        }
        proof {
            crate::strutil::lemma_leading_spaces_exact(v@, a as int);
        }
        chars_range(v, a, v.len())
    }

    /// The documentation before `node`: cleaned preceding comments in
    /// source order joined with newlines, or nothing when there are
    /// none.  This single heuristic is shared by every language module.
    pub fn preceding_comment(t: &SyntaxTree, node: usize) -> (r: Option<String>)
        requires
            t.wf(),
            t.valid(node as int),
        ensures
            r.deep_view() == spec_preceding_comment(*t, node as int),
    {
        broadcast use lemma_chars_deep_view;

        let mut collected: Vec<Vec<char>> = Vec::new();
        let mut cur = node;
        let kw_ws = to_chars("whitespace");
        let mut finished = false;
        while !finished
            invariant
                t.wf(),
                t.valid(cur as int),
                kw_ws@ == "whitespace"@,
                doc_comments(*t, node as int) =~~= (if finished {
                    Seq::<Seq<char>>::empty()
                } else {
                    doc_comments(*t, cur as int)
                }) + collected.deep_view().reverse(),
            decreases cur + 1 + (if finished { 0int } else { 1int }),
        {
            match Self::prev_sibling(t, cur) {
                None => {
                    proof {
                        assert(spec_prev_sibling(*t, cur as int) is None);
                        assert(doc_comments(*t, cur as int) =~~= Seq::<Seq<char>>::empty());
                    }
                    finished = true;
                },
                Some(p) => {
                    let pk = &t.nodes[p].kind;
                    if str_eq(pk.as_str(), "comment") || str_eq(pk.as_str(), "line_comment")
                        || str_eq(pk.as_str(), "block_comment") {
                        let txt = to_chars(t.nodes[p].text.as_str());
                        let cleaned = Self::clean_comment_chars(&txt);
                        let ghost pre = collected.deep_view();
                        collected.push(cleaned);
                        proof {
                            assert(collected.deep_view() =~~= pre.push(
                                spec_clean_comment(text_of(*t, p as int)),
                            ));
                            assert(collected.deep_view().reverse() =~~= seq![
                                spec_clean_comment(text_of(*t, p as int)),
                            ] + pre.reverse());
                            assert(doc_comments(*t, cur as int) =~~= doc_comments(
                                *t,
                                p as int,
                            ).push(spec_clean_comment(text_of(*t, p as int))));
                        }
                        cur = p;
                    } else {
                        let kchars = to_chars(pk.as_str());
                        if contains_seq(&kchars, &kw_ws) || t.nodes[p].extra {
                            proof {
                                assert(spec_skippable(*t, p as int));
                                assert(doc_comments(*t, cur as int) =~~= doc_comments(
                                    *t,
                                    p as int,
                                ));
                            }
                            cur = p;
                        } else {
                            proof {
                                assert(!is_comment_kind(kind_of(*t, p as int)));
                                assert(!spec_skippable(*t, p as int));
                                assert(doc_comments(*t, cur as int)
                                    =~~= Seq::<Seq<char>>::empty());
                            }
                            finished = true;
                        }
                    }
                },
            }
        }
        if collected.len() == 0 {
            proof {
                assert(doc_comments(*t, node as int) =~~= Seq::<Seq<char>>::empty());
            }
            return None;
        }
        // reverse into source order
        let mut ordered: Vec<Vec<char>> = Vec::new();
        let mut k: usize = collected.len();
        while k > 0
            invariant
                k <= collected@.len(),
                collected.deep_view().len() == collected@.len(),
                ordered.deep_view() =~~= collected.deep_view().subrange(
                    k as int,
                    collected@.len() as int,
                ).reverse(),
            decreases k,
    {
            k = k - 1;
            let ghost pre = ordered.deep_view();
            let item = chars_range(&collected[k], 0, collected[k].len());
            proof {
                assert(item@ =~= collected@[k as int]@);
            }
            ordered.push(item);
            proof {
                let tail = collected.deep_view().subrange(
                    k as int,
                    collected@.len() as int,
                );
                assert(ordered.deep_view() =~~= pre.push(collected.deep_view()[k as int]));
                assert(tail.reverse() =~~= collected.deep_view().subrange(
                    k + 1 as int,
                    collected@.len() as int,
                ).reverse().push(tail[0]));
            }
        }
        proof {
            assert(collected.deep_view().subrange(0, collected@.len() as int) =~~= (
            collected.deep_view()));
            assert(ordered.deep_view() =~~= doc_comments(*t, node as int));
        }
        let joined = join_lines_exec(&ordered);
        Some(from_chars(&joined))
    }
}

} // verus!
