//! A parsed source file as a flat arena of labeled nodes.
//!
//! Each node carries its kind tag, its source text, the field label under
//! which it sits in its parent (if any), and the arena indices of its
//! children. Well-formed trees store every child at an index strictly
//! greater than its parent's, which makes every walk terminate.

use vstd::prelude::*;

use crate::strutil::str_eq;

verus! {

/// One node of a parsed syntax tree.
pub struct SynNode {
    /// Kind tag of the node (`"struct_item"`, `"line_comment"`, ...).
    pub kind: String,
    /// The source text this node spans.
    pub text: String,
    /// Field label under which the parent holds this node, if any.
    pub field: Option<String>,
    /// Arena indices of the node's children, in source order.
    pub children: Vec<usize>,
}

/// Mathematical image of one syntax node.
pub struct SynNodeV {
    pub kind: Seq<char>,
    pub text: Seq<char>,
    pub field: Option<Seq<char>>,
    pub children: Seq<int>,
}

/// The view of an optional string.
pub open spec fn opt_view(o: Option<String>) -> Option<Seq<char>> {
    match o {
        Some(s) => Some(s@),
        None => None,
    }
}

impl View for SynNode {
    type V = SynNodeV;

    open spec fn view(&self) -> SynNodeV {
        SynNodeV {
            kind: self.kind@,
            text: self.text@,
            field: opt_view(self.field),
            children: self.children@.map_values(|c: usize| c as int),
        }
    }
}

/// A whole parsed file: node `0` is the root.
pub struct SyntaxTree {
    pub nodes: Vec<SynNode>,
}

impl View for SyntaxTree {
    type V = Seq<SynNodeV>;

    open spec fn view(&self) -> Seq<SynNodeV> {
        self.nodes@.map_values(|n: SynNode| n@)
    }
}

/// A tree is well-formed when it is non-empty and every child index points
/// past its parent and into the arena.
pub open spec fn tree_wf(t: Seq<SynNodeV>) -> bool {
    &&& t.len() > 0
    &&& forall|i: int, j: int|
        0 <= i < t.len() && 0 <= j < t[i].children.len() ==> i < #[trigger] t[i].children[j]
            < t.len()
}

impl SyntaxTree {
    /// Number of nodes in the arena.
    pub fn len(&self) -> (n: usize)
        ensures
            n == self@.len(),
    {
        self.nodes.len()
    }

    /// Number of children of node `i`.
    pub fn num_children(&self, i: usize) -> (n: usize)
        requires
            i < self@.len(),
        ensures
            n == self@[i as int].children.len(),
    {
        self.nodes[i].children.len()
    }

    /// The `j`-th child of node `i`.
    pub fn child(&self, i: usize, j: usize) -> (c: usize)
        requires
            tree_wf(self@),
            i < self@.len(),
            j < self@[i as int].children.len(),
        ensures
            c as int == self@[i as int].children[j as int],
            i < c < self@.len(),
    {
        self.nodes[i].children[j]
    }

    /// The kind tag of node `i`.
    pub fn kind_of(&self, i: usize) -> (k: &String)
        requires
            i < self@.len(),
        ensures
            k@ == self@[i as int].kind,
    {
        &self.nodes[i].kind
    }

    /// The source text of node `i`.
    pub fn text_of(&self, i: usize) -> (s: &String)
        requires
            i < self@.len(),
        ensures
            s@ == self@[i as int].text,
    {
        &self.nodes[i].text
    }

    /// `true` when node `i` has kind `k`.
    pub fn kind_is(&self, i: usize, k: &str) -> (r: bool)
        requires
            i < self@.len(),
        ensures
            r == (self@[i as int].kind == k@),
    {
        str_eq(self.nodes[i].kind.as_str(), k)
    }

    /// First child of node `i` whose field label is `name`, if any.
    pub fn child_by_field(&self, i: usize, name: &str) -> (r: Option<usize>)
        requires
            tree_wf(self@),
            i < self@.len(),
        ensures
            match r {
                Some(c) => spec_child_by_field(self@, i as int, name@) == Some(c as int) && (
                i as int) < c < self@.len(),
                None => spec_child_by_field(self@, i as int, name@) is None,
            },
    {
        let ghost cs = self@[i as int].children;
        let n = self.num_children(i);
        let mut k: usize = 0;
        while k < n
            invariant
                k <= n,
                n == cs.len(),
                tree_wf(self@),
                i < self@.len(),
                cs == self@[i as int].children,
                find_field_from(self@, cs, 0, name@) == find_field_from(self@, cs, k as int, name@),
            decreases n - k,
        {
            let c = self.child(i, k);
            let matches = match &self.nodes[c].field {
                Some(f) => str_eq(f.as_str(), name),
                None => false,
            };
            proof {
                assert(self@[c as int].field == opt_view(self.nodes@[c as int].field));
            }
            if matches {
                return Some(c);
            }
            k += 1;
        }
        None
    }
}

/// First entry of `cs` at or after position `k` naming a node whose field
/// label is `name`.
pub open spec fn find_field_from(t: Seq<SynNodeV>, cs: Seq<int>, k: int, name: Seq<char>) -> Option<
    int,
>
    decreases cs.len() - k,
    when 0 <= k
{
    if k >= cs.len() {
        None
    } else if 0 <= cs[k] < t.len() && t[cs[k]].field == Some(name) {
        Some(cs[k])
    } else {
        find_field_from(t, cs, k + 1, name)
    }
}

/// First child of node `i` whose field label is `name`.
pub open spec fn spec_child_by_field(t: Seq<SynNodeV>, i: int, name: Seq<char>) -> Option<int> {
    find_field_from(t, t[i].children, 0, name)
}

/// Runtime check that an arena is a well-formed tree.
pub fn check_wf(tree: &SyntaxTree) -> (r: bool)
    ensures
        r == tree_wf(tree@),
{
    let n = tree.len();
    if n == 0 {
        return false;
    }
    let mut i: usize = 0;
    while i < n
        invariant
            i <= n,
            n == tree@.len(),
            forall|ii: int, j: int|
                0 <= ii < i && 0 <= j < tree@[ii].children.len() ==> ii
                    < #[trigger] tree@[ii].children[j] < tree@.len(),
        decreases n - i,
    {
        let m = tree.num_children(i);
        let mut j: usize = 0;
        while j < m
            invariant
                j <= m,
                i < n,
                n == tree@.len(),
                m == tree@[i as int].children.len(),
                forall|jj: int|
                    0 <= jj < j ==> i < #[trigger] tree@[i as int].children[jj] < tree@.len(),
            decreases m - j,
        {
            let c = tree.nodes[i].children[j];
            proof {
                assert(tree@[i as int].children[j as int] == tree.nodes@[i as int].children@[
                    j as int
                ] as int);
            }
            if c <= i || c >= n {
                return false;
            }
            j += 1;
        }
        i += 1;
    }
    true
}

} // verus!
