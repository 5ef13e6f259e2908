//! The two extraction passes over parsed syntax trees: collecting the type
//! universe, and building the structural model (entities, edges, functions).

use vstd::prelude::*;

use crate::model::{
    Class, ClassV, FunctionInfo, FunctionInfoV, ParsedProject, ParsedProjectV, Relationship,
    RelationshipV, add_function, find_class, push_rel, rel_insert, spec_add_function,
    spec_find_class,
};
use crate::strutil::{
    contains_sub, is_blank, skip_trim_of, spec_trim, starts_with, str_contains, str_eq,
    str_starts_with, trim_of, views_of,
};
use crate::syntax::{
    SynNodeV, SyntaxTree, opt_view, spec_child_by_field, tree_wf,
};

verus! {

/// A documentation comment: a line comment opening with `///`.
pub open spec fn is_doc_comment(n: SynNodeV) -> bool {
    n.kind == "line_comment"@ && starts_with(n.text, "///"@)
}

/// A comment that is skipped over, not read: a plain line comment or a
/// block comment.
pub open spec fn is_plain_comment(n: SynNodeV) -> bool {
    (n.kind == "line_comment"@ && !starts_with(n.text, "///"@)) || n.kind == "block_comment"@
}

/// A node whose text is only whitespace.
pub open spec fn is_blank_node(n: SynNodeV) -> bool {
    spec_trim(n.text).len() == 0
}

/// An attribute node.
pub open spec fn is_attr_node(n: SynNodeV) -> bool {
    n.kind == "attribute_item"@ || n.kind == "attribute"@
}

/// A declaration that contributes a name to the type universe.
pub open spec fn is_type_decl_kind(k: Seq<char>) -> bool {
    k == "struct_item"@ || k == "enum_item"@ || k == "trait_item"@
}

/// Summary line for the declaration at sibling position `p` of `cs`: walk
/// backward over the preceding siblings; the nearest documentation comment
/// wins; plain comments and blank nodes are skipped; anything else ends the
/// scan with no summary.
pub open spec fn spec_doc_summary(t: Seq<SynNodeV>, cs: Seq<int>, p: int) -> Option<Seq<char>>
    decreases p,
    when p <= cs.len()
{
    if p <= 0 {
        None
    } else {
        let s = t[cs[p - 1]];
        if is_doc_comment(s) {
            Some(spec_trim(s.text.subrange(3, s.text.len() as int)))
        } else if is_plain_comment(s) || is_blank_node(s) {
            spec_doc_summary(t, cs, p - 1)
        } else {
            None
        }
    }
}

/// Test classification for the declaration at sibling position `p` of `cs`:
/// walk backward; an attribute holding the test marker classifies as test;
/// comments, blank nodes and other attributes are skipped; any other
/// non-blank sibling ends the scan as non-test.
pub open spec fn spec_has_test_marker(t: Seq<SynNodeV>, cs: Seq<int>, p: int) -> bool
    decreases p,
    when p <= cs.len()
{
    if p <= 0 {
        false
    } else {
        let s = t[cs[p - 1]];
        if is_attr_node(s) {
            if contains_sub(s.text, "test]"@) {
                true
            } else {
                spec_has_test_marker(t, cs, p - 1)
            }
        } else if s.kind == "line_comment"@ || s.kind == "block_comment"@ {
            spec_has_test_marker(t, cs, p - 1)
        } else if is_blank_node(s) {
            spec_has_test_marker(t, cs, p - 1)
        } else {
            false
        }
    }
}

/// Every bare type name inside the type subtree rooted at `i`, in source
/// order (the root included when it is itself a type identifier).
pub open spec fn spec_type_idents(t: Seq<SynNodeV>, i: int) -> Seq<Seq<char>>
    decreases t.len() - i, 1int, 0int,
    when tree_wf(t) && 0 <= i < t.len()
{
    let own: Seq<Seq<char>> = if t[i].kind == "type_identifier"@ {
        seq![t[i].text]
    } else {
        Seq::empty()
    };
    own + spec_type_idents_kids(t, i, t[i].children.len() as int)
}

pub open spec fn spec_type_idents_kids(t: Seq<SynNodeV>, i: int, k: int) -> Seq<Seq<char>>
    decreases t.len() - i, 0int, k,
    when tree_wf(t) && 0 <= i < t.len() && 0 <= k <= t[i].children.len()
{
    if k <= 0 {
        Seq::empty()
    } else {
        spec_type_idents_kids(t, i, k - 1) + spec_type_idents(t, t[i].children[k - 1])
    }
}

/// The set of type names declared anywhere in the subtree rooted at `i`.
pub open spec fn spec_universe(t: Seq<SynNodeV>, i: int) -> Set<Seq<char>>
    decreases t.len() - i, 1int, 0int,
    when tree_wf(t) && 0 <= i < t.len()
{
    let own: Set<Seq<char>> = if is_type_decl_kind(t[i].kind) {
        match spec_child_by_field(t, i, "name"@) {
            Some(c) => set![t[c].text],
            None => Set::empty(),
        }
    } else {
        Set::empty()
    };
    own + spec_universe_kids(t, i, t[i].children.len() as int)
}

pub open spec fn spec_universe_kids(t: Seq<SynNodeV>, i: int, k: int) -> Set<Seq<char>>
    decreases t.len() - i, 0int, k,
    when tree_wf(t) && 0 <= i < t.len() && 0 <= k <= t[i].children.len()
{
    if k <= 0 {
        Set::empty()
    } else {
        spec_universe_kids(t, i, k - 1) + spec_universe(t, t[i].children[k - 1])
    }
}

/// The set of names held by a string vector.
pub open spec fn names_set(s: Seq<String>) -> Set<Seq<char>> {
    Set::new(|n: Seq<char>| exists|j: int| 0 <= j < s.len() && #[trigger] s[j]@ == n)
}

proof fn lemma_names_push(s: Seq<String>, x: String)
    ensures
        names_set(s.push(x)) == names_set(s).insert(x@),
{
    assert forall|n: Seq<char>| names_set(s.push(x)).contains(n) implies names_set(s).insert(
        x@,
    ).contains(n) by {
        let j = choose|j: int| 0 <= j < s.push(x).len() && #[trigger] s.push(x)[j]@ == n;
        if j < s.len() {
            assert(s[j]@ == n);
        }
    }
    assert forall|n: Seq<char>| names_set(s).insert(x@).contains(n) implies names_set(
        s.push(x),
    ).contains(n) by {
        if names_set(s).contains(n) {
            let j = choose|j: int| 0 <= j < s.len() && #[trigger] s[j]@ == n;
            assert(s.push(x)[j]@ == n);
        } else {
            assert(s.push(x)[s.len() as int]@ == n);
        }
    }
    assert(names_set(s.push(x)) =~= names_set(s).insert(x@));
}

/// `true` when `name` is in the collected universe.
pub fn universe_contains(u: &Vec<String>, name: &str) -> (r: bool)
    ensures
        r == names_set(u@).contains(name@),
{
    let n = u.len();
    let mut i: usize = 0;
    while i < n
        invariant
            i <= n,
            n == u@.len(),
            forall|j: int| 0 <= j < i ==> u@[j]@ != name@,
        decreases n - i,
    {
        if str_eq(u[i].as_str(), name) {
            return true;
        }
        i += 1;
    }
    false
}

/// First pass: record in `out` the name of every struct, enum, or trait
/// declaration in the subtree rooted at `i`.
pub fn collect_type_names(tree: &SyntaxTree, i: usize, out: &mut Vec<String>)
    requires
        tree_wf(tree@),
        i < tree@.len(),
    ensures
        names_set(final(out)@) == names_set(old(out)@) + spec_universe(tree@, i as int),
    decreases tree@.len() - i,
{
    let ghost t = tree@;
    let ghost own: Set<Seq<char>> = if is_type_decl_kind(t[i as int].kind) {
        match spec_child_by_field(t, i as int, "name"@) {
            Some(c) => set![t[c].text],
            None => Set::empty(),
        }
    } else {
        Set::empty()
    };
    let is_decl = tree.kind_is(i, "struct_item") || tree.kind_is(i, "enum_item") || tree.kind_is(
        i,
        "trait_item",
    );
    if is_decl {
        match tree.child_by_field(i, "name") {
            Some(nc) => {
                let name = tree.text_of(nc).clone();
                proof {
                    lemma_names_push(out@, name);
                }
                out.push(name);
                proof {
                    assert(names_set(out@) =~= names_set(old(out)@) + own);
                }
            },
            None => {
                proof {
                    assert(names_set(out@) =~= names_set(old(out)@) + own);
                }
            },
        }
    } else {
        proof {
            assert(names_set(out@) =~= names_set(old(out)@) + own);
        }
    }
    let n = tree.num_children(i);
    let mut k: usize = 0;
    while k < n
        invariant
            k <= n,
            tree_wf(tree@),
            t == tree@,
            i < t.len(),
            n == t[i as int].children.len(),
            own == (if is_type_decl_kind(t[i as int].kind) {
                match spec_child_by_field(t, i as int, "name"@) {
                    Some(c) => set![t[c].text],
                    None => Set::<Seq<char>>::empty(),
                }
            } else {
                Set::<Seq<char>>::empty()
            }),
            names_set(out@) == names_set(old(out)@) + own + spec_universe_kids(
                t,
                i as int,
                k as int,
            ),
        decreases n - k,
    {
        let c = tree.child(i, k);
        collect_type_names(tree, c, out);
        proof {
            assert(names_set(old(out)@) + own + spec_universe_kids(t, i as int, k as int)
                + spec_universe(t, c as int) =~= names_set(old(out)@) + own + spec_universe_kids(
                t,
                i as int,
                k + 1,
            ));
        }
        k += 1;
    }
    proof {
        assert(names_set(old(out)@) + own + spec_universe_kids(t, i as int, n as int)
            =~= names_set(old(out)@) + spec_universe(t, i as int));
    }
}

/// Every bare type name inside the type subtree rooted at `i`, appended to
/// `out` in source order.
pub fn type_idents(tree: &SyntaxTree, i: usize, out: &mut Vec<String>)
    requires
        tree_wf(tree@),
        i < tree@.len(),
    ensures
        views_of(final(out)@) == views_of(old(out)@) + spec_type_idents(tree@, i as int),
    decreases tree@.len() - i,
{
    let ghost t = tree@;
    let ghost own: Seq<Seq<char>> = if t[i as int].kind == "type_identifier"@ {
        seq![t[i as int].text]
    } else {
        Seq::empty()
    };
    if tree.kind_is(i, "type_identifier") {
        out.push(tree.text_of(i).clone());
        proof {
            assert(views_of(out@) =~= views_of(old(out)@) + own);
        }
    } else {
        proof {
            assert(views_of(out@) =~= views_of(old(out)@) + own);
        }
    }
    let n = tree.num_children(i);
    let mut k: usize = 0;
    while k < n
        invariant
            k <= n,
            tree_wf(tree@),
            t == tree@,
            i < t.len(),
            n == t[i as int].children.len(),
            own == (if t[i as int].kind == "type_identifier"@ {
                seq![t[i as int].text]
            } else {
                Seq::<Seq<char>>::empty()
            }),
            views_of(out@) == views_of(old(out)@) + own + spec_type_idents_kids(
                t,
                i as int,
                k as int,
            ),
        decreases n - k,
    {
        let c = tree.child(i, k);
        type_idents(tree, c, out);
        proof {
            assert(views_of(old(out)@) + own + spec_type_idents_kids(t, i as int, k as int)
                + spec_type_idents(t, c as int) =~= views_of(old(out)@) + own
                + spec_type_idents_kids(t, i as int, k + 1));
        }
        k += 1;
    }
    proof {
        assert(views_of(old(out)@) + own + spec_type_idents_kids(t, i as int, n as int)
            =~= views_of(old(out)@) + spec_type_idents(t, i as int));
    }
}

/// Backward scan for the summary line of the declaration at child position
/// `k` of node `i`.
pub fn doc_summary(tree: &SyntaxTree, i: usize, k: usize) -> (r: Option<String>)
    requires
        tree_wf(tree@),
        i < tree@.len(),
        k < tree@[i as int].children.len(),
    ensures
        opt_view(r) == spec_doc_summary(tree@, tree@[i as int].children, k as int),
{
    let ghost t = tree@;
    let ghost cs = tree@[i as int].children;
    let mut p = k;
    loop
        invariant
            p <= k,
            tree_wf(tree@),
            t == tree@,
            i < t.len(),
            cs == t[i as int].children,
            k < cs.len(),
            spec_doc_summary(t, cs, k as int) == spec_doc_summary(t, cs, p as int),
        decreases p,
    {
        if p == 0 {
            return None;
        }
        let s = tree.child(i, p - 1);
        let is_line = tree.kind_is(s, "line_comment");
        if is_line && str_starts_with(tree.text_of(s).as_str(), "///") {
            let text = tree.text_of(s);
            proof {
                reveal_strlit("///");
            }
            let summary = skip_trim_of(text.as_str(), 3);
            return Some(summary);
        }
        let is_block = tree.kind_is(s, "block_comment");
        if is_line || is_block {
            p -= 1;
            continue ;
        }
        if is_blank(tree.text_of(s).as_str()) {
            p -= 1;
            continue ;
        }
        return None;
    }
}

/// Backward scan deciding whether the declaration at child position `k` of
/// node `i` carries a test marker among its adjacent attributes.
pub fn has_test_attribute(tree: &SyntaxTree, i: usize, k: usize) -> (r: bool)
    requires
        tree_wf(tree@),
        i < tree@.len(),
        k < tree@[i as int].children.len(),
    ensures
        r == spec_has_test_marker(tree@, tree@[i as int].children, k as int),
{
    let ghost t = tree@;
    let ghost cs = tree@[i as int].children;
    let mut p = k;
    loop
        invariant
            p <= k,
            tree_wf(tree@),
            t == tree@,
            i < t.len(),
            cs == t[i as int].children,
            k < cs.len(),
            spec_has_test_marker(t, cs, k as int) == spec_has_test_marker(t, cs, p as int),
        decreases p,
    {
        if p == 0 {
            return false;
        }
        let s = tree.child(i, p - 1);
        if tree.kind_is(s, "attribute_item") || tree.kind_is(s, "attribute") {
            if str_contains(tree.text_of(s).as_str(), "test]") {
                return true;
            }
            p -= 1;
            continue ;
        }
        if tree.kind_is(s, "line_comment") || tree.kind_is(s, "block_comment") {
            p -= 1;
            continue ;
        }
        if is_blank(tree.text_of(s).as_str()) {
            p -= 1;
            continue ;
        }
        return false;
    }
}


/// A fresh entity record.
pub open spec fn new_class(
    name: Seq<char>,
    file: Seq<char>,
    stereotype: Option<Seq<char>>,
    doc: Option<Seq<char>>,
) -> ClassV {
    ClassV {
        name: name,
        file: file,
        stereotype: stereotype,
        doc: doc,
        fields: Seq::empty(),
        methods: Seq::empty(),
        relationships: Seq::empty(),
        trait_impls: Seq::empty(),
    }
}

/// Edge kind for a field whose declared type has kind `k`: a
/// reference-shaped type yields aggregation, any other shape composition.
pub open spec fn edge_kind_of(k: Seq<char>) -> Seq<char> {
    if k == "reference_type"@ {
        "o--"@
    } else {
        "*--"@
    }
}

/// Fold the first `n` candidate type names of a struct field into the
/// class's edge set: each name present in the universe `u` yields one edge,
/// labeled `"<type> <field>"` when the field name is known.
pub open spec fn struct_idents_fold(
    u: Set<Seq<char>>,
    ids: Seq<Seq<char>>,
    n: int,
    edge: Seq<char>,
    fname: Option<Seq<char>>,
    cls: ClassV,
) -> ClassV
    decreases n,
{
    if n <= 0 {
        cls
    } else {
        let cls1 = struct_idents_fold(u, ids, n - 1, edge, fname, cls);
        let ty = ids[n - 1];
        if u.contains(ty) {
            let label = match fname {
                Some(f) => Some(ty + " "@ + f),
                None => None,
            };
            ClassV {
                relationships: rel_insert(
                    cls1.relationships,
                    RelationshipV { source: cls1.name, target: ty, edge_type: edge, label: label },
                ),
                ..cls1
            }
        } else {
            cls1
        }
    }
}

/// Process one child of a struct body: a field declaration appends its name
/// to the member list and scans its declared type for edges.
pub open spec fn struct_field_step(
    t: Seq<SynNodeV>,
    u: Set<Seq<char>>,
    f: int,
    cls: ClassV,
) -> ClassV {
    if t[f].kind != "field_declaration"@ {
        cls
    } else {
        let fname = match spec_child_by_field(t, f, "name"@) {
            Some(nn) => Some(t[nn].text),
            None => None,
        };
        let cls1 = match fname {
            Some(x) => ClassV { fields: cls.fields.push(x), ..cls },
            None => cls,
        };
        match spec_child_by_field(t, f, "type"@) {
            None => cls1,
            Some(ft) => {
                let ids = spec_type_idents(t, ft);
                struct_idents_fold(u, ids, ids.len() as int, edge_kind_of(t[ft].kind), fname, cls1)
            },
        }
    }
}

/// Fold the first `j` children of a struct body into the class.
pub open spec fn struct_fields_fold(
    t: Seq<SynNodeV>,
    u: Set<Seq<char>>,
    bs: Seq<int>,
    j: int,
    cls: ClassV,
) -> ClassV
    decreases j,
{
    if j <= 0 {
        cls
    } else {
        struct_field_step(t, u, bs[j - 1], struct_fields_fold(t, u, bs, j - 1, cls))
    }
}

/// Label of an edge found in an enum variant's payload field: it records
/// which variant (and field) introduces the dependency.
pub open spec fn enum_label(
    ty: Seq<char>,
    vname: Option<Seq<char>>,
    fname: Option<Seq<char>>,
) -> Option<Seq<char>> {
    match (vname, fname) {
        (Some(vn), Some(fn_)) => Some(ty + " "@ + vn + "::"@ + fn_),
        (Some(vn), None) => Some(ty + " "@ + vn),
        _ => None,
    }
}

/// Fold the first `n` candidate type names of an enum payload field into
/// the class's edge set.
pub open spec fn enum_idents_fold(
    u: Set<Seq<char>>,
    ids: Seq<Seq<char>>,
    n: int,
    edge: Seq<char>,
    vname: Option<Seq<char>>,
    fname: Option<Seq<char>>,
    cls: ClassV,
) -> ClassV
    decreases n,
{
    if n <= 0 {
        cls
    } else {
        let cls1 = enum_idents_fold(u, ids, n - 1, edge, vname, fname, cls);
        let ty = ids[n - 1];
        if u.contains(ty) {
            ClassV {
                relationships: rel_insert(
                    cls1.relationships,
                    RelationshipV {
                        source: cls1.name,
                        target: ty,
                        edge_type: edge,
                        label: enum_label(ty, vname, fname),
                    },
                ),
                ..cls1
            }
        } else {
            cls1
        }
    }
}

/// Process one named payload field of an enum variant.
pub open spec fn enum_field_step(
    t: Seq<SynNodeV>,
    u: Set<Seq<char>>,
    f: int,
    vname: Option<Seq<char>>,
    cls: ClassV,
) -> ClassV {
    if t[f].kind != "field_declaration"@ {
        cls
    } else {
        let fname = match spec_child_by_field(t, f, "name"@) {
            Some(nn) => Some(t[nn].text),
            None => None,
        };
        match spec_child_by_field(t, f, "type"@) {
            None => cls,
            Some(ft) => {
                let ids = spec_type_idents(t, ft);
                enum_idents_fold(
                    u,
                    ids,
                    ids.len() as int,
                    edge_kind_of(t[ft].kind),
                    vname,
                    fname,
                    cls,
                )
            },
        }
    }
}

/// Fold the first `j` payload fields of a variant body into the class.
pub open spec fn enum_var_fields_fold(
    t: Seq<SynNodeV>,
    u: Set<Seq<char>>,
    fs: Seq<int>,
    j: int,
    vname: Option<Seq<char>>,
    cls: ClassV,
) -> ClassV
    decreases j,
{
    if j <= 0 {
        cls
    } else {
        enum_field_step(t, u, fs[j - 1], vname, enum_var_fields_fold(t, u, fs, j - 1, vname, cls))
    }
}

/// Process one child of an enum body: a variant appends its name to the
/// member list and scans its named payload fields for edges.
pub open spec fn enum_variant_step(
    t: Seq<SynNodeV>,
    u: Set<Seq<char>>,
    v: int,
    cls: ClassV,
) -> ClassV {
    if t[v].kind != "enum_variant"@ {
        cls
    } else {
        let vname = match spec_child_by_field(t, v, "name"@) {
            Some(nn) => Some(t[nn].text),
            None => None,
        };
        let cls1 = match vname {
            Some(x) => ClassV { fields: cls.fields.push(x), ..cls },
            None => cls,
        };
        match spec_child_by_field(t, v, "body"@) {
            None => cls1,
            Some(vb) => enum_var_fields_fold(
                t,
                u,
                t[vb].children,
                t[vb].children.len() as int,
                vname,
                cls1,
            ),
        }
    }
}

/// Fold the first `j` children of an enum body into the class.
pub open spec fn enum_variants_fold(
    t: Seq<SynNodeV>,
    u: Set<Seq<char>>,
    vs: Seq<int>,
    j: int,
    cls: ClassV,
) -> ClassV
    decreases j,
{
    if j <= 0 {
        cls
    } else {
        enum_variant_step(t, u, vs[j - 1], enum_variants_fold(t, u, vs, j - 1, cls))
    }
}

/// One rendered parameter of a function declaration.
pub open spec fn param_step(t: Seq<SynNodeV>, p: int, acc: Seq<Seq<char>>) -> Seq<Seq<char>> {
    if t[p].kind == "parameter"@ {
        let nm = match spec_child_by_field(t, p, "pattern"@) {
            Some(x) => Some(spec_trim(t[x].text)),
            None => None,
        };
        let ty = match spec_child_by_field(t, p, "type"@) {
            Some(x) => Some(spec_trim(t[x].text)),
            None => None,
        };
        match (nm, ty) {
            (Some(n), Some(tt)) => acc.push(n + ": "@ + tt),
            (Some(n), None) => acc.push(n),
            (None, Some(tt)) => acc.push(tt),
            (None, None) => acc,
        }
    } else if t[p].kind == "self_parameter"@ {
        acc.push(spec_trim(t[p].text))
    } else {
        acc
    }
}

pub open spec fn params_fold(t: Seq<SynNodeV>, ps: Seq<int>, j: int, acc: Seq<Seq<char>>) -> Seq<
    Seq<char>,
>
    decreases j,
{
    if j <= 0 {
        acc
    } else {
        param_step(t, ps[j - 1], params_fold(t, ps, j - 1, acc))
    }
}

/// The rendered parameter list of the function declaration at `c`.
pub open spec fn spec_params(t: Seq<SynNodeV>, c: int) -> Seq<Seq<char>> {
    match spec_child_by_field(t, c, "parameters"@) {
        None => Seq::empty(),
        Some(pl) => params_fold(t, t[pl].children, t[pl].children.len() as int, Seq::empty()),
    }
}

/// The rendered return type of the function declaration at `c`: the node
/// text, trimmed, with any leading arrow token stripped; empty collapses to
/// absent.
pub open spec fn spec_ret(t: Seq<SynNodeV>, c: int) -> Option<Seq<char>> {
    match spec_child_by_field(t, c, "return_type"@) {
        None => None,
        Some(rn) => {
            let txt = spec_trim(t[rn].text);
            let stripped = if starts_with(txt, "->"@) {
                spec_trim(txt.subrange("->"@.len() as int, txt.len() as int))
            } else {
                txt
            };
            if stripped.len() == 0 {
                None
            } else {
                Some(stripped)
            }
        },
    }
}


/// Process one child of a struct body against the class record.
fn apply_struct_field(tree: &SyntaxTree, f: usize, universe: &Vec<String>, cls: &mut Class)
    requires
        tree_wf(tree@),
        f < tree@.len(),
    ensures
        final(cls)@ == struct_field_step(tree@, names_set(universe@), f as int, old(cls)@),
{
    let ghost t = tree@;
    let ghost u = names_set(universe@);
    if !tree.kind_is(f, "field_declaration") {
        return ;
    }
    let fname: Option<String> = match tree.child_by_field(f, "name") {
        Some(nn) => Some(tree.text_of(nn).clone()),
        None => None,
    };
    let ghost fnv = opt_view(fname);
    match &fname {
        Some(x) => {
            cls.fields.push(x.clone());
            proof {
                assert(cls@ =~= (ClassV { fields: old(cls)@.fields.push(x@), ..old(cls)@ }));
            }
        },
        None => {},
    }
    let ghost cls1 = cls@;
    match tree.child_by_field(f, "type") {
        None => {},
        Some(ft) => {
            let mut ids: Vec<String> = Vec::new();
            type_idents(tree, ft, &mut ids);
            proof {
                assert(views_of(ids@) =~= spec_type_idents(t, ft as int));
            }
            let edge_str: &str = if tree.kind_is(ft, "reference_type") {
                "o--"
            } else {
                "*--"
            };
            let ghost edge = edge_kind_of(t[ft as int].kind);
            let ghost idsv = spec_type_idents(t, ft as int);
            let nids = ids.len();
            let mut x: usize = 0;
            while x < nids
                invariant
                    x <= nids,
                    nids == ids@.len(),
                    views_of(ids@) == idsv,
                    edge_str@ == edge,
                    fnv == opt_view(fname),
                    u == names_set(universe@),
                    cls@ == struct_idents_fold(u, idsv, x as int, edge, fnv, cls1),
                decreases nids - x,
            {
                proof {
                    assert(ids@[x as int]@ == idsv[x as int]);
                }
                if universe_contains(universe, ids[x].as_str()) {
                    let label: Option<String> = match &fname {
                        Some(fnm) => {
                            let mut l = ids[x].clone();
                            l.append(" ");
                            l.append(fnm.as_str());
                            Some(l)
                        },
                        None => None,
                    };
                    let rel = Relationship {
                        source: cls.name.clone(),
                        target: ids[x].clone(),
                        edge_type: String::from_str(edge_str),
                        label: label,
                    };
                    let ghost before = cls@;
                    push_rel(&mut cls.relationships, rel);
                    proof {
                        assert(cls@ =~= (ClassV {
                            relationships: rel_insert(
                                before.relationships,
                                RelationshipV {
                                    source: before.name,
                                    target: idsv[x as int],
                                    edge_type: edge,
                                    label: match fnv {
                                        Some(fn2) => Some(idsv[x as int] + " "@ + fn2),
                                        None => None,
                                    },
                                },
                            ),
                            ..before
                        }));
                    }
                }
                x += 1;
            }
        },
    }
}

/// The rendered parameter list of the function declaration at `c`.
pub fn function_params(tree: &SyntaxTree, c: usize) -> (r: Vec<String>)
    requires
        tree_wf(tree@),
        c < tree@.len(),
    ensures
        views_of(r@) == spec_params(tree@, c as int),
{
    let ghost t = tree@;
    let mut out: Vec<String> = Vec::new();
    let pl = match tree.child_by_field(c, "parameters") {
        None => {
            proof {
                assert(views_of(out@) =~= Seq::<Seq<char>>::empty());
            }
            return out;
        },
        Some(pl) => pl,
    };
    let ghost ps = t[pl as int].children;
    let n = tree.num_children(pl);
    let mut j: usize = 0;
    while j < n
        invariant
            j <= n,
            tree_wf(tree@),
            t == tree@,
            pl < t.len(),
            ps == t[pl as int].children,
            n == ps.len(),
            views_of(out@) == params_fold(t, ps, j as int, Seq::empty()),
        decreases n - j,
    {
        let p = tree.child(pl, j);
        let ghost before = views_of(out@);
        if tree.kind_is(p, "parameter") {
            let nm: Option<String> = match tree.child_by_field(p, "pattern") {
                Some(x) => Some(trim_of(tree.text_of(x).as_str())),
                None => None,
            };
            let ty: Option<String> = match tree.child_by_field(p, "type") {
                Some(x) => Some(trim_of(tree.text_of(x).as_str())),
                None => None,
            };
            match (nm, ty) {
                (Some(n_), Some(t_)) => {
                    let mut s = n_;
                    s.append(": ");
                    s.append(t_.as_str());
                    out.push(s);
                },
                (Some(n_), None) => {
                    out.push(n_);
                },
                (None, Some(t_)) => {
                    out.push(t_);
                },
                (None, None) => {},
            }
        } else if tree.kind_is(p, "self_parameter") {
            out.push(trim_of(tree.text_of(p).as_str()));
        }
        proof {
            assert(views_of(out@) =~= param_step(t, p as int, before));
        }
        j += 1;
    }
    out
}

/// The rendered return type of the function declaration at `c`, if any.
pub fn function_ret(tree: &SyntaxTree, c: usize) -> (r: Option<String>)
    requires
        tree_wf(tree@),
        c < tree@.len(),
    ensures
        opt_view(r) == spec_ret(tree@, c as int),
{
    let rn = match tree.child_by_field(c, "return_type") {
        None => {
            return None;
        },
        Some(rn) => rn,
    };
    let txt = trim_of(tree.text_of(rn).as_str());
    let stripped: String = if str_starts_with(txt.as_str(), "->") {
        proof {
            reveal_strlit("->");
        }
        skip_trim_of(txt.as_str(), 2)
    } else {
        txt
    };
    if stripped.as_str().unicode_len() == 0 {
        None
    } else {
        Some(stripped)
    }
}


/// Process one named payload field of an enum variant against the class.
fn apply_enum_field(
    tree: &SyntaxTree,
    f: usize,
    universe: &Vec<String>,
    vname: &Option<String>,
    cls: &mut Class,
)
    requires
        tree_wf(tree@),
        f < tree@.len(),
    ensures
        final(cls)@ == enum_field_step(
            tree@,
            names_set(universe@),
            f as int,
            opt_view(*vname),
            old(cls)@,
        ),
{
    let ghost t = tree@;
    let ghost u = names_set(universe@);
    let ghost vnv = opt_view(*vname);
    if !tree.kind_is(f, "field_declaration") {
        return ;
    }
    let fname: Option<String> = match tree.child_by_field(f, "name") {
        Some(nn) => Some(tree.text_of(nn).clone()),
        None => None,
    };
    let ghost fnv = opt_view(fname);
    match tree.child_by_field(f, "type") {
        None => {},
        Some(ft) => {
            let mut ids: Vec<String> = Vec::new();
            type_idents(tree, ft, &mut ids);
            proof {
                assert(views_of(ids@) =~= spec_type_idents(t, ft as int));
            }
            let edge_str: &str = if tree.kind_is(ft, "reference_type") {
                "o--"
            } else {
                "*--"
            };
            let ghost edge = edge_kind_of(t[ft as int].kind);
            let ghost idsv = spec_type_idents(t, ft as int);
            let ghost cls1 = cls@;
            let nids = ids.len();
            let mut x: usize = 0;
            while x < nids
                invariant
                    x <= nids,
                    nids == ids@.len(),
                    views_of(ids@) == idsv,
                    edge_str@ == edge,
                    fnv == opt_view(fname),
                    vnv == opt_view(*vname),
                    u == names_set(universe@),
                    cls@ == enum_idents_fold(u, idsv, x as int, edge, vnv, fnv, cls1),
                decreases nids - x,
            {
                proof {
                    assert(ids@[x as int]@ == idsv[x as int]);
                }
                if universe_contains(universe, ids[x].as_str()) {
                    let label: Option<String> = match (vname, &fname) {
                        (Some(vn), Some(fn_)) => {
                            let mut l = ids[x].clone();
                            l.append(" ");
                            l.append(vn.as_str());
                            l.append("::");
                            l.append(fn_.as_str());
                            Some(l)
                        },
                        (Some(vn), None) => {
                            let mut l = ids[x].clone();
                            l.append(" ");
                            l.append(vn.as_str());
                            Some(l)
                        },
                        _ => None,
                    };
                    let rel = Relationship {
                        source: cls.name.clone(),
                        target: ids[x].clone(),
                        edge_type: String::from_str(edge_str),
                        label: label,
                    };
                    let ghost before = cls@;
                    push_rel(&mut cls.relationships, rel);
                    proof {
                        assert(cls@ =~= (ClassV {
                            relationships: rel_insert(
                                before.relationships,
                                RelationshipV {
                                    source: before.name,
                                    target: idsv[x as int],
                                    edge_type: edge,
                                    label: enum_label(idsv[x as int], vnv, fnv),
                                },
                            ),
                            ..before
                        }));
                    }
                }
                x += 1;
            }
        },
    }
}

/// Process one child of an enum body against the class record.
fn apply_enum_variant(tree: &SyntaxTree, v: usize, universe: &Vec<String>, cls: &mut Class)
    requires
        tree_wf(tree@),
        v < tree@.len(),
    ensures
        final(cls)@ == enum_variant_step(tree@, names_set(universe@), v as int, old(cls)@),
{
    let ghost t = tree@;
    let ghost u = names_set(universe@);
    if !tree.kind_is(v, "enum_variant") {
        return ;
    }
    let vname: Option<String> = match tree.child_by_field(v, "name") {
        Some(nn) => Some(tree.text_of(nn).clone()),
        None => None,
    };
    match &vname {
        Some(x) => {
            cls.fields.push(x.clone());
            proof {
                assert(cls@ =~= (ClassV { fields: old(cls)@.fields.push(x@), ..old(cls)@ }));
            }
        },
        None => {},
    }
    let ghost cls1 = cls@;
    match tree.child_by_field(v, "body") {
        None => {},
        Some(vb) => {
            let ghost fs = t[vb as int].children;
            let n = tree.num_children(vb);
            let mut j: usize = 0;
            while j < n
                invariant
                    j <= n,
                    tree_wf(tree@),
                    t == tree@,
                    vb < t.len(),
                    fs == t[vb as int].children,
                    n == fs.len(),
                    u == names_set(universe@),
                    cls@ == enum_var_fields_fold(t, u, fs, j as int, opt_view(vname), cls1),
                decreases n - j,
            {
                let f = tree.child(vb, j);
                apply_enum_field(tree, f, universe, &vname, cls);
                j += 1;
            }
        },
    }
}

/// Process a struct declaration: create or fetch its entity, then fold the
/// declared fields into it.
fn extract_struct(
    tree: &SyntaxTree,
    i: usize,
    k: usize,
    c: usize,
    file_module: &str,
    universe: &Vec<String>,
    project: &mut ParsedProject,
)
    requires
        tree_wf(tree@),
        i < tree@.len(),
        k < tree@[i as int].children.len(),
        c as int == tree@[i as int].children[k as int],
        c < tree@.len(),
    ensures
        final(project)@ == ext_struct(
            tree@,
            c as int,
            tree@[i as int].children,
            k as int,
            file_module@,
            names_set(universe@),
            old(project)@,
        ),
{
    let ghost t = tree@;
    let ghost cs = tree@[i as int].children;
    let ghost u = names_set(universe@);
    let ghost m0 = project@;
    let nc = match tree.child_by_field(c, "name") {
        None => {
            return ;
        },
        Some(nc) => nc,
    };
    let name = tree.text_of(nc).clone();
    let doc = doc_summary(tree, i, k);
    let idx: usize = match find_class(&project.classes, name.as_str()) {
        Some(j) => j,
        None => {
            let j = project.classes.len();
            let cls = Class {
                name: name.clone(),
                file: String::from_str(file_module),
                stereotype: Some(String::from_str("struct")),
                doc: doc,
                fields: Vec::new(),
                methods: Vec::new(),
                relationships: Vec::new(),
                trait_impls: Vec::new(),
            };
            project.classes.push(cls);
            proof {
                let nv = new_class(
                    name@,
                    file_module@,
                    Some("struct"@),
                    spec_doc_summary(t, cs, k as int),
                );
                assert(project.classes@[j as int]@ =~= nv);
                assert(project@.classes =~= m0.classes.push(nv));
                assert(project@ =~= (ParsedProjectV { classes: m0.classes.push(nv), ..m0 }));
            }
            j
        },
    };
    let ghost m1 = project@;
    proof {
        assert(fetch_or_create(
            m0.classes,
            t[nc as int].text,
            file_module@,
            "struct"@,
            spec_doc_summary(t, cs, k as int),
        ) == (m1.classes, idx as int));
    }
    match tree.child_by_field(c, "body") {
        None => {},
        Some(b) => {
            let ghost bs = t[b as int].children;
            let ghost cls0 = m1.classes[idx as int];
            let nb = tree.num_children(b);
            let cls = &mut project.classes[idx];
            let mut j: usize = 0;
            while j < nb
                invariant
                    j <= nb,
                    tree_wf(tree@),
                    t == tree@,
                    b < t.len(),
                    bs == t[b as int].children,
                    nb == bs.len(),
                    u == names_set(universe@),
                    cls@ == struct_fields_fold(t, u, bs, j as int, cls0),
                decreases nb - j,
            {
                let f = tree.child(b, j);
                apply_struct_field(tree, f, universe, cls);
                j += 1;
            }
            proof {
                assert(project@.classes =~= m1.classes.update(
                    idx as int,
                    struct_fields_fold(t, u, bs, nb as int, cls0),
                ));
                assert(project@ =~= (ParsedProjectV {
                    classes: m1.classes.update(
                        idx as int,
                        struct_fields_fold(t, u, bs, nb as int, cls0),
                    ),
                    ..m1
                }));
            }
        },
    }
}

/// Process an enum declaration: create or fetch its entity, then fold the
/// variants into it.
fn extract_enum(
    tree: &SyntaxTree,
    i: usize,
    k: usize,
    c: usize,
    file_module: &str,
    universe: &Vec<String>,
    project: &mut ParsedProject,
)
    requires
        tree_wf(tree@),
        i < tree@.len(),
        k < tree@[i as int].children.len(),
        c as int == tree@[i as int].children[k as int],
        c < tree@.len(),
    ensures
        final(project)@ == ext_enum(
            tree@,
            c as int,
            tree@[i as int].children,
            k as int,
            file_module@,
            names_set(universe@),
            old(project)@,
        ),
{
    let ghost t = tree@;
    let ghost cs = tree@[i as int].children;
    let ghost u = names_set(universe@);
    let ghost m0 = project@;
    let nc = match tree.child_by_field(c, "name") {
        None => {
            return ;
        },
        Some(nc) => nc,
    };
    let name = tree.text_of(nc).clone();
    let doc = doc_summary(tree, i, k);
    let idx: usize = match find_class(&project.classes, name.as_str()) {
        Some(j) => j,
        None => {
            let j = project.classes.len();
            let cls = Class {
                name: name.clone(),
                file: String::from_str(file_module),
                stereotype: Some(String::from_str("enum")),
                doc: doc,
                fields: Vec::new(),
                methods: Vec::new(),
                relationships: Vec::new(),
                trait_impls: Vec::new(),
            };
            project.classes.push(cls);
            proof {
                let nv = new_class(
                    name@,
                    file_module@,
                    Some("enum"@),
                    spec_doc_summary(t, cs, k as int),
                );
                assert(project.classes@[j as int]@ =~= nv);
                assert(project@.classes =~= m0.classes.push(nv));
                assert(project@ =~= (ParsedProjectV { classes: m0.classes.push(nv), ..m0 }));
            }
            j
        },
    };
    let ghost m1 = project@;
    proof {
        assert(fetch_or_create(
            m0.classes,
            t[nc as int].text,
            file_module@,
            "enum"@,
            spec_doc_summary(t, cs, k as int),
        ) == (m1.classes, idx as int));
    }
    match tree.child_by_field(c, "body") {
        None => {},
        Some(b) => {
            let ghost bs = t[b as int].children;
            let ghost cls0 = m1.classes[idx as int];
            let nb = tree.num_children(b);
            let cls = &mut project.classes[idx];
            let mut j: usize = 0;
            while j < nb
                invariant
                    j <= nb,
                    tree_wf(tree@),
                    t == tree@,
                    b < t.len(),
                    bs == t[b as int].children,
                    nb == bs.len(),
                    u == names_set(universe@),
                    cls@ == enum_variants_fold(t, u, bs, j as int, cls0),
                decreases nb - j,
            {
                let v = tree.child(b, j);
                apply_enum_variant(tree, v, universe, cls);
                j += 1;
            }
            proof {
                assert(project@.classes =~= m1.classes.update(
                    idx as int,
                    enum_variants_fold(t, u, bs, nb as int, cls0),
                ));
                assert(project@ =~= (ParsedProjectV {
                    classes: m1.classes.update(
                        idx as int,
                        enum_variants_fold(t, u, bs, nb as int, cls0),
                    ),
                    ..m1
                }));
            }
        },
    }
}

/// Process a free function declaration: build its record and route it to
/// the test or the non-test group of its file.
fn extract_function(
    tree: &SyntaxTree,
    i: usize,
    k: usize,
    c: usize,
    file_module: &str,
    project: &mut ParsedProject,
)
    requires
        tree_wf(tree@),
        i < tree@.len(),
        k < tree@[i as int].children.len(),
        c as int == tree@[i as int].children[k as int],
        c < tree@.len(),
    ensures
        final(project)@ == ext_function(
            tree@,
            c as int,
            tree@[i as int].children,
            k as int,
            file_module@,
            old(project)@,
        ),
{
    let ghost t = tree@;
    let ghost cs = tree@[i as int].children;
    let ghost m0 = project@;
    let nn = match tree.child_by_field(c, "name") {
        None => {
            return ;
        },
        Some(nn) => nn,
    };
    let func_name = tree.text_of(nn).clone();
    let doc = doc_summary(tree, i, k);
    let params = function_params(tree, c);
    let ret = function_ret(tree, c);
    let info = FunctionInfo { name: func_name, doc: doc, params: params, ret: ret };
    let ghost rec = FunctionInfoV {
        name: t[nn as int].text,
        doc: spec_doc_summary(t, cs, k as int),
        params: spec_params(t, c as int),
        ret: spec_ret(t, c as int),
    };
    proof {
        assert(info@ =~= rec);
    }
    if has_test_attribute(tree, i, k) {
        add_function(&mut project.file_functions_tests, file_module, info);
        proof {
            assert(project@ =~= (ParsedProjectV {
                file_functions_tests: spec_add_function(m0.file_functions_tests, file_module@, rec),
                ..m0
            }));
        }
    } else {
        add_function(&mut project.file_functions_main, file_module, info);
        proof {
            assert(project@ =~= (ParsedProjectV {
                file_functions_main: spec_add_function(m0.file_functions_main, file_module@, rec),
                ..m0
            }));
        }
    }
}

/// Create-or-fetch the entity record for `name`: the index of the existing
/// record, or the list grown by a fresh record.
pub open spec fn fetch_or_create(
    classes: Seq<ClassV>,
    name: Seq<char>,
    file: Seq<char>,
    stereotype: Seq<char>,
    doc: Option<Seq<char>>,
) -> (Seq<ClassV>, int) {
    match spec_find_class(classes, name) {
        Some(i) => (classes, i),
        None => (classes.push(new_class(name, file, Some(stereotype), doc)), classes.len() as int),
    }
}

/// The model after processing a struct declaration at node `c`, which sits
/// at position `k` among the siblings `cs`.
pub open spec fn ext_struct(
    t: Seq<SynNodeV>,
    c: int,
    cs: Seq<int>,
    k: int,
    file: Seq<char>,
    u: Set<Seq<char>>,
    m: ParsedProjectV,
) -> ParsedProjectV {
    match spec_child_by_field(t, c, "name"@) {
        None => m,
        Some(nc) => {
            let name = t[nc].text;
            let doc = spec_doc_summary(t, cs, k);
            let pr = fetch_or_create(m.classes, name, file, "struct"@, doc);
            let m1 = ParsedProjectV { classes: pr.0, ..m };
            match spec_child_by_field(t, c, "body"@) {
                None => m1,
                Some(b) => ParsedProjectV {
                    classes: pr.0.update(
                        pr.1,
                        struct_fields_fold(
                            t,
                            u,
                            t[b].children,
                            t[b].children.len() as int,
                            pr.0[pr.1],
                        ),
                    ),
                    ..m1
                },
            }
        },
    }
}

/// The model after processing an enum declaration at node `c`.
pub open spec fn ext_enum(
    t: Seq<SynNodeV>,
    c: int,
    cs: Seq<int>,
    k: int,
    file: Seq<char>,
    u: Set<Seq<char>>,
    m: ParsedProjectV,
) -> ParsedProjectV {
    match spec_child_by_field(t, c, "name"@) {
        None => m,
        Some(nc) => {
            let name = t[nc].text;
            let doc = spec_doc_summary(t, cs, k);
            let pr = fetch_or_create(m.classes, name, file, "enum"@, doc);
            let m1 = ParsedProjectV { classes: pr.0, ..m };
            match spec_child_by_field(t, c, "body"@) {
                None => m1,
                Some(b) => ParsedProjectV {
                    classes: pr.0.update(
                        pr.1,
                        enum_variants_fold(
                            t,
                            u,
                            t[b].children,
                            t[b].children.len() as int,
                            pr.0[pr.1],
                        ),
                    ),
                    ..m1
                },
            }
        },
    }
}

/// The model after processing a free function declaration at node `c`.
pub open spec fn ext_function(
    t: Seq<SynNodeV>,
    c: int,
    cs: Seq<int>,
    k: int,
    file: Seq<char>,
    m: ParsedProjectV,
) -> ParsedProjectV {
    match spec_child_by_field(t, c, "name"@) {
        None => m,
        Some(nn) => {
            let rec = FunctionInfoV {
                name: t[nn].text,
                doc: spec_doc_summary(t, cs, k),
                params: spec_params(t, c),
                ret: spec_ret(t, c),
            };
            if spec_has_test_marker(t, cs, k) {
                ParsedProjectV {
                    file_functions_tests: spec_add_function(m.file_functions_tests, file, rec),
                    ..m
                }
            } else {
                ParsedProjectV {
                    file_functions_main: spec_add_function(m.file_functions_main, file, rec),
                    ..m
                }
            }
        },
    }
}

/// The model after processing the child at position `k` of node `i`,
/// dispatched on its kind.
pub open spec fn ext_one(
    t: Seq<SynNodeV>,
    i: int,
    k: int,
    file: Seq<char>,
    u: Set<Seq<char>>,
    m: ParsedProjectV,
) -> ParsedProjectV {
    let cs = t[i].children;
    let c = cs[k];
    if t[c].kind == "struct_item"@ {
        ext_struct(t, c, cs, k, file, u, m)
    } else if t[c].kind == "enum_item"@ {
        ext_enum(t, c, cs, k, file, u, m)
    } else if t[c].kind == "function_item"@ {
        ext_function(t, c, cs, k, file, m)
    } else {
        m
    }
}

/// The model after recursively processing every declaration in the subtree
/// rooted at `i` (the node `i` itself is not a sibling-scanned declaration).
pub open spec fn ext_node(
    t: Seq<SynNodeV>,
    i: int,
    file: Seq<char>,
    u: Set<Seq<char>>,
    m: ParsedProjectV,
) -> ParsedProjectV
    decreases t.len() - i, 1int, 0int,
    when tree_wf(t) && 0 <= i < t.len()
{
    ext_kids(t, i, t[i].children.len() as int, file, u, m)
}

/// The model after processing the first `k` children of node `i`, each
/// first dispatched by kind and then recursively descended into.
pub open spec fn ext_kids(
    t: Seq<SynNodeV>,
    i: int,
    k: int,
    file: Seq<char>,
    u: Set<Seq<char>>,
    m: ParsedProjectV,
) -> ParsedProjectV
    decreases t.len() - i, 0int, k,
    when tree_wf(t) && 0 <= i < t.len() && 0 <= k <= t[i].children.len()
{
    if k <= 0 {
        m
    } else {
        let m1 = ext_kids(t, i, k - 1, file, u, m);
        let m2 = ext_one(t, i, k - 1, file, u, m1);
        ext_node(t, t[i].children[k - 1], file, u, m2)
    }
}

/// Second pass: walk the subtree rooted at `i` and fold every struct, enum
/// and free function declaration into the model.
pub fn extract_items(
    tree: &SyntaxTree,
    i: usize,
    file_module: &str,
    universe: &Vec<String>,
    project: &mut ParsedProject,
)
    requires
        tree_wf(tree@),
        i < tree@.len(),
    ensures
        final(project)@ == ext_node(
            tree@,
            i as int,
            file_module@,
            names_set(universe@),
            old(project)@,
        ),
    decreases tree@.len() - i,
{
    let ghost t = tree@;
    let ghost u = names_set(universe@);
    let n = tree.num_children(i);
    let mut k: usize = 0;
    while k < n
        invariant
            k <= n,
            tree_wf(tree@),
            t == tree@,
            i < t.len(),
            n == t[i as int].children.len(),
            u == names_set(universe@),
            project@ == ext_kids(t, i as int, k as int, file_module@, u, old(project)@),
        decreases n - k,
    {
        let c = tree.child(i, k);
        let ghost m1 = project@;
        if tree.kind_is(c, "struct_item") {
            extract_struct(tree, i, k, c, file_module, universe, project);
        } else if tree.kind_is(c, "enum_item") {
            extract_enum(tree, i, k, c, file_module, universe, project);
        } else if tree.kind_is(c, "function_item") {
            extract_function(tree, i, k, c, file_module, project);
        }
        proof {
            assert(project@ == ext_one(t, i as int, k as int, file_module@, u, m1));
        }
        extract_items(tree, c, file_module, universe, project);
        k += 1;
    }
}

} // verus!
