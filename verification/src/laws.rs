//! Laws of the extraction pipeline, stated and proved over the same spec
//! functions that the executable functions' contracts use.

use vstd::prelude::*;

use crate::build_diagram::{spec_generate, DiagramConfigV};
use crate::extract::{
    edge_kind_of, enum_idents_fold, enum_field_step, enum_var_fields_fold, enum_variant_step,
    enum_variants_fold, ext_enum, ext_kids, ext_node, ext_one, ext_struct, fetch_or_create,
    is_attr_node, is_blank_node, is_doc_comment, spec_doc_summary, spec_has_test_marker,
    spec_type_idents, spec_universe, struct_field_step, struct_fields_fold, struct_idents_fold,
};
use crate::model::{rel_contains, rel_insert, ClassV, ParsedProjectV, RelationshipV};
use crate::parse::{
    all_ok_upto, corpus_model_upto, corpus_universe, corpus_universe_upto, file_module_of,
    parsed_tree, SourceFileV,
};
use crate::strutil::{contains_sub, spec_trim};
use crate::syntax::{spec_child_by_field, tree_wf, SynNodeV};

verus! {

/// Determinism: the two documents rendered from a corpus are a function of
/// the corpus and the configuration alone, so two runs on identical input
/// yield byte-identical output.
pub proof fn lemma_generate_deterministic(
    cfg: DiagramConfigV,
    files: Seq<SourceFileV>,
    r1: (Seq<char>, Seq<char>),
    r2: (Seq<char>, Seq<char>),
)
    requires
        r1 == spec_generate(cfg, files),
        r2 == spec_generate(cfg, files),
    ensures
        r1 == r2,
{
}

proof fn lemma_corpus_universe_mono(files: Seq<SourceFileV>, n1: int, n2: int, name: Seq<char>)
    requires
        0 <= n1 <= n2,
        corpus_universe_upto(files, n1).contains(name),
    ensures
        corpus_universe_upto(files, n2).contains(name),
    decreases n2 - n1,
{
    if n1 < n2 {
        lemma_corpus_universe_mono(files, n1, n2 - 1, name);
    }
}

/// Universe completeness precedes extraction: a type name declared in any
/// file of the corpus is in the universe that the extraction of every file
/// is run against, whatever the enumeration order. (That the extraction of
/// each file uses this whole-corpus universe is written into
/// `spec_parse_project` itself.)
pub proof fn lemma_universe_covers_each_file(
    files: Seq<SourceFileV>,
    f: int,
    name: Seq<char>,
)
    requires
        0 <= f < files.len(),
        spec_universe(parsed_tree(files[f].content).unwrap(), 0).contains(name),
    ensures
        corpus_universe(files).contains(name),
{
    assert(corpus_universe_upto(files, f + 1).contains(name));
    lemma_corpus_universe_mono(files, f + 1, files.len() as int, name);
}

/// Entity metadata is kept: every entity of `pre` is still present in
/// `post`, at its index, with its name, origin file, category and summary
/// unchanged.
pub open spec fn preserves_classes(pre: Seq<ClassV>, post: Seq<ClassV>) -> bool {
    &&& pre.len() <= post.len()
    &&& forall|i: int|
        0 <= i < pre.len() ==> {
            &&& (#[trigger] post[i]).name == pre[i].name
            &&& post[i].file == pre[i].file
            &&& post[i].stereotype == pre[i].stereotype
            &&& post[i].doc == pre[i].doc
        }
}

/// The class after the step keeps its name, file, category and summary.
pub open spec fn same_meta(a: ClassV, b: ClassV) -> bool {
    b.name == a.name && b.file == a.file && b.stereotype == a.stereotype && b.doc == a.doc
}

proof fn lemma_struct_idents_meta(
    u: Set<Seq<char>>,
    ids: Seq<Seq<char>>,
    n: int,
    edge: Seq<char>,
    fname: Option<Seq<char>>,
    cls: ClassV,
)
    ensures
        same_meta(cls, struct_idents_fold(u, ids, n, edge, fname, cls)),
    decreases n,
{
    if n > 0 {
        lemma_struct_idents_meta(u, ids, n - 1, edge, fname, cls);
    }
}

proof fn lemma_struct_field_meta(t: Seq<SynNodeV>, u: Set<Seq<char>>, f: int, cls: ClassV)
    ensures
        same_meta(cls, struct_field_step(t, u, f, cls)),
{
    if t[f].kind == "field_declaration"@ {
        let fname = match spec_child_by_field(t, f, "name"@) {
            Some(nn) => Some(t[nn].text),
            None => None,
        };
        let cls1 = match fname {
            Some(x) => ClassV { fields: cls.fields.push(x), ..cls },
            None => cls,
        };
        match spec_child_by_field(t, f, "type"@) {
            None => {},
            Some(ft) => {
                let ids = spec_type_idents(t, ft);
                lemma_struct_idents_meta(
                    u,
                    ids,
                    ids.len() as int,
                    edge_kind_of(t[ft].kind),
                    fname,
                    cls1,
                );
            },
        }
    }
}

proof fn lemma_struct_fields_meta(
    t: Seq<SynNodeV>,
    u: Set<Seq<char>>,
    bs: Seq<int>,
    j: int,
    cls: ClassV,
)
    ensures
        same_meta(cls, struct_fields_fold(t, u, bs, j, cls)),
    decreases j,
{
    if j > 0 {
        lemma_struct_fields_meta(t, u, bs, j - 1, cls);
        lemma_struct_field_meta(t, u, bs[j - 1], struct_fields_fold(t, u, bs, j - 1, cls));
    }
}

proof fn lemma_enum_idents_meta(
    u: Set<Seq<char>>,
    ids: Seq<Seq<char>>,
    n: int,
    edge: Seq<char>,
    vname: Option<Seq<char>>,
    fname: Option<Seq<char>>,
    cls: ClassV,
)
    ensures
        same_meta(cls, enum_idents_fold(u, ids, n, edge, vname, fname, cls)),
    decreases n,
{
    if n > 0 {
        lemma_enum_idents_meta(u, ids, n - 1, edge, vname, fname, cls);
    }
}

proof fn lemma_enum_field_meta(
    t: Seq<SynNodeV>,
    u: Set<Seq<char>>,
    f: int,
    vname: Option<Seq<char>>,
    cls: ClassV,
)
    ensures
        same_meta(cls, enum_field_step(t, u, f, vname, cls)),
{
    if t[f].kind == "field_declaration"@ {
        let fname = match spec_child_by_field(t, f, "name"@) {
            Some(nn) => Some(t[nn].text),
            None => None,
        };
        match spec_child_by_field(t, f, "type"@) {
            None => {},
            Some(ft) => {
                let ids = spec_type_idents(t, ft);
                lemma_enum_idents_meta(
                    u,
                    ids,
                    ids.len() as int,
                    edge_kind_of(t[ft].kind),
                    vname,
                    fname,
                    cls,
                );
            },
        }
    }
}

proof fn lemma_enum_var_fields_meta(
    t: Seq<SynNodeV>,
    u: Set<Seq<char>>,
    fs: Seq<int>,
    j: int,
    vname: Option<Seq<char>>,
    cls: ClassV,
)
    ensures
        same_meta(cls, enum_var_fields_fold(t, u, fs, j, vname, cls)),
    decreases j,
{
    if j > 0 {
        lemma_enum_var_fields_meta(t, u, fs, j - 1, vname, cls);
        lemma_enum_field_meta(t, u, fs[j - 1], vname, enum_var_fields_fold(t, u, fs, j - 1, vname, cls));
    }
}

proof fn lemma_enum_variant_meta(t: Seq<SynNodeV>, u: Set<Seq<char>>, v: int, cls: ClassV)
    ensures
        same_meta(cls, enum_variant_step(t, u, v, cls)),
{
    if t[v].kind == "enum_variant"@ {
        let vname = match spec_child_by_field(t, v, "name"@) {
            Some(nn) => Some(t[nn].text),
            None => None,
        };
        let cls1 = match vname {
            Some(x) => ClassV { fields: cls.fields.push(x), ..cls },
            None => cls,
        };
        match spec_child_by_field(t, v, "body"@) {
            None => {},
            Some(vb) => {
                lemma_enum_var_fields_meta(
                    t,
                    u,
                    t[vb].children,
                    t[vb].children.len() as int,
                    vname,
                    cls1,
                );
            },
        }
    }
}

proof fn lemma_enum_variants_meta(
    t: Seq<SynNodeV>,
    u: Set<Seq<char>>,
    vs: Seq<int>,
    j: int,
    cls: ClassV,
)
    ensures
        same_meta(cls, enum_variants_fold(t, u, vs, j, cls)),
    decreases j,
{
    if j > 0 {
        lemma_enum_variants_meta(t, u, vs, j - 1, cls);
        lemma_enum_variant_meta(t, u, vs[j - 1], enum_variants_fold(t, u, vs, j - 1, cls));
    }
}

proof fn lemma_find_class_bounds(cs: Seq<ClassV>, k: int, name: Seq<char>)
    requires
        0 <= k,
        crate::model::find_class_from(cs, k, name) is Some,
    ensures
        k <= crate::model::find_class_from(cs, k, name).unwrap() < cs.len(),
    decreases cs.len() - k,
{
    if k < cs.len() && !(cs[k].name == name) {
        lemma_find_class_bounds(cs, k + 1, name);
    }
}

proof fn lemma_fetch_preserves(
    classes: Seq<ClassV>,
    name: Seq<char>,
    file: Seq<char>,
    st: Seq<char>,
    doc: Option<Seq<char>>,
)
    ensures
        preserves_classes(classes, fetch_or_create(classes, name, file, st, doc).0),
        0 <= fetch_or_create(classes, name, file, st, doc).1 < fetch_or_create(
            classes,
            name,
            file,
            st,
            doc,
        ).0.len(),
{
    match crate::model::spec_find_class(classes, name) {
        Some(i) => {
            lemma_find_class_bounds(classes, 0, name);
        },
        None => {
            let post = fetch_or_create(classes, name, file, st, doc).0;
            assert forall|i: int| 0 <= i < classes.len() implies (#[trigger] post[i]).name
                == classes[i].name && post[i].file == classes[i].file && post[i].stereotype
                == classes[i].stereotype && post[i].doc == classes[i].doc by {
                assert(post[i] == classes[i]);
            }
        },
    }
}

proof fn lemma_update_meta_preserves(pre: Seq<ClassV>, idx: int, folded: ClassV)
    requires
        0 <= idx < pre.len(),
        same_meta(pre[idx], folded),
    ensures
        preserves_classes(pre, pre.update(idx, folded)),
{
    let post = pre.update(idx, folded);
    assert forall|i: int| 0 <= i < pre.len() implies (#[trigger] post[i]).name == pre[i].name
        && post[i].file == pre[i].file && post[i].stereotype == pre[i].stereotype && post[i].doc
        == pre[i].doc by {
        if i != idx {
            assert(post[i] == pre[i]);
        }
    }
}

proof fn lemma_preserves_trans(a: Seq<ClassV>, b: Seq<ClassV>, c: Seq<ClassV>)
    requires
        preserves_classes(a, b),
        preserves_classes(b, c),
    ensures
        preserves_classes(a, c),
{
    assert forall|i: int| 0 <= i < a.len() implies (#[trigger] c[i]).name == a[i].name && c[i].file
        == a[i].file && c[i].stereotype == a[i].stereotype && c[i].doc == a[i].doc by {
        assert(b[i].name == a[i].name && b[i].file == a[i].file && b[i].stereotype
            == a[i].stereotype && b[i].doc == a[i].doc);
        assert(c[i].name == b[i].name && c[i].file == b[i].file && c[i].stereotype
            == b[i].stereotype && c[i].doc == b[i].doc);
    }
}

proof fn lemma_ext_struct_preserves(
    t: Seq<SynNodeV>,
    c: int,
    cs: Seq<int>,
    k: int,
    file: Seq<char>,
    u: Set<Seq<char>>,
    m: ParsedProjectV,
)
    ensures
        preserves_classes(m.classes, ext_struct(t, c, cs, k, file, u, m).classes),
        ext_struct(t, c, cs, k, file, u, m).file_functions_main == m.file_functions_main,
        ext_struct(t, c, cs, k, file, u, m).file_functions_tests == m.file_functions_tests,
{
    match spec_child_by_field(t, c, "name"@) {
        None => {},
        Some(nc) => {
            let name = t[nc].text;
            let doc = spec_doc_summary(t, cs, k);
            let pr = fetch_or_create(m.classes, name, file, "struct"@, doc);
            lemma_fetch_preserves(m.classes, name, file, "struct"@, doc);
            match spec_child_by_field(t, c, "body"@) {
                None => {},
                Some(b) => {
                    let folded = struct_fields_fold(
                        t,
                        u,
                        t[b].children,
                        t[b].children.len() as int,
                        pr.0[pr.1],
                    );
                    lemma_struct_fields_meta(
                        t,
                        u,
                        t[b].children,
                        t[b].children.len() as int,
                        pr.0[pr.1],
                    );
                    lemma_update_meta_preserves(pr.0, pr.1, folded);
                    lemma_preserves_trans(m.classes, pr.0, pr.0.update(pr.1, folded));
                },
            }
        },
    }
}

proof fn lemma_ext_enum_preserves(
    t: Seq<SynNodeV>,
    c: int,
    cs: Seq<int>,
    k: int,
    file: Seq<char>,
    u: Set<Seq<char>>,
    m: ParsedProjectV,
)
    ensures
        preserves_classes(m.classes, ext_enum(t, c, cs, k, file, u, m).classes),
{
    match spec_child_by_field(t, c, "name"@) {
        None => {},
        Some(nc) => {
            let name = t[nc].text;
            let doc = spec_doc_summary(t, cs, k);
            let pr = fetch_or_create(m.classes, name, file, "enum"@, doc);
            lemma_fetch_preserves(m.classes, name, file, "enum"@, doc);
            match spec_child_by_field(t, c, "body"@) {
                None => {},
                Some(b) => {
                    let folded = enum_variants_fold(
                        t,
                        u,
                        t[b].children,
                        t[b].children.len() as int,
                        pr.0[pr.1],
                    );
                    lemma_enum_variants_meta(
                        t,
                        u,
                        t[b].children,
                        t[b].children.len() as int,
                        pr.0[pr.1],
                    );
                    lemma_update_meta_preserves(pr.0, pr.1, folded);
                    lemma_preserves_trans(m.classes, pr.0, pr.0.update(pr.1, folded));
                },
            }
        },
    }
}

proof fn lemma_ext_one_preserves(
    t: Seq<SynNodeV>,
    i: int,
    k: int,
    file: Seq<char>,
    u: Set<Seq<char>>,
    m: ParsedProjectV,
)
    ensures
        preserves_classes(m.classes, ext_one(t, i, k, file, u, m).classes),
{
    let cs = t[i].children;
    let c = cs[k];
    if t[c].kind == "struct_item"@ {
        lemma_ext_struct_preserves(t, c, cs, k, file, u, m);
    } else if t[c].kind == "enum_item"@ {
        lemma_ext_enum_preserves(t, c, cs, k, file, u, m);
    }
}

/// First-wins entity identity, over a whole walk: once an entity is in the
/// model, no later declaration of the same name (or any other
/// declaration) changes its category, origin file or summary, and no
/// entity is ever removed. Later declarations still fold their members and
/// edges into the first-created record.
pub proof fn lemma_ext_node_preserves(
    t: Seq<SynNodeV>,
    i: int,
    file: Seq<char>,
    u: Set<Seq<char>>,
    m: ParsedProjectV,
)
    requires
        tree_wf(t),
        0 <= i < t.len(),
    ensures
        preserves_classes(m.classes, ext_node(t, i, file, u, m).classes),
    decreases t.len() - i, 1int, 0int,
{
    lemma_ext_kids_preserves(t, i, t[i].children.len() as int, file, u, m);
}

proof fn lemma_ext_kids_preserves(
    t: Seq<SynNodeV>,
    i: int,
    k: int,
    file: Seq<char>,
    u: Set<Seq<char>>,
    m: ParsedProjectV,
)
    requires
        tree_wf(t),
        0 <= i < t.len(),
        0 <= k <= t[i].children.len(),
    ensures
        preserves_classes(m.classes, ext_kids(t, i, k, file, u, m).classes),
    decreases t.len() - i, 0int, k,
{
    if k > 0 {
        let m1 = ext_kids(t, i, k - 1, file, u, m);
        let m2 = ext_one(t, i, k - 1, file, u, m1);
        lemma_ext_kids_preserves(t, i, k - 1, file, u, m);
        lemma_ext_one_preserves(t, i, k - 1, file, u, m1);
        lemma_ext_node_preserves(t, t[i].children[k - 1], file, u, m2);
    }
}

/// Every edge that processing one struct field adds is tagged by the
/// field's declared type shape — aggregation for a reference-shaped type,
/// composition otherwise — and its target is a type name found in that
/// field's type subtree and present in the universe.
pub proof fn lemma_edge_kind_tie_break(
    t: Seq<SynNodeV>,
    u: Set<Seq<char>>,
    f: int,
    cls: ClassV,
    r: RelationshipV,
)
    requires
        rel_contains(struct_field_step(t, u, f, cls).relationships, r),
        !rel_contains(cls.relationships, r),
        spec_child_by_field(t, f, "type"@) is Some,
    ensures
        r.edge_type == edge_kind_of(t[spec_child_by_field(t, f, "type"@).unwrap()].kind),
        u.contains(r.target),
        spec_type_idents(t, spec_child_by_field(t, f, "type"@).unwrap()).contains(r.target),
{
    if t[f].kind == "field_declaration"@ {
        let fname = match spec_child_by_field(t, f, "name"@) {
            Some(nn) => Some(t[nn].text),
            None => None,
        };
        let cls1 = match fname {
            Some(x) => ClassV { fields: cls.fields.push(x), ..cls },
            None => cls,
        };
        let ft = spec_child_by_field(t, f, "type"@).unwrap();
        let ids = spec_type_idents(t, ft);
        lemma_struct_fold_new_edges(
            u,
            ids,
            ids.len() as int,
            edge_kind_of(t[ft].kind),
            fname,
            cls1,
            r,
        );
    }
}

proof fn lemma_struct_fold_new_edges(
    u: Set<Seq<char>>,
    ids: Seq<Seq<char>>,
    n: int,
    edge: Seq<char>,
    fname: Option<Seq<char>>,
    cls: ClassV,
    r: RelationshipV,
)
    requires
        0 <= n <= ids.len(),
        rel_contains(struct_idents_fold(u, ids, n, edge, fname, cls).relationships, r),
        !rel_contains(cls.relationships, r),
    ensures
        r.edge_type == edge,
        u.contains(r.target),
        ids.contains(r.target),
    decreases n,
{
    if n > 0 {
        let cls1 = struct_idents_fold(u, ids, n - 1, edge, fname, cls);
        let ty = ids[n - 1];
        if u.contains(ty) && !rel_contains(cls1.relationships, r) {
            assert(ids[n - 1] == ty);
        } else {
            lemma_struct_fold_new_edges(u, ids, n - 1, edge, fname, cls, r);
        }
    }
}

/// Foreign-type exclusion: a struct field none of whose type identifiers
/// is in the universe contributes no relationship edge, however many
/// identifier tokens its type expression holds.
pub proof fn lemma_foreign_type_no_edges(t: Seq<SynNodeV>, u: Set<Seq<char>>, f: int, cls: ClassV)
    requires
        forall|x: int|
            0 <= x < spec_type_idents(t, spec_child_by_field(t, f, "type"@).unwrap()).len()
                ==> !u.contains(
                #[trigger] spec_type_idents(t, spec_child_by_field(t, f, "type"@).unwrap())[x],
            ),
    ensures
        struct_field_step(t, u, f, cls).relationships == cls.relationships,
{
    if t[f].kind == "field_declaration"@ {
        let fname = match spec_child_by_field(t, f, "name"@) {
            Some(nn) => Some(t[nn].text),
            None => None,
        };
        let cls1 = match fname {
            Some(x) => ClassV { fields: cls.fields.push(x), ..cls },
            None => cls,
        };
        match spec_child_by_field(t, f, "type"@) {
            None => {},
            Some(ft) => {
                let ids = spec_type_idents(t, ft);
                lemma_foreign_fold_unchanged(
                    u,
                    ids,
                    ids.len() as int,
                    edge_kind_of(t[ft].kind),
                    fname,
                    cls1,
                );
            },
        }
    }
}

proof fn lemma_foreign_fold_unchanged(
    u: Set<Seq<char>>,
    ids: Seq<Seq<char>>,
    n: int,
    edge: Seq<char>,
    fname: Option<Seq<char>>,
    cls: ClassV,
)
    requires
        0 <= n <= ids.len(),
        forall|x: int| 0 <= x < ids.len() ==> !u.contains(#[trigger] ids[x]),
    ensures
        struct_idents_fold(u, ids, n, edge, fname, cls) == cls,
    decreases n,
{
    if n > 0 {
        lemma_foreign_fold_unchanged(u, ids, n - 1, edge, fname, cls);
    }
}

/// Doc summary resolution: when the sibling immediately above a
/// declaration is itself a documentation comment, that line — the nearest
/// one, not the first of a contiguous block — becomes the summary.
pub proof fn lemma_doc_summary_nearest(t: Seq<SynNodeV>, cs: Seq<int>, p: int)
    requires
        1 <= p <= cs.len(),
        is_doc_comment(t[cs[p - 1]]),
    ensures
        spec_doc_summary(t, cs, p) == Some(
            spec_trim(t[cs[p - 1]].text.subrange(3, t[cs[p - 1]].text.len() as int)),
        ),
{
}

/// A sibling that the backward scan for a test marker steps over: a
/// comment, a blank node, or an attribute without the marker.
pub open spec fn test_scan_skips(n: SynNodeV) -> bool {
    ||| (is_attr_node(n) && !contains_sub(n.text, "test]"@))
    ||| n.kind == "line_comment"@
    ||| n.kind == "block_comment"@
    ||| is_blank_node(n)
}

/// Test routing, positive half: an attribute holding the test marker,
/// separated from the declaration only by siblings the scan steps over,
/// classifies the declaration as a test.
pub proof fn lemma_test_marker_through_comments(t: Seq<SynNodeV>, cs: Seq<int>, p: int, q: int)
    requires
        0 <= q < p <= cs.len(),
        is_attr_node(t[cs[q]]),
        contains_sub(t[cs[q]].text, "test]"@),
        forall|l: int| q < l < p ==> test_scan_skips(#[trigger] t[cs[l]]),
    ensures
        spec_has_test_marker(t, cs, p),
    decreases p - q,
{
    if p - 1 > q {
        lemma_test_marker_through_comments(t, cs, p - 1, q);
    }
}

/// Test routing, negative half: a non-blank sibling that is neither a
/// comment nor an attribute, standing immediately before the declaration,
/// classifies it as non-test — even if a test marker stands further above.
pub proof fn lemma_statement_blocks_test_marker(t: Seq<SynNodeV>, cs: Seq<int>, p: int)
    requires
        1 <= p <= cs.len(),
        !is_attr_node(t[cs[p - 1]]),
        t[cs[p - 1]].kind != "line_comment"@,
        t[cs[p - 1]].kind != "block_comment"@,
        !is_blank_node(t[cs[p - 1]]),
    ensures
        !spec_has_test_marker(t, cs, p),
{
}


/// Every recorded edge of the entity targets a name in the universe.
pub open spec fn class_edges_in(c: ClassV, u: Set<Seq<char>>) -> bool {
    forall|j: int|
        0 <= j < c.relationships.len() ==> u.contains((#[trigger] c.relationships[j]).target)
}

/// Every recorded edge of every entity targets a name in the universe.
pub open spec fn edges_in_universe(classes: Seq<ClassV>, u: Set<Seq<char>>) -> bool {
    forall|i: int|
        0 <= i < classes.len() ==> class_edges_in(#[trigger] classes[i], u)
}

proof fn lemma_rel_insert_in(rels: Seq<RelationshipV>, r: RelationshipV, u: Set<Seq<char>>)
    requires
        forall|j: int| 0 <= j < rels.len() ==> u.contains((#[trigger] rels[j]).target),
        u.contains(r.target),
    ensures
        forall|j: int|
            0 <= j < rel_insert(rels, r).len() ==> u.contains(
                (#[trigger] rel_insert(rels, r)[j]).target,
            ),
{
    let post = rel_insert(rels, r);
    assert forall|j: int| 0 <= j < post.len() implies u.contains(
        (#[trigger] post[j]).target,
    ) by {
        if !rel_contains(rels, r) && j == rels.len() {
            assert(post[j] == r);
        } else {
            assert(post[j] == rels[j]);
        }
    }
}

proof fn lemma_struct_idents_in(
    u: Set<Seq<char>>,
    ids: Seq<Seq<char>>,
    n: int,
    edge: Seq<char>,
    fname: Option<Seq<char>>,
    cls: ClassV,
)
    requires
        class_edges_in(cls, u),
    ensures
        class_edges_in(struct_idents_fold(u, ids, n, edge, fname, cls), u),
    decreases n,
{
    if n > 0 {
        lemma_struct_idents_in(u, ids, n - 1, edge, fname, cls);
        let cls1 = struct_idents_fold(u, ids, n - 1, edge, fname, cls);
        let ty = ids[n - 1];
        if u.contains(ty) {
            let label = match fname {
                Some(f) => Some(ty + " "@ + f),
                None => None,
            };
            lemma_rel_insert_in(
                cls1.relationships,
                RelationshipV { source: cls1.name, target: ty, edge_type: edge, label: label },
                u,
            );
        }
    }
}

proof fn lemma_struct_field_in(t: Seq<SynNodeV>, u: Set<Seq<char>>, f: int, cls: ClassV)
    requires
        class_edges_in(cls, u),
    ensures
        class_edges_in(struct_field_step(t, u, f, cls), u),
{
    if t[f].kind == "field_declaration"@ {
        let fname = match spec_child_by_field(t, f, "name"@) {
            Some(nn) => Some(t[nn].text),
            None => None,
        };
        let cls1 = match fname {
            Some(x) => ClassV { fields: cls.fields.push(x), ..cls },
            None => cls,
        };
        match spec_child_by_field(t, f, "type"@) {
            None => {},
            Some(ft) => {
                let ids = spec_type_idents(t, ft);
                lemma_struct_idents_in(u, ids, ids.len() as int, edge_kind_of(t[ft].kind), fname, cls1);
            },
        }
    }
}

proof fn lemma_struct_fields_in(
    t: Seq<SynNodeV>,
    u: Set<Seq<char>>,
    bs: Seq<int>,
    j: int,
    cls: ClassV,
)
    requires
        class_edges_in(cls, u),
    ensures
        class_edges_in(struct_fields_fold(t, u, bs, j, cls), u),
    decreases j,
{
    if j > 0 {
        lemma_struct_fields_in(t, u, bs, j - 1, cls);
        lemma_struct_field_in(t, u, bs[j - 1], struct_fields_fold(t, u, bs, j - 1, cls));
    }
}

proof fn lemma_enum_idents_in(
    u: Set<Seq<char>>,
    ids: Seq<Seq<char>>,
    n: int,
    edge: Seq<char>,
    vname: Option<Seq<char>>,
    fname: Option<Seq<char>>,
    cls: ClassV,
)
    requires
        class_edges_in(cls, u),
    ensures
        class_edges_in(enum_idents_fold(u, ids, n, edge, vname, fname, cls), u),
    decreases n,
{
    if n > 0 {
        lemma_enum_idents_in(u, ids, n - 1, edge, vname, fname, cls);
        let cls1 = enum_idents_fold(u, ids, n - 1, edge, vname, fname, cls);
        let ty = ids[n - 1];
        if u.contains(ty) {
            lemma_rel_insert_in(
                cls1.relationships,
                RelationshipV {
                    source: cls1.name,
                    target: ty,
                    edge_type: edge,
                    label: crate::extract::enum_label(ty, vname, fname),
                },
                u,
            );
        }
    }
}

proof fn lemma_enum_field_in(
    t: Seq<SynNodeV>,
    u: Set<Seq<char>>,
    f: int,
    vname: Option<Seq<char>>,
    cls: ClassV,
)
    requires
        class_edges_in(cls, u),
    ensures
        class_edges_in(enum_field_step(t, u, f, vname, cls), u),
{
    if t[f].kind == "field_declaration"@ {
        let fname = match spec_child_by_field(t, f, "name"@) {
            Some(nn) => Some(t[nn].text),
            None => None,
        };
        match spec_child_by_field(t, f, "type"@) {
            None => {},
            Some(ft) => {
                let ids = spec_type_idents(t, ft);
                lemma_enum_idents_in(
                    u,
                    ids,
                    ids.len() as int,
                    edge_kind_of(t[ft].kind),
                    vname,
                    fname,
                    cls,
                );
            },
        }
    }
}

proof fn lemma_enum_var_fields_in(
    t: Seq<SynNodeV>,
    u: Set<Seq<char>>,
    fs: Seq<int>,
    j: int,
    vname: Option<Seq<char>>,
    cls: ClassV,
)
    requires
        class_edges_in(cls, u),
    ensures
        class_edges_in(enum_var_fields_fold(t, u, fs, j, vname, cls), u),
    decreases j,
{
    if j > 0 {
        lemma_enum_var_fields_in(t, u, fs, j - 1, vname, cls);
        lemma_enum_field_in(t, u, fs[j - 1], vname, enum_var_fields_fold(t, u, fs, j - 1, vname, cls));
    }
}

proof fn lemma_enum_variant_in(t: Seq<SynNodeV>, u: Set<Seq<char>>, v: int, cls: ClassV)
    requires
        class_edges_in(cls, u),
    ensures
        class_edges_in(enum_variant_step(t, u, v, cls), u),
{
    if t[v].kind == "enum_variant"@ {
        let vname = match spec_child_by_field(t, v, "name"@) {
            Some(nn) => Some(t[nn].text),
            None => None,
        };
        let cls1 = match vname {
            Some(x) => ClassV { fields: cls.fields.push(x), ..cls },
            None => cls,
        };
        match spec_child_by_field(t, v, "body"@) {
            None => {},
            Some(vb) => {
                lemma_enum_var_fields_in(
                    t,
                    u,
                    t[vb].children,
                    t[vb].children.len() as int,
                    vname,
                    cls1,
                );
            },
        }
    }
}

proof fn lemma_enum_variants_in(
    t: Seq<SynNodeV>,
    u: Set<Seq<char>>,
    vs: Seq<int>,
    j: int,
    cls: ClassV,
)
    requires
        class_edges_in(cls, u),
    ensures
        class_edges_in(enum_variants_fold(t, u, vs, j, cls), u),
    decreases j,
{
    if j > 0 {
        lemma_enum_variants_in(t, u, vs, j - 1, cls);
        lemma_enum_variant_in(t, u, vs[j - 1], enum_variants_fold(t, u, vs, j - 1, cls));
    }
}

proof fn lemma_fetch_edges_in(
    classes: Seq<ClassV>,
    name: Seq<char>,
    file: Seq<char>,
    st: Seq<char>,
    doc: Option<Seq<char>>,
    u: Set<Seq<char>>,
)
    requires
        edges_in_universe(classes, u),
    ensures
        edges_in_universe(fetch_or_create(classes, name, file, st, doc).0, u),
        class_edges_in(
            fetch_or_create(classes, name, file, st, doc).0[fetch_or_create(
                classes,
                name,
                file,
                st,
                doc,
            ).1],
            u,
        ),
{
    lemma_fetch_preserves(classes, name, file, st, doc);
    let post = fetch_or_create(classes, name, file, st, doc).0;
    let idx = fetch_or_create(classes, name, file, st, doc).1;
    match crate::model::spec_find_class(classes, name) {
        Some(i) => {},
        None => {
            assert forall|i: int| 0 <= i < post.len() implies class_edges_in(
                #[trigger] post[i],
                u,
            ) by {
                if i < classes.len() {
                    assert(post[i] == classes[i]);
                } else {
                    assert(post[i] == crate::extract::new_class(name, file, Some(st), doc));
                }
            }
        },
    }
}

proof fn lemma_update_edges_in(pre: Seq<ClassV>, idx: int, folded: ClassV, u: Set<Seq<char>>)
    requires
        edges_in_universe(pre, u),
        0 <= idx < pre.len(),
        class_edges_in(folded, u),
    ensures
        edges_in_universe(pre.update(idx, folded), u),
{
    let post = pre.update(idx, folded);
    assert forall|i: int| 0 <= i < post.len() implies class_edges_in(#[trigger] post[i], u) by {
        if i != idx {
            assert(post[i] == pre[i]);
        }
    }
}

proof fn lemma_ext_struct_edges_in(
    t: Seq<SynNodeV>,
    c: int,
    cs: Seq<int>,
    k: int,
    file: Seq<char>,
    u: Set<Seq<char>>,
    m: ParsedProjectV,
)
    requires
        edges_in_universe(m.classes, u),
    ensures
        edges_in_universe(ext_struct(t, c, cs, k, file, u, m).classes, u),
{
    match spec_child_by_field(t, c, "name"@) {
        None => {},
        Some(nc) => {
            let name = t[nc].text;
            let doc = spec_doc_summary(t, cs, k);
            let pr = fetch_or_create(m.classes, name, file, "struct"@, doc);
            lemma_fetch_preserves(m.classes, name, file, "struct"@, doc);
            lemma_fetch_edges_in(m.classes, name, file, "struct"@, doc, u);
            match spec_child_by_field(t, c, "body"@) {
                None => {},
                Some(b) => {
                    let folded = struct_fields_fold(
                        t,
                        u,
                        t[b].children,
                        t[b].children.len() as int,
                        pr.0[pr.1],
                    );
                    lemma_struct_fields_in(
                        t,
                        u,
                        t[b].children,
                        t[b].children.len() as int,
                        pr.0[pr.1],
                    );
                    lemma_update_edges_in(pr.0, pr.1, folded, u);
                },
            }
        },
    }
}

proof fn lemma_ext_enum_edges_in(
    t: Seq<SynNodeV>,
    c: int,
    cs: Seq<int>,
    k: int,
    file: Seq<char>,
    u: Set<Seq<char>>,
    m: ParsedProjectV,
)
    requires
        edges_in_universe(m.classes, u),
    ensures
        edges_in_universe(ext_enum(t, c, cs, k, file, u, m).classes, u),
{
    match spec_child_by_field(t, c, "name"@) {
        None => {},
        Some(nc) => {
            let name = t[nc].text;
            let doc = spec_doc_summary(t, cs, k);
            let pr = fetch_or_create(m.classes, name, file, "enum"@, doc);
            lemma_fetch_preserves(m.classes, name, file, "enum"@, doc);
            lemma_fetch_edges_in(m.classes, name, file, "enum"@, doc, u);
            match spec_child_by_field(t, c, "body"@) {
                None => {},
                Some(b) => {
                    let folded = enum_variants_fold(
                        t,
                        u,
                        t[b].children,
                        t[b].children.len() as int,
                        pr.0[pr.1],
                    );
                    lemma_enum_variants_in(
                        t,
                        u,
                        t[b].children,
                        t[b].children.len() as int,
                        pr.0[pr.1],
                    );
                    lemma_update_edges_in(pr.0, pr.1, folded, u);
                },
            }
        },
    }
}

proof fn lemma_ext_one_edges_in(
    t: Seq<SynNodeV>,
    i: int,
    k: int,
    file: Seq<char>,
    u: Set<Seq<char>>,
    m: ParsedProjectV,
)
    requires
        edges_in_universe(m.classes, u),
    ensures
        edges_in_universe(ext_one(t, i, k, file, u, m).classes, u),
{
    let cs = t[i].children;
    let c = cs[k];
    if t[c].kind == "struct_item"@ {
        lemma_ext_struct_edges_in(t, c, cs, k, file, u, m);
    } else if t[c].kind == "enum_item"@ {
        lemma_ext_enum_edges_in(t, c, cs, k, file, u, m);
    }
}

/// The data-model invariant: an entity's edges only ever reference names
/// present in the type universe — a type absent from the universe never
/// gains an edge, so the walk keeps the property over the whole model.
pub proof fn lemma_edges_target_universe(
    t: Seq<SynNodeV>,
    i: int,
    file: Seq<char>,
    u: Set<Seq<char>>,
    m: ParsedProjectV,
)
    requires
        tree_wf(t),
        0 <= i < t.len(),
        edges_in_universe(m.classes, u),
    ensures
        edges_in_universe(ext_node(t, i, file, u, m).classes, u),
    decreases t.len() - i, 1int, 0int,
{
    lemma_ext_kids_edges_in(t, i, t[i].children.len() as int, file, u, m);
}

proof fn lemma_ext_kids_edges_in(
    t: Seq<SynNodeV>,
    i: int,
    k: int,
    file: Seq<char>,
    u: Set<Seq<char>>,
    m: ParsedProjectV,
)
    requires
        tree_wf(t),
        0 <= i < t.len(),
        0 <= k <= t[i].children.len(),
        edges_in_universe(m.classes, u),
    ensures
        edges_in_universe(ext_kids(t, i, k, file, u, m).classes, u),
    decreases t.len() - i, 0int, k,
{
    if k > 0 {
        let m1 = ext_kids(t, i, k - 1, file, u, m);
        let m2 = ext_one(t, i, k - 1, file, u, m1);
        lemma_ext_kids_edges_in(t, i, k - 1, file, u, m);
        lemma_ext_one_edges_in(t, i, k - 1, file, u, m1);
        lemma_edges_target_universe(t, t[i].children[k - 1], file, u, m2);
    }
}


/// Entity names are unique keys: no two records share a name.
pub open spec fn class_names_unique(classes: Seq<ClassV>) -> bool {
    forall|i: int, j: int|
        0 <= i < j < classes.len() ==> (#[trigger] classes[i]).name != (#[trigger] classes[j]).name
}

proof fn lemma_find_class_none(cs: Seq<ClassV>, k: int, name: Seq<char>)
    requires
        0 <= k,
        crate::model::find_class_from(cs, k, name) is None,
    ensures
        forall|i: int| k <= i < cs.len() ==> (#[trigger] cs[i]).name != name,
    decreases cs.len() - k,
{
    if k < cs.len() {
        lemma_find_class_none(cs, k + 1, name);
    }
}

proof fn lemma_fetch_unique(
    classes: Seq<ClassV>,
    name: Seq<char>,
    file: Seq<char>,
    st: Seq<char>,
    doc: Option<Seq<char>>,
)
    requires
        class_names_unique(classes),
    ensures
        class_names_unique(fetch_or_create(classes, name, file, st, doc).0),
{
    let post = fetch_or_create(classes, name, file, st, doc).0;
    match crate::model::spec_find_class(classes, name) {
        Some(i) => {},
        None => {
            lemma_find_class_none(classes, 0, name);
            assert forall|i: int, j: int| 0 <= i < j < post.len() implies (
            #[trigger] post[i]).name != (#[trigger] post[j]).name by {
                if j < classes.len() {
                    assert(post[i] == classes[i] && post[j] == classes[j]);
                } else {
                    assert(post[i] == classes[i]);
                    assert(post[j].name == name);
                }
            }
        },
    }
}

proof fn lemma_update_unique(pre: Seq<ClassV>, idx: int, folded: ClassV)
    requires
        class_names_unique(pre),
        0 <= idx < pre.len(),
        folded.name == pre[idx].name,
    ensures
        class_names_unique(pre.update(idx, folded)),
{
    let post = pre.update(idx, folded);
    assert forall|i: int, j: int| 0 <= i < j < post.len() implies (#[trigger] post[i]).name != (
    #[trigger] post[j]).name by {
        assert(post[i].name == pre[i].name && post[j].name == pre[j].name);
    }
}

proof fn lemma_ext_struct_unique(
    t: Seq<SynNodeV>,
    c: int,
    cs: Seq<int>,
    k: int,
    file: Seq<char>,
    u: Set<Seq<char>>,
    m: ParsedProjectV,
)
    requires
        class_names_unique(m.classes),
    ensures
        class_names_unique(ext_struct(t, c, cs, k, file, u, m).classes),
{
    match spec_child_by_field(t, c, "name"@) {
        None => {},
        Some(nc) => {
            let name = t[nc].text;
            let doc = spec_doc_summary(t, cs, k);
            let pr = fetch_or_create(m.classes, name, file, "struct"@, doc);
            lemma_fetch_preserves(m.classes, name, file, "struct"@, doc);
            lemma_fetch_unique(m.classes, name, file, "struct"@, doc);
            match spec_child_by_field(t, c, "body"@) {
                None => {},
                Some(b) => {
                    let folded = struct_fields_fold(
                        t,
                        u,
                        t[b].children,
                        t[b].children.len() as int,
                        pr.0[pr.1],
                    );
                    lemma_struct_fields_meta(
                        t,
                        u,
                        t[b].children,
                        t[b].children.len() as int,
                        pr.0[pr.1],
                    );
                    lemma_update_unique(pr.0, pr.1, folded);
                },
            }
        },
    }
}

proof fn lemma_ext_enum_unique(
    t: Seq<SynNodeV>,
    c: int,
    cs: Seq<int>,
    k: int,
    file: Seq<char>,
    u: Set<Seq<char>>,
    m: ParsedProjectV,
)
    requires
        class_names_unique(m.classes),
    ensures
        class_names_unique(ext_enum(t, c, cs, k, file, u, m).classes),
{
    match spec_child_by_field(t, c, "name"@) {
        None => {},
        Some(nc) => {
            let name = t[nc].text;
            let doc = spec_doc_summary(t, cs, k);
            let pr = fetch_or_create(m.classes, name, file, "enum"@, doc);
            lemma_fetch_preserves(m.classes, name, file, "enum"@, doc);
            lemma_fetch_unique(m.classes, name, file, "enum"@, doc);
            match spec_child_by_field(t, c, "body"@) {
                None => {},
                Some(b) => {
                    let folded = enum_variants_fold(
                        t,
                        u,
                        t[b].children,
                        t[b].children.len() as int,
                        pr.0[pr.1],
                    );
                    lemma_enum_variants_meta(
                        t,
                        u,
                        t[b].children,
                        t[b].children.len() as int,
                        pr.0[pr.1],
                    );
                    lemma_update_unique(pr.0, pr.1, folded);
                },
            }
        },
    }
}

proof fn lemma_ext_one_unique(
    t: Seq<SynNodeV>,
    i: int,
    k: int,
    file: Seq<char>,
    u: Set<Seq<char>>,
    m: ParsedProjectV,
)
    requires
        class_names_unique(m.classes),
    ensures
        class_names_unique(ext_one(t, i, k, file, u, m).classes),
{
    let cs = t[i].children;
    let c = cs[k];
    if t[c].kind == "struct_item"@ {
        lemma_ext_struct_unique(t, c, cs, k, file, u, m);
    } else if t[c].kind == "enum_item"@ {
        lemma_ext_enum_unique(t, c, cs, k, file, u, m);
    }
}

/// Entity identity is by name: the walk never creates a second record for
/// an already-recorded name, so names stay unique keys of the model.
pub proof fn lemma_entity_names_unique(
    t: Seq<SynNodeV>,
    i: int,
    file: Seq<char>,
    u: Set<Seq<char>>,
    m: ParsedProjectV,
)
    requires
        tree_wf(t),
        0 <= i < t.len(),
        class_names_unique(m.classes),
    ensures
        class_names_unique(ext_node(t, i, file, u, m).classes),
    decreases t.len() - i, 1int, 0int,
{
    lemma_ext_kids_unique(t, i, t[i].children.len() as int, file, u, m);
}

proof fn lemma_ext_kids_unique(
    t: Seq<SynNodeV>,
    i: int,
    k: int,
    file: Seq<char>,
    u: Set<Seq<char>>,
    m: ParsedProjectV,
)
    requires
        tree_wf(t),
        0 <= i < t.len(),
        0 <= k <= t[i].children.len(),
        class_names_unique(m.classes),
    ensures
        class_names_unique(ext_kids(t, i, k, file, u, m).classes),
    decreases t.len() - i, 0int, k,
{
    if k > 0 {
        let m1 = ext_kids(t, i, k - 1, file, u, m);
        let m2 = ext_one(t, i, k - 1, file, u, m1);
        lemma_ext_kids_unique(t, i, k - 1, file, u, m);
        lemma_ext_one_unique(t, i, k - 1, file, u, m1);
        lemma_entity_names_unique(t, t[i].children[k - 1], file, u, m2);
    }
}

/// Over a whole corpus whose files all parse: the extracted model's entity
/// names are unique keys, and every recorded edge targets a name in the
/// universe the model was extracted against.
pub proof fn lemma_corpus_model_invariants(files: Seq<SourceFileV>, n: int, u: Set<Seq<char>>)
    requires
        0 <= n <= files.len(),
        all_ok_upto(files, n),
    ensures
        class_names_unique(corpus_model_upto(files, n, u).classes),
        edges_in_universe(corpus_model_upto(files, n, u).classes, u),
    decreases n,
{
    if n > 0 {
        lemma_corpus_model_invariants(files, n - 1, u);
        let tree = parsed_tree(files[n - 1].content).unwrap();
        let prev = corpus_model_upto(files, n - 1, u);
        lemma_entity_names_unique(tree, 0, file_module_of(files[n - 1].path), u, prev);
        lemma_edges_target_universe(tree, 0, file_module_of(files[n - 1].path), u, prev);
    }
}

} // verus!
