//! Rendering the extracted model as two class-diagram documents: one for
//! the project and one for its test files.
//!
//! All ordering in the output is deterministic: file namespaces are sorted,
//! entities inside a namespace are sorted by name, and edge lines are
//! sorted and de-duplicated as rendered text.

use vstd::prelude::*;

use crate::model::{
    Class, ClassV, Relationship, FileFunctions, FileFunctionsV, FunctionInfoV, ParsedProject, ParsedProjectV,
    RelationshipV, find_class, find_file, spec_find_class, spec_find_file,
};
use crate::parse::{ParseError, SourceFile, SourceFileV, first_bad_file, parse_project,
    spec_parse_project};
use crate::strutil::{
    contains_sub, ends_with, insert_sorted_unique, sorted_insert_unique, starts_with,
    str_contains, str_ends_with, str_starts_with, views_of,
};
use crate::syntax::opt_view;

verus! {

/// Options controlling how the rendered diagrams are titled and laid out.
pub struct DiagramConfig {
    pub main_title: String,
    pub tests_title: String,
    pub layout: String,
    pub theme: String,
    pub elk_node_placement: String,
}

#[verifier::ext_equal]
pub struct DiagramConfigV {
    pub main_title: Seq<char>,
    pub tests_title: Seq<char>,
    pub layout: Seq<char>,
    pub theme: Seq<char>,
    pub elk_node_placement: Seq<char>,
}

impl View for DiagramConfig {
    type V = DiagramConfigV;

    open spec fn view(&self) -> DiagramConfigV {
        DiagramConfigV {
            main_title: self.main_title@,
            tests_title: self.tests_title@,
            layout: self.layout@,
            theme: self.theme@,
            elk_node_placement: self.elk_node_placement@,
        }
    }
}

/// The configuration used when none is given.
pub open spec fn spec_default_config() -> DiagramConfigV {
    DiagramConfigV {
        main_title: "Project"@,
        tests_title: "Project Tests"@,
        layout: "elk"@,
        theme: "dark"@,
        elk_node_placement: "BRANDES_KOEPF"@,
    }
}

impl Default for DiagramConfig {
    fn default() -> (r: Self)
        ensures
            r@ == spec_default_config(),
    {
        let r = DiagramConfig {
            main_title: String::from_str("Project"),
            tests_title: String::from_str("Project Tests"),
            layout: String::from_str("elk"),
            theme: String::from_str("dark"),
            elk_node_placement: String::from_str("BRANDES_KOEPF"),
        };
        proof {
            assert(r@ =~= spec_default_config());
        }
        r
    }
}

/// The two rendered documents: the project diagram and the test diagram.
pub struct Diagrams {
    pub main: String,
    pub tests: String,
}

/// A file identity that routes its entities to the test document.
pub open spec fn spec_is_test_file(f: Seq<char>) -> bool {
    ||| starts_with(f, "tests"@)
    ||| contains_sub(f, "/tests/"@)
    ||| ends_with(f, "_test"@)
    ||| ends_with(f, "_tests"@)
}

/// `true` when the file identity routes to the test document.
pub fn is_test_file(file_module: &str) -> (r: bool)
    ensures
        r == spec_is_test_file(file_module@),
{
    str_starts_with(file_module, "tests") || str_contains(file_module, "/tests/")
        || str_ends_with(file_module, "_test") || str_ends_with(file_module, "_tests")
}

/// The document header carrying title, layout, theme and placement.
pub open spec fn spec_header(
    title: Seq<char>,
    layout: Seq<char>,
    theme: Seq<char>,
    elk: Seq<char>,
) -> Seq<char> {
    "---\nconfig:\n  title: "@ + title + "\n  layout: "@ + layout + "\n  theme: "@ + theme
        + "\n  elk:\n    mergeEdges: true\n    nodePlacementStrategy: "@ + elk + "\n---\n"@
}

/// The member lines of a class block.
pub open spec fn spec_field_lines(fs: Seq<Seq<char>>, j: int) -> Seq<char>
    decreases j,
{
    if j <= 0 {
        Seq::empty()
    } else {
        spec_field_lines(fs, j - 1) + "            "@ + fs[j - 1] + "\n"@
    }
}

/// The method lines of a class block.
pub open spec fn spec_method_lines(ms: Seq<Seq<char>>, j: int) -> Seq<char>
    decreases j,
{
    if j <= 0 {
        Seq::empty()
    } else {
        spec_method_lines(ms, j - 1) + "            "@ + ms[j - 1] + "()\n"@
    }
}

/// The rendered block of one entity.
pub open spec fn spec_render_class(c: ClassV) -> Seq<char> {
    "        class `"@ + c.name + "` {\n"@ + (match c.stereotype {
        Some(st) => "            <<"@ + st + ">>\n"@,
        None => Seq::<char>::empty(),
    }) + "            <<"@ + c.file + ">>\n"@ + spec_field_lines(c.fields, c.fields.len() as int)
        + spec_method_lines(c.methods, c.methods.len() as int) + "        }\n"@
}

/// The note attached to an entity, when it carries a summary.
pub open spec fn spec_render_note(c: ClassV) -> Option<Seq<char>> {
    match c.doc {
        Some(d) => Some("note for `"@ + c.name + "` \""@ + d + "\"\n"@),
        None => None,
    }
}

/// One rendered edge line.
pub open spec fn spec_render_edge(r: RelationshipV) -> Seq<char> {
    match r.label {
        Some(l) => "    "@ + r.source + " "@ + r.edge_type + " "@ + r.target + " : "@ + l + "\n"@,
        None => "    "@ + r.source + " "@ + r.edge_type + " "@ + r.target + "\n"@,
    }
}

/// One rendered capability (trait implementation) edge line.
pub open spec fn spec_render_trait_edge(ti: Seq<char>, name: Seq<char>) -> Seq<char> {
    "    "@ + ti + " <|.. "@ + name + "\n"@
}

/// The sorted edge list after folding in the first `j` edges of a class.
pub open spec fn rel_edges_fold(
    rels: Seq<RelationshipV>,
    j: int,
    acc: Seq<Seq<char>>,
) -> Seq<Seq<char>>
    decreases j,
{
    if j <= 0 {
        acc
    } else {
        sorted_insert_unique(rel_edges_fold(rels, j - 1, acc), spec_render_edge(rels[j - 1]))
    }
}

/// The sorted edge list after folding in the first `j` capability links.
pub open spec fn trait_edges_fold(
    tis: Seq<Seq<char>>,
    j: int,
    name: Seq<char>,
    acc: Seq<Seq<char>>,
) -> Seq<Seq<char>>
    decreases j,
{
    if j <= 0 {
        acc
    } else {
        sorted_insert_unique(
            trait_edges_fold(tis, j - 1, name, acc),
            spec_render_trait_edge(tis[j - 1], name),
        )
    }
}

/// All edge lines of one class folded into the sorted edge list.
pub open spec fn class_edges(c: ClassV, acc: Seq<Seq<char>>) -> Seq<Seq<char>> {
    trait_edges_fold(
        c.trait_impls,
        c.trait_impls.len() as int,
        c.name,
        rel_edges_fold(c.relationships, c.relationships.len() as int, acc),
    )
}

/// The sorted edge list of the classes (among the first `j`) on one side.
pub open spec fn side_edges(
    classes: Seq<ClassV>,
    j: int,
    side: bool,
    acc: Seq<Seq<char>>,
) -> Seq<Seq<char>>
    decreases j,
{
    if j <= 0 {
        acc
    } else {
        let a = side_edges(classes, j - 1, side, acc);
        if spec_is_test_file(classes[j - 1].file) == side {
            class_edges(classes[j - 1], a)
        } else {
            a
        }
    }
}

/// The sorted list of file identities (among the first `j` classes) on one
/// side.
pub open spec fn side_files(
    classes: Seq<ClassV>,
    j: int,
    side: bool,
    acc: Seq<Seq<char>>,
) -> Seq<Seq<char>>
    decreases j,
{
    if j <= 0 {
        acc
    } else {
        let a = side_files(classes, j - 1, side, acc);
        if spec_is_test_file(classes[j - 1].file) == side {
            sorted_insert_unique(a, classes[j - 1].file)
        } else {
            a
        }
    }
}

/// The sorted list of entity names (among the first `j` classes) declared
/// in `file`.
pub open spec fn file_class_names(
    classes: Seq<ClassV>,
    j: int,
    file: Seq<char>,
    acc: Seq<Seq<char>>,
) -> Seq<Seq<char>>
    decreases j,
{
    if j <= 0 {
        acc
    } else {
        let a = file_class_names(classes, j - 1, file, acc);
        if classes[j - 1].file == file {
            sorted_insert_unique(a, classes[j - 1].name)
        } else {
            a
        }
    }
}

/// The opening line of a file namespace.
pub open spec fn spec_ns_header(file: Seq<char>) -> Seq<char> {
    "    namespace `"@ + file + ".rs` {\n"@
}

/// The class blocks and notes for the first `j` sorted entity names.
pub open spec fn render_names_fold(classes: Seq<ClassV>, names: Seq<Seq<char>>, j: int) -> (
    Seq<char>,
    Seq<char>,
)
    decreases j,
{
    if j <= 0 {
        (Seq::<char>::empty(), Seq::<char>::empty())
    } else {
        let pr = render_names_fold(classes, names, j - 1);
        match spec_find_class(classes, names[j - 1]) {
            Some(ci) => (
                pr.0 + spec_render_class(classes[ci]),
                pr.1 + (match spec_render_note(classes[ci]) {
                    Some(nt) => nt,
                    None => Seq::<char>::empty(),
                }),
            ),
            None => pr,
        }
    }
}

/// The namespace blocks (and gathered notes) for the first `j` sorted
/// files of one side.
pub open spec fn render_class_namespaces(
    classes: Seq<ClassV>,
    filelist: Seq<Seq<char>>,
    j: int,
) -> (Seq<char>, Seq<char>)
    decreases j,
{
    if j <= 0 {
        (Seq::<char>::empty(), Seq::<char>::empty())
    } else {
        let pr = render_class_namespaces(classes, filelist, j - 1);
        let file = filelist[j - 1];
        let names = file_class_names(classes, classes.len() as int, file, Seq::empty());
        let bn = render_names_fold(classes, names, names.len() as int);
        (pr.0 + spec_ns_header(file) + bn.0 + "    }\n"@, pr.1 + bn.1)
    }
}

/// The lines of the first `j` function records of one file.
pub open spec fn spec_func_lines(funcs: Seq<FunctionInfoV>, j: int) -> Seq<char>
    decreases j,
{
    if j <= 0 {
        Seq::empty()
    } else {
        spec_func_lines(funcs, j - 1) + (match funcs[j - 1].doc {
            Some(d) => "            "@ + funcs[j - 1].name + "() "@ + d + "\n"@,
            None => "            "@ + funcs[j - 1].name + "()\n"@,
        })
    }
}

/// The sorted list of file identities among the first `j` function groups.
pub open spec fn map_files_sorted(
    fs: Seq<FileFunctionsV>,
    j: int,
    acc: Seq<Seq<char>>,
) -> Seq<Seq<char>>
    decreases j,
{
    if j <= 0 {
        acc
    } else {
        sorted_insert_unique(map_files_sorted(fs, j - 1, acc), fs[j - 1].file)
    }
}

/// The namespace block listing the functions of one file.
pub open spec fn render_func_ns(fs: Seq<FileFunctionsV>, file: Seq<char>) -> Seq<char> {
    match spec_find_file(fs, file) {
        Some(fi) => spec_ns_header(file) + "        class `"@ + file + "_functions` {\n"@
            + spec_func_lines(fs[fi].functions, fs[fi].functions.len() as int) + "        }\n"@
            + "    }\n"@,
        None => Seq::<char>::empty(),
    }
}

/// The function namespaces for the first `j` sorted files.
pub open spec fn render_func_namespaces(
    fs: Seq<FileFunctionsV>,
    filelist: Seq<Seq<char>>,
    j: int,
) -> Seq<char>
    decreases j,
{
    if j <= 0 {
        Seq::empty()
    } else {
        render_func_namespaces(fs, filelist, j - 1) + render_func_ns(fs, filelist[j - 1])
    }
}

/// The first `j` items of a string list, concatenated.
pub open spec fn concat_all(items: Seq<Seq<char>>, j: int) -> Seq<char>
    decreases j,
{
    if j <= 0 {
        Seq::empty()
    } else {
        concat_all(items, j - 1) + items[j - 1]
    }
}

/// One whole rendered document: header, class namespaces, function
/// namespaces, sorted edges, then notes.
pub open spec fn spec_render_document(
    title: Seq<char>,
    layout: Seq<char>,
    theme: Seq<char>,
    elk: Seq<char>,
    m: ParsedProjectV,
    side: bool,
) -> Seq<char> {
    let files = side_files(m.classes, m.classes.len() as int, side, Seq::empty());
    let nspr = render_class_namespaces(m.classes, files, files.len() as int);
    let fmap = if side {
        m.file_functions_tests
    } else {
        m.file_functions_main
    };
    let ffiles = map_files_sorted(fmap, fmap.len() as int, Seq::empty());
    let fns_body = render_func_namespaces(fmap, ffiles, ffiles.len() as int);
    let edges = side_edges(m.classes, m.classes.len() as int, side, Seq::empty());
    spec_header(title, layout, theme, elk) + "classDiagram\n    direction TB\n"@ + nspr.0
        + fns_body + concat_all(edges, edges.len() as int) + nspr.1
}

/// The two documents rendered from a corpus under a configuration.
pub open spec fn spec_generate(cfg: DiagramConfigV, files: Seq<SourceFileV>) -> (
    Seq<char>,
    Seq<char>,
) {
    let m = spec_parse_project(files);
    (
        spec_render_document(
            cfg.main_title,
            cfg.layout,
            cfg.theme,
            cfg.elk_node_placement,
            m,
            false,
        ),
        spec_render_document(
            cfg.tests_title,
            cfg.layout,
            cfg.theme,
            cfg.elk_node_placement,
            m,
            true,
        ),
    )
}


impl Class {
    /// Render this entity as a class block, and its note when it carries a
    /// summary.
    pub fn render(&self) -> (r: (String, Option<String>))
        ensures
            r.0@ == spec_render_class(self@),
            opt_view(r.1) == spec_render_note(self@),
    {
        let mut s = String::new();
        s.append("        class `");
        s.append(self.name.as_str());
        s.append("` {\n");
        match &self.stereotype {
            Some(st) => {
                s.append("            <<");
                s.append(st.as_str());
                s.append(">>\n");
            },
            None => {},
        }
        s.append("            <<");
        s.append(self.file.as_str());
        s.append(">>\n");
        let ghost mid = s@;
        let nf = self.fields.len();
        let mut j: usize = 0;
        while j < nf
            invariant
                j <= nf,
                nf == self.fields@.len(),
                s@ == mid + spec_field_lines(self@.fields, j as int),
            decreases nf - j,
        {
            s.append("            ");
            s.append(self.fields[j].as_str());
            s.append("\n");
            proof {
                assert(self@.fields[j as int] == self.fields@[j as int]@);
                assert(s@ =~= mid + spec_field_lines(self@.fields, j + 1));
            }
            j += 1;
        }
        let ghost mid2 = s@;
        let nm = self.methods.len();
        let mut j2: usize = 0;
        while j2 < nm
            invariant
                j2 <= nm,
                nm == self.methods@.len(),
                mid2 == mid + spec_field_lines(self@.fields, self@.fields.len() as int),
                s@ == mid2 + spec_method_lines(self@.methods, j2 as int),
            decreases nm - j2,
        {
            s.append("            ");
            s.append(self.methods[j2].as_str());
            s.append("()\n");
            proof {
                assert(self@.methods[j2 as int] == self.methods@[j2 as int]@);
                assert(s@ =~= mid2 + spec_method_lines(self@.methods, j2 + 1));
            }
            j2 += 1;
        }
        s.append("        }\n");
        let note: Option<String> = match &self.doc {
            Some(d) => {
                let mut t = String::new();
                t.append("note for `");
                t.append(self.name.as_str());
                t.append("` \"");
                t.append(d.as_str());
                t.append("\"\n");
                Some(t)
            },
            None => None,
        };
        proof {
            assert(s@ =~= spec_render_class(self@));
            if note is Some {
                assert(opt_view(note).unwrap() =~= spec_render_note(self@).unwrap());
            }
        }
        (s, note)
    }
}

/// One rendered edge line.
fn edge_string(r: &Relationship) -> (s: String)
    ensures
        s@ == spec_render_edge(r@),
{
    let mut e = String::from_str("    ");
    e.append(r.source.as_str());
    e.append(" ");
    e.append(r.edge_type.as_str());
    e.append(" ");
    e.append(r.target.as_str());
    match &r.label {
        Some(l) => {
            e.append(" : ");
            e.append(l.as_str());
        },
        None => {},
    }
    e.append("\n");
    proof {
        assert(e@ =~= spec_render_edge(r@));
    }
    e
}

/// The sorted, de-duplicated edge lines of the classes on one side.
fn side_edge_list(classes: &Vec<Class>, side: bool) -> (r: Vec<String>)
    ensures
        views_of(r@) == side_edges(
            classes@.map_values(|c: Class| c@),
            classes@.len() as int,
            side,
            Seq::empty(),
        ),
{
    let ghost cv = classes@.map_values(|c: Class| c@);
    let mut out: Vec<String> = Vec::new();
    proof {
        assert(views_of(out@) =~= Seq::<Seq<char>>::empty());
    }
    let n = classes.len();
    let mut i: usize = 0;
    while i < n
        invariant
            i <= n,
            n == classes@.len(),
            cv == classes@.map_values(|c: Class| c@),
            views_of(out@) == side_edges(cv, i as int, side, Seq::empty()),
        decreases n - i,
    {
        proof {
            assert(cv[i as int] == classes@[i as int]@);
        }
        if is_test_file(classes[i].file.as_str()) == side {
            let ghost a0 = views_of(out@);
            let c = &classes[i];
            let nr = c.relationships.len();
            let mut j: usize = 0;
            while j < nr
                invariant
                    j <= nr,
                    nr == c.relationships@.len(),
                    c == &classes[i as int],
                    i < classes@.len(),
                    cv == classes@.map_values(|cc: Class| cc@),
                    cv[i as int] == c@,
                    views_of(out@) == rel_edges_fold(c@.relationships, j as int, a0),
                decreases nr - j,
            {
                let e = edge_string(&c.relationships[j]);
                insert_sorted_unique(&mut out, e.as_str());
                proof {
                    assert(c@.relationships[j as int] == c.relationships@[j as int]@);
                }
                j += 1;
            }
            let ghost a1 = views_of(out@);
            let nt = c.trait_impls.len();
            let mut j2: usize = 0;
            while j2 < nt
                invariant
                    j2 <= nt,
                    nt == c.trait_impls@.len(),
                    c == &classes[i as int],
                    i < classes@.len(),
                    cv == classes@.map_values(|cc: Class| cc@),
                    cv[i as int] == c@,
                    a1 == rel_edges_fold(c@.relationships, c@.relationships.len() as int, a0),
                    views_of(out@) == trait_edges_fold(c@.trait_impls, j2 as int, c@.name, a1),
                decreases nt - j2,
            {
                let mut e = String::from_str("    ");
                e.append(c.trait_impls[j2].as_str());
                e.append(" <|.. ");
                e.append(c.name.as_str());
                e.append("\n");
                proof {
                    assert(c@.trait_impls[j2 as int] == c.trait_impls@[j2 as int]@);
                    assert(e@ =~= spec_render_trait_edge(c@.trait_impls[j2 as int], c@.name));
                }
                insert_sorted_unique(&mut out, e.as_str());
                j2 += 1;
            }
            proof {
                assert(views_of(out@) == class_edges(cv[i as int], a0));
            }
        }
        proof {
            assert(views_of(out@) == side_edges(cv, i + 1, side, Seq::empty()));
        }
        i += 1;
    }
    out
}

/// The sorted list of file identities of the classes on one side.
fn side_file_list(classes: &Vec<Class>, side: bool) -> (r: Vec<String>)
    ensures
        views_of(r@) == side_files(
            classes@.map_values(|c: Class| c@),
            classes@.len() as int,
            side,
            Seq::empty(),
        ),
{
    let ghost cv = classes@.map_values(|c: Class| c@);
    let mut out: Vec<String> = Vec::new();
    proof {
        assert(views_of(out@) =~= Seq::<Seq<char>>::empty());
    }
    let n = classes.len();
    let mut i: usize = 0;
    while i < n
        invariant
            i <= n,
            n == classes@.len(),
            cv == classes@.map_values(|c: Class| c@),
            views_of(out@) == side_files(cv, i as int, side, Seq::empty()),
        decreases n - i,
    {
        proof {
            assert(cv[i as int] == classes@[i as int]@);
        }
        if is_test_file(classes[i].file.as_str()) == side {
            insert_sorted_unique(&mut out, classes[i].file.as_str());
        }
        i += 1;
    }
    out
}

/// The sorted list of entity names declared in `file`.
fn file_class_name_list(classes: &Vec<Class>, file: &str) -> (r: Vec<String>)
    ensures
        views_of(r@) == file_class_names(
            classes@.map_values(|c: Class| c@),
            classes@.len() as int,
            file@,
            Seq::empty(),
        ),
{
    let ghost cv = classes@.map_values(|c: Class| c@);
    let mut out: Vec<String> = Vec::new();
    proof {
        assert(views_of(out@) =~= Seq::<Seq<char>>::empty());
    }
    let n = classes.len();
    let mut i: usize = 0;
    while i < n
        invariant
            i <= n,
            n == classes@.len(),
            cv == classes@.map_values(|c: Class| c@),
            views_of(out@) == file_class_names(cv, i as int, file@, Seq::empty()),
        decreases n - i,
    {
        proof {
            assert(cv[i as int] == classes@[i as int]@);
        }
        if crate::strutil::str_eq(classes[i].file.as_str(), file) {
            insert_sorted_unique(&mut out, classes[i].name.as_str());
        }
        i += 1;
    }
    out
}

/// The class namespace blocks for one side's sorted file list, and the
/// notes gathered along the way.
fn render_classes_part(classes: &Vec<Class>, filelist: &Vec<String>) -> (r: (String, String))
    ensures
        (r.0@, r.1@) == render_class_namespaces(
            classes@.map_values(|c: Class| c@),
            views_of(filelist@),
            filelist@.len() as int,
        ),
{
    let ghost cv = classes@.map_values(|c: Class| c@);
    let ghost flv = views_of(filelist@);
    let mut body = String::new();
    let mut notes = String::new();
    let n = filelist.len();
    let mut fi: usize = 0;
    while fi < n
        invariant
            fi <= n,
            n == filelist@.len(),
            cv == classes@.map_values(|c: Class| c@),
            flv == views_of(filelist@),
            (body@, notes@) == render_class_namespaces(cv, flv, fi as int),
        decreases n - fi,
    {
        let ghost pr = render_class_namespaces(cv, flv, fi as int);
        proof {
            assert(flv[fi as int] == filelist@[fi as int]@);
        }
        let file = &filelist[fi];
        body.append("    namespace `");
        body.append(file.as_str());
        body.append(".rs` {\n");
        let names = file_class_name_list(classes, file.as_str());
        let ghost namesv = views_of(names@);
        let ghost bstart = body@;
        let ghost nstart = notes@;
        let nn = names.len();
        let mut x: usize = 0;
        while x < nn
            invariant
                x <= nn,
                nn == names@.len(),
                cv == classes@.map_values(|c: Class| c@),
                namesv == views_of(names@),
                body@ == bstart + render_names_fold(cv, namesv, x as int).0,
                notes@ == nstart + render_names_fold(cv, namesv, x as int).1,
            decreases nn - x,
        {
            proof {
                assert(namesv[x as int] == names@[x as int]@);
            }
            match find_class(classes, names[x].as_str()) {
                Some(ci) => {
                    proof {
                        assert(cv[ci as int] == classes@[ci as int]@);
                    }
                    let rendered = classes[ci].render();
                    body.append(rendered.0.as_str());
                    match rendered.1 {
                        Some(nt) => {
                            notes.append(nt.as_str());
                        },
                        None => {},
                    }
                },
                None => {},
            }
            proof {
                assert(body@ =~= bstart + render_names_fold(cv, namesv, x + 1).0);
                assert(notes@ =~= nstart + render_names_fold(cv, namesv, x + 1).1);
            }
            x += 1;
        }
        body.append("    }\n");
        proof {
            assert(body@ =~= pr.0 + spec_ns_header(flv[fi as int]) + render_names_fold(
                cv,
                namesv,
                namesv.len() as int,
            ).0 + "    }\n"@);
            assert(body@ == render_class_namespaces(cv, flv, fi + 1).0);
            assert(notes@ =~= pr.1 + render_names_fold(cv, namesv, namesv.len() as int).1);
            assert(notes@ == render_class_namespaces(cv, flv, fi + 1).1);
        }
        fi += 1;
    }
    (body, notes)
}

/// The sorted list of file identities holding function records.
fn func_file_list(fs: &Vec<FileFunctions>) -> (r: Vec<String>)
    ensures
        views_of(r@) == map_files_sorted(
            fs@.map_values(|f: FileFunctions| f@),
            fs@.len() as int,
            Seq::empty(),
        ),
{
    let ghost fv = fs@.map_values(|f: FileFunctions| f@);
    let mut out: Vec<String> = Vec::new();
    proof {
        assert(views_of(out@) =~= Seq::<Seq<char>>::empty());
    }
    let n = fs.len();
    let mut i: usize = 0;
    while i < n
        invariant
            i <= n,
            n == fs@.len(),
            fv == fs@.map_values(|f: FileFunctions| f@),
            views_of(out@) == map_files_sorted(fv, i as int, Seq::empty()),
        decreases n - i,
    {
        proof {
            assert(fv[i as int] == fs@[i as int]@);
        }
        insert_sorted_unique(&mut out, fs[i].file.as_str());
        i += 1;
    }
    out
}

/// The function namespace blocks for a sorted file list.
fn render_funcs_part(fs: &Vec<FileFunctions>, filelist: &Vec<String>) -> (r: String)
    ensures
        r@ == render_func_namespaces(
            fs@.map_values(|f: FileFunctions| f@),
            views_of(filelist@),
            filelist@.len() as int,
        ),
{
    let ghost fv = fs@.map_values(|f: FileFunctions| f@);
    let ghost flv = views_of(filelist@);
    let mut out = String::new();
    let n = filelist.len();
    let mut fi: usize = 0;
    while fi < n
        invariant
            fi <= n,
            n == filelist@.len(),
            fv == fs@.map_values(|f: FileFunctions| f@),
            flv == views_of(filelist@),
            out@ == render_func_namespaces(fv, flv, fi as int),
        decreases n - fi,
    {
        let ghost pre = out@;
        proof {
            assert(flv[fi as int] == filelist@[fi as int]@);
        }
        let file = &filelist[fi];
        match find_file(fs, file.as_str()) {
            Some(gi) => {
                proof {
                    assert(fv[gi as int] == fs@[gi as int]@);
                }
                out.append("    namespace `");
                out.append(file.as_str());
                out.append(".rs` {\n");
                out.append("        class `");
                out.append(file.as_str());
                out.append("_functions` {\n");
                let ghost fstart = out@;
                let group = &fs[gi];
                let nfn = group.functions.len();
                let mut x: usize = 0;
                while x < nfn
                    invariant
                        x <= nfn,
                        nfn == group.functions@.len(),
                        group == &fs[gi as int],
                        gi < fs@.len(),
                        fv == fs@.map_values(|f: FileFunctions| f@),
                        fv[gi as int] == group@,
                        out@ == fstart + spec_func_lines(group@.functions, x as int),
                    decreases nfn - x,
                {
                    proof {
                        assert(group@.functions[x as int] == group.functions@[x as int]@);
                    }
                    let func = &group.functions[x];
                    out.append("            ");
                    out.append(func.name.as_str());
                    match &func.doc {
                        Some(d) => {
                            out.append("() ");
                            out.append(d.as_str());
                            out.append("\n");
                        },
                        None => {
                            out.append("()\n");
                        },
                    }
                    proof {
                        assert(out@ =~= fstart + spec_func_lines(group@.functions, x + 1));
                    }
                    x += 1;
                }
                out.append("        }\n");
                out.append("    }\n");
                proof {
                    assert(out@ =~= pre + render_func_ns(fv, flv[fi as int]));
                    assert(out@ == render_func_namespaces(fv, flv, fi + 1));
                }
            },
            None => {
                proof {
                    assert(out@ =~= pre + render_func_ns(fv, flv[fi as int]));
                    assert(out@ == render_func_namespaces(fv, flv, fi + 1));
                }
            },
        }
        fi += 1;
    }
    out
}

/// Render one whole document for one side of the model.
fn render_document_exec(
    title: &str,
    layout: &str,
    theme: &str,
    elk: &str,
    project: &ParsedProject,
    side: bool,
) -> (r: String)
    ensures
        r@ == spec_render_document(title@, layout@, theme@, elk@, project@, side),
{
    let mut out = String::from_str("---\nconfig:\n  title: ");
    out.append(title);
    out.append("\n  layout: ");
    out.append(layout);
    out.append("\n  theme: ");
    out.append(theme);
    out.append("\n  elk:\n    mergeEdges: true\n    nodePlacementStrategy: ");
    out.append(elk);
    out.append("\n---\n");
    proof {
        assert(out@ =~= spec_header(title@, layout@, theme@, elk@));
    }
    out.append("classDiagram\n    direction TB\n");
    let files = side_file_list(&project.classes, side);
    let parts = render_classes_part(&project.classes, &files);
    out.append(parts.0.as_str());
    let fmap = if side {
        &project.file_functions_tests
    } else {
        &project.file_functions_main
    };
    let ffiles = func_file_list(fmap);
    let fbody = render_funcs_part(fmap, &ffiles);
    out.append(fbody.as_str());
    let edges = side_edge_list(&project.classes, side);
    let ghost epre = out@;
    let ghost ev = views_of(edges@);
    let ne = edges.len();
    let mut e: usize = 0;
    while e < ne
        invariant
            e <= ne,
            ne == edges@.len(),
            ev == views_of(edges@),
            out@ == epre + concat_all(ev, e as int),
        decreases ne - e,
    {
        proof {
            assert(ev[e as int] == edges@[e as int]@);
        }
        out.append(edges[e].as_str());
        proof {
            assert(out@ =~= epre + concat_all(ev, e + 1));
        }
        e += 1;
    }
    out.append(parts.1.as_str());
    proof {
        assert(out@ =~= spec_render_document(title@, layout@, theme@, elk@, project@, side));
    }
    out
}

/// Parse the corpus and render both documents under the given
/// configuration. A file that does not parse is fatal: the first such file
/// is reported and nothing is rendered.
pub fn generate_diagrams_with_config(config: &DiagramConfig, files: &Vec<SourceFile>) -> (r:
    Result<Diagrams, ParseError>)
    ensures
        match r {
            Ok(d) => {
                let fv = files@.map_values(|f: SourceFile| f@);
                first_bad_file(fv, 0) == files@.len() && d.main@ == spec_generate(config@, fv).0
                    && d.tests@ == spec_generate(config@, fv).1
            },
            Err(e) => {
                let fv = files@.map_values(|f: SourceFile| f@);
                let b = first_bad_file(fv, 0);
                b < fv.len() && e@ == fv[b].path
            },
        },
{
    let project = match parse_project(files) {
        Ok(p) => p,
        Err(e) => {
            return Err(e);
        },
    };
    let main = render_document_exec(
        config.main_title.as_str(),
        config.layout.as_str(),
        config.theme.as_str(),
        config.elk_node_placement.as_str(),
        &project,
        false,
    );
    let tests = render_document_exec(
        config.tests_title.as_str(),
        config.layout.as_str(),
        config.theme.as_str(),
        config.elk_node_placement.as_str(),
        &project,
        true,
    );
    Ok(Diagrams { main, tests })
}

/// Parse the corpus and render both documents under the default
/// configuration.
pub fn generate_diagrams(files: &Vec<SourceFile>) -> (r: Result<Diagrams, ParseError>)
    ensures
        match r {
            Ok(d) => {
                let fv = files@.map_values(|f: SourceFile| f@);
                first_bad_file(fv, 0) == files@.len() && d.main@ == spec_generate(
                    spec_default_config(),
                    fv,
                ).0 && d.tests@ == spec_generate(spec_default_config(), fv).1
            },
            Err(e) => {
                let fv = files@.map_values(|f: SourceFile| f@);
                let b = first_bad_file(fv, 0);
                b < fv.len() && e@ == fv[b].path
            },
        },
{
    let cfg = DiagramConfig::default();
    generate_diagrams_with_config(&cfg, files)
}

} // verus!
