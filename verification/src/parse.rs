//! Parsing source files into syntax trees and running both extraction
//! passes over a whole corpus.
//!
//! The syntax trees themselves come from the tree-sitter parser with the
//! Rust grammar; everything after the parse is verified.

use vstd::prelude::*;

use crate::extract::{
    collect_type_names, extract_items, ext_node, names_set, spec_universe,
};
use crate::model::ParsedProjectV;
pub use crate::model::{Class, FunctionInfo, ParsedProject, Relationship};
use crate::strutil::{ends_with, str_ends_with};
use crate::syntax::{check_wf, SynNode, SynNodeV, SyntaxTree, tree_wf};

verus! {

/// One input file: its corpus-relative path and its full text.
pub struct SourceFile {
    pub path: String,
    pub content: String,
}

#[verifier::ext_equal]
pub struct SourceFileV {
    pub path: Seq<char>,
    pub content: Seq<char>,
}

impl View for SourceFile {
    type V = SourceFileV;

    open spec fn view(&self) -> SourceFileV {
        SourceFileV { path: self.path@, content: self.content@ }
    }
}

/// A fatal failure: the named file could not be parsed into a tree.
#[derive(Debug)]
pub struct ParseError {
    pub path: String,
}

impl View for ParseError {
    type V = Seq<char>;

    open spec fn view(&self) -> Seq<char> {
        self.path@
    }
}

/// The arena encoding of the tree that the parser produces for `text`; the
/// parse is a function of the text alone.
pub uninterp spec fn parsed_tree(text: Seq<char>) -> Option<Seq<SynNodeV>>;

/// One node of the parse tree that tree_sitter hands back.
#[verifier::external_type_specification]
#[verifier::external_body]
pub struct ExNode<'tree>(tree_sitter::Node<'tree>);

/// Relies on tree_sitter's node accessors (`kind`, `utf8_text`,
/// `field_name_for_child`, `child`) to copy one parse-tree node and its
/// descendants into the arena, in preorder.
#[verifier::external_body]
fn flatten_node(
    node: tree_sitter::Node<'_>,
    field: Option<String>,
    content: &str,
    out: &mut Vec<SynNode>,
) -> usize {
    let idx = out.len();
    let kind = node.kind().to_string();
    let text = node.utf8_text(content.as_bytes()).unwrap_or("").to_string();
    out.push(SynNode { kind, text, field, children: Vec::new() });
    let mut kids: Vec<usize> = Vec::new();
    for j in 0..node.child_count() {
        let f = node.field_name_for_child(j).map(|s| s.to_string());
        if let Some(ch) = node.child(j) {
            kids.push(flatten_node(ch, f, content, out));
        }
    }
    out[idx].children = kids;
    idx
}

/// Relies on tree_sitter's `Parser::parse` with the Rust grammar of
/// tree_sitter_rust: the returned tree depends on the text alone, and
/// `None` comes only when no tree can be produced.
#[verifier::external_body]
fn parse_to_tree(content: &str) -> (r: Option<SyntaxTree>)
    ensures
        match r {
            Some(tr) => parsed_tree(content@) == Some(tr@),
            None => parsed_tree(content@) is None,
        },
{
    let mut parser = tree_sitter::Parser::new();
    if parser.set_language(&tree_sitter_rust::LANGUAGE.into()).is_err() {
        return None;
    }
    let tree = parser.parse(content, None)?;
    let mut nodes: Vec<SynNode> = Vec::new();
    flatten_node(tree.root_node(), None, content, &mut nodes);
    Some(SyntaxTree { nodes })
}

/// The file's module identity: its path with the source extension removed.
pub open spec fn file_module_of(path: Seq<char>) -> Seq<char> {
    if ends_with(path, ".rs"@) {
        path.subrange(0, path.len() - ".rs"@.len())
    } else {
        path
    }
}

/// Module identity of a file path.
pub fn file_module_string(path: &str) -> (r: String)
    ensures
        r@ == file_module_of(path@),
{
    if str_ends_with(path, ".rs") {
        proof {
            reveal_strlit(".rs");
        }
        let len = path.unicode_len();
        let sub = path.substring_char(0, len - 3);
        String::from_str(sub)
    } else {
        String::from_str(path)
    }
}

/// The file's text parses into a usable (well-formed) tree.
pub open spec fn tree_ok(content: Seq<char>) -> bool {
    &&& parsed_tree(content) is Some
    &&& tree_wf(parsed_tree(content).unwrap())
}

/// Position of the first file whose text does not parse into a usable
/// tree; the corpus length when every file parses.
pub open spec fn first_bad_file(files: Seq<SourceFileV>, k: int) -> int
    decreases files.len() - k,
    when 0 <= k
{
    if k >= files.len() {
        k
    } else if !tree_ok(files[k].content) {
        k
    } else {
        first_bad_file(files, k + 1)
    }
}

/// The type universe of the first `n` files of the corpus.
pub open spec fn corpus_universe_upto(files: Seq<SourceFileV>, n: int) -> Set<Seq<char>>
    decreases n,
{
    if n <= 0 {
        Set::empty()
    } else {
        corpus_universe_upto(files, n - 1) + spec_universe(
            parsed_tree(files[n - 1].content).unwrap(),
            0,
        )
    }
}

/// The type universe of the whole corpus: every locally declared type name.
pub open spec fn corpus_universe(files: Seq<SourceFileV>) -> Set<Seq<char>> {
    corpus_universe_upto(files, files.len() as int)
}

/// The model holding no entities and no functions.
pub open spec fn empty_project() -> ParsedProjectV {
    ParsedProjectV {
        classes: Seq::empty(),
        file_functions_main: Seq::empty(),
        file_functions_tests: Seq::empty(),
    }
}

/// The model extracted from the first `n` files, against universe `u`.
pub open spec fn corpus_model_upto(
    files: Seq<SourceFileV>,
    n: int,
    u: Set<Seq<char>>,
) -> ParsedProjectV
    decreases n,
{
    if n <= 0 {
        empty_project()
    } else {
        ext_node(
            parsed_tree(files[n - 1].content).unwrap(),
            0,
            file_module_of(files[n - 1].path),
            u,
            corpus_model_upto(files, n - 1, u),
        )
    }
}

/// The model extracted from the whole corpus: a second pass over every
/// file, against the universe that the first pass collected over all of
/// them.
pub open spec fn spec_parse_project(files: Seq<SourceFileV>) -> ParsedProjectV {
    corpus_model_upto(files, files.len() as int, corpus_universe(files))
}

/// Every file among the first `n` parses into a usable tree.
pub open spec fn all_ok_upto(files: Seq<SourceFileV>, n: int) -> bool
    decreases n,
{
    if n <= 0 {
        true
    } else {
        all_ok_upto(files, n - 1) && tree_ok(files[n - 1].content)
    }
}

/// The arena views of the trees of the first `n` files.
pub open spec fn tree_views_upto(files: Seq<SourceFileV>, n: int) -> Seq<Seq<SynNodeV>>
    decreases n,
{
    if n <= 0 {
        Seq::empty()
    } else {
        tree_views_upto(files, n - 1).push(parsed_tree(files[n - 1].content).unwrap())
    }
}

proof fn lemma_views_upto_len(files: Seq<SourceFileV>, n: int)
    requires
        n >= 0,
    ensures
        tree_views_upto(files, n).len() == n,
    decreases n,
{
    if n > 0 {
        lemma_views_upto_len(files, n - 1);
    }
}

proof fn lemma_views_upto_index(files: Seq<SourceFileV>, n: int, j: int)
    requires
        0 <= j < n,
    ensures
        tree_views_upto(files, n).len() == n,
        tree_views_upto(files, n)[j] == parsed_tree(files[j].content).unwrap(),
    decreases n,
{
    lemma_views_upto_len(files, n);
    lemma_views_upto_len(files, n - 1);
    if j < n - 1 {
        lemma_views_upto_index(files, n - 1, j);
    }
}

proof fn lemma_all_ok_index(files: Seq<SourceFileV>, n: int, j: int)
    requires
        all_ok_upto(files, n),
        0 <= j < n,
    ensures
        tree_ok(files[j].content),
    decreases n,
{
    if j < n - 1 {
        lemma_all_ok_index(files, n - 1, j);
    }
}

/// Public API: parse every given source file and build the model.
///
/// The first pass collects the full type universe; only then does the
/// second pass extract entities and functions, so edge inference never
/// depends on file order. A file that does not parse is fatal: the first
/// such file is reported and no model is returned.
pub fn parse_project(files: &Vec<SourceFile>) -> (r: Result<ParsedProject, ParseError>)
    ensures
        match r {
            Ok(p) => first_bad_file(files@.map_values(|f: SourceFile| f@), 0)
                == files@.len() && p@ == spec_parse_project(
                files@.map_values(|f: SourceFile| f@),
            ),
            Err(e) => {
                let fv = files@.map_values(|f: SourceFile| f@);
                let b = first_bad_file(fv, 0);
                b < fv.len() && e@ == fv[b].path
            },
        },
{
    let ghost fv = files@.map_values(|f: SourceFile| f@);
    proof {
        assert(fv.len() == files@.len());
    }
    let n = files.len();
    let mut trees: Vec<SyntaxTree> = Vec::new();
    proof {
        assert(trees@.map_values(|tr: SyntaxTree| tr@) =~= tree_views_upto(fv, 0));
    }
    let mut i: usize = 0;
    while i < n
        invariant
            i <= n,
            n == files@.len(),
            fv == files@.map_values(|f: SourceFile| f@),
            fv.len() == n,
            trees@.len() == i,
            trees@.map_values(|tr: SyntaxTree| tr@) == tree_views_upto(fv, i as int),
            all_ok_upto(fv, i as int),
            first_bad_file(fv, 0) == first_bad_file(fv, i as int),
        decreases n - i,
    {
        proof {
            assert(fv[i as int] == files@[i as int]@);
        }
        match parse_to_tree(files[i].content.as_str()) {
            None => {
                return Err(ParseError { path: files[i].path.clone() });
            },
            Some(tr) => {
                if !check_wf(&tr) {
                    return Err(ParseError { path: files[i].path.clone() });
                }
                let ghost trv = tr@;
                let ghost pre = trees@;
                proof {
                    assert(tree_ok(fv[i as int].content));
                    assert(parsed_tree(fv[i as int].content).unwrap() == trv);
                }
                trees.push(tr);
                proof {
                    assert(trees@.map_values(|tr2: SyntaxTree| tr2@) =~= pre.map_values(
                        |tr2: SyntaxTree| tr2@,
                    ).push(trv));
                    assert(trees@.map_values(|tr2: SyntaxTree| tr2@) == tree_views_upto(
                        fv,
                        i + 1,
                    ));
                }
            },
        }
        proof {
            assert(first_bad_file(fv, i as int) == first_bad_file(fv, i + 1));
        }
        i += 1;
    }
    let ghost u = corpus_universe(fv);
    let ghost tviews = tree_views_upto(fv, n as int);
    let mut universe: Vec<String> = Vec::new();
    proof {
        assert(names_set(universe@) =~= corpus_universe_upto(fv, 0));
    }
    let mut i2: usize = 0;
    while i2 < n
        invariant
            i2 <= n,
            n == files@.len(),
            fv.len() == n,
            trees@.len() == n,
            all_ok_upto(fv, n as int),
            tviews == tree_views_upto(fv, n as int),
            trees@.map_values(|tr: SyntaxTree| tr@) == tviews,
            names_set(universe@) == corpus_universe_upto(fv, i2 as int),
        decreases n - i2,
    {
        proof {
            lemma_views_upto_index(fv, n as int, i2 as int);
            lemma_all_ok_index(fv, n as int, i2 as int);
            assert(trees@[i2 as int]@ == tviews[i2 as int]);
            assert(tree_wf(trees@[i2 as int]@));
        }
        collect_type_names(&trees[i2], 0, &mut universe);
        i2 += 1;
    }
    proof {
        assert(names_set(universe@) == u);
    }
    let mut project = ParsedProject {
        classes: Vec::new(),
        file_functions_main: Vec::new(),
        file_functions_tests: Vec::new(),
    };
    proof {
        assert(project@ =~= empty_project());
        assert(project@ =~= corpus_model_upto(fv, 0, u));
    }
    let mut i3: usize = 0;
    while i3 < n
        invariant
            i3 <= n,
            n == files@.len(),
            fv == files@.map_values(|f: SourceFile| f@),
            fv.len() == n,
            trees@.len() == n,
            all_ok_upto(fv, n as int),
            u == corpus_universe(fv),
            names_set(universe@) == u,
            tviews == tree_views_upto(fv, n as int),
            trees@.map_values(|tr: SyntaxTree| tr@) == tviews,
            project@ == corpus_model_upto(fv, i3 as int, u),
        decreases n - i3,
    {
        proof {
            lemma_views_upto_index(fv, n as int, i3 as int);
            lemma_all_ok_index(fv, n as int, i3 as int);
            assert(trees@[i3 as int]@ == tviews[i3 as int]);
            assert(tree_wf(trees@[i3 as int]@));
            assert(fv[i3 as int] == files@[i3 as int]@);
        }
        let fm = file_module_string(files[i3].path.as_str());
        extract_items(&trees[i3], 0, fm.as_str(), &universe, &mut project);
        i3 += 1;
    }
    proof {
        assert(first_bad_file(fv, n as int) == n as int);
    }
    Ok(project)
}

} // verus!
