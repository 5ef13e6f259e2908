//! The extracted structural model: entities (structs and enums), free
//! functions grouped per file, and directed relationship edges.

use vstd::prelude::*;

use crate::strutil::views_of;
use crate::syntax::opt_view;

verus! {

/// A directed, kind-tagged, optionally labeled edge between two entities.
pub struct Relationship {
    pub source: String,
    pub target: String,
    pub edge_type: String,
    pub label: Option<String>,
}

#[verifier::ext_equal]
pub struct RelationshipV {
    pub source: Seq<char>,
    pub target: Seq<char>,
    pub edge_type: Seq<char>,
    pub label: Option<Seq<char>>,
}

impl View for Relationship {
    type V = RelationshipV;

    open spec fn view(&self) -> RelationshipV {
        RelationshipV {
            source: self.source@,
            target: self.target@,
            edge_type: self.edge_type@,
            label: opt_view(self.label),
        }
    }
}

/// The record kept for one struct or enum declaration.
pub struct Class {
    pub name: String,
    pub file: String,
    pub stereotype: Option<String>,
    /// First doc-comment line for this type, if present.
    pub doc: Option<String>,
    pub fields: Vec<String>,
    pub methods: Vec<String>,
    pub relationships: Vec<Relationship>,
    pub trait_impls: Vec<String>,
}

#[verifier::ext_equal]
pub struct ClassV {
    pub name: Seq<char>,
    pub file: Seq<char>,
    pub stereotype: Option<Seq<char>>,
    pub doc: Option<Seq<char>>,
    pub fields: Seq<Seq<char>>,
    pub methods: Seq<Seq<char>>,
    pub relationships: Seq<RelationshipV>,
    pub trait_impls: Seq<Seq<char>>,
}

impl View for Class {
    type V = ClassV;

    open spec fn view(&self) -> ClassV {
        ClassV {
            name: self.name@,
            file: self.file@,
            stereotype: opt_view(self.stereotype),
            doc: opt_view(self.doc),
            fields: views_of(self.fields@),
            methods: views_of(self.methods@),
            relationships: self.relationships@.map_values(|r: Relationship| r@),
            trait_impls: views_of(self.trait_impls@),
        }
    }
}

/// The record kept for one free function declaration.
pub struct FunctionInfo {
    pub name: String,
    /// First doc-comment line for this function, if present.
    pub doc: Option<String>,
    /// Parameter list as rendered strings ("x: i32", "y: String", ...).
    pub params: Vec<String>,
    /// Return type as a rendered string ("usize", "Result<T>", ...).
    pub ret: Option<String>,
}

#[verifier::ext_equal]
pub struct FunctionInfoV {
    pub name: Seq<char>,
    pub doc: Option<Seq<char>>,
    pub params: Seq<Seq<char>>,
    pub ret: Option<Seq<char>>,
}

impl View for FunctionInfo {
    type V = FunctionInfoV;

    open spec fn view(&self) -> FunctionInfoV {
        FunctionInfoV {
            name: self.name@,
            doc: opt_view(self.doc),
            params: views_of(self.params@),
            ret: opt_view(self.ret),
        }
    }
}

/// The free functions found in one file, in source order.
pub struct FileFunctions {
    pub file: String,
    pub functions: Vec<FunctionInfo>,
}

#[verifier::ext_equal]
pub struct FileFunctionsV {
    pub file: Seq<char>,
    pub functions: Seq<FunctionInfoV>,
}

impl View for FileFunctions {
    type V = FileFunctionsV;

    open spec fn view(&self) -> FileFunctionsV {
        FileFunctionsV {
            file: self.file@,
            functions: self.functions@.map_values(|f: FunctionInfo| f@),
        }
    }
}

/// The whole extracted model. Entities are keyed by name (first creation
/// wins); functions are grouped per file, split into a test and a non-test
/// group.
pub struct ParsedProject {
    pub classes: Vec<Class>,
    pub file_functions_main: Vec<FileFunctions>,
    pub file_functions_tests: Vec<FileFunctions>,
}

#[verifier::ext_equal]
pub struct ParsedProjectV {
    pub classes: Seq<ClassV>,
    pub file_functions_main: Seq<FileFunctionsV>,
    pub file_functions_tests: Seq<FileFunctionsV>,
}

impl View for ParsedProject {
    type V = ParsedProjectV;

    open spec fn view(&self) -> ParsedProjectV {
        ParsedProjectV {
            classes: self.classes@.map_values(|c: Class| c@),
            file_functions_main: self.file_functions_main@.map_values(|f: FileFunctions| f@),
            file_functions_tests: self.file_functions_tests@.map_values(|f: FileFunctions| f@),
        }
    }
}

/// The edge is already recorded.
pub open spec fn rel_contains(rels: Seq<RelationshipV>, r: RelationshipV) -> bool {
    exists|j: int| 0 <= j < rels.len() && rels[j] == r
}

/// Record an edge unless an identical one is present (set semantics).
pub open spec fn rel_insert(rels: Seq<RelationshipV>, r: RelationshipV) -> Seq<RelationshipV> {
    if rel_contains(rels, r) {
        rels
    } else {
        rels.push(r)
    }
}

/// Index of the first entity named `name`, if any.
pub open spec fn find_class_from(cs: Seq<ClassV>, k: int, name: Seq<char>) -> Option<int>
    decreases cs.len() - k,
    when 0 <= k
{
    if k >= cs.len() {
        None
    } else if cs[k].name == name {
        Some(k)
    } else {
        find_class_from(cs, k + 1, name)
    }
}

pub open spec fn spec_find_class(cs: Seq<ClassV>, name: Seq<char>) -> Option<int> {
    find_class_from(cs, 0, name)
}

/// Index of the group for `file`, if any.
pub open spec fn find_file_from(fs: Seq<FileFunctionsV>, k: int, file: Seq<char>) -> Option<int>
    decreases fs.len() - k,
    when 0 <= k
{
    if k >= fs.len() {
        None
    } else if fs[k].file == file {
        Some(k)
    } else {
        find_file_from(fs, k + 1, file)
    }
}

pub open spec fn spec_find_file(fs: Seq<FileFunctionsV>, file: Seq<char>) -> Option<int> {
    find_file_from(fs, 0, file)
}

/// Append a function record to its file's group, creating the group at the
/// end on first sight of the file.
pub open spec fn spec_add_function(
    fs: Seq<FileFunctionsV>,
    file: Seq<char>,
    f: FunctionInfoV,
) -> Seq<FileFunctionsV> {
    match spec_find_file(fs, file) {
        Some(i) => fs.update(
            i,
            FileFunctionsV { file: fs[i].file, functions: fs[i].functions.push(f) },
        ),
        None => fs.push(FileFunctionsV { file: file, functions: seq![f] }),
    }
}

/// Structural equality of two edges.
pub fn rel_eq(a: &Relationship, b: &Relationship) -> (r: bool)
    ensures
        r == (a@ == b@),
{
    let se = crate::strutil::str_eq(a.source.as_str(), b.source.as_str());
    let te = crate::strutil::str_eq(a.target.as_str(), b.target.as_str());
    let ee = crate::strutil::str_eq(a.edge_type.as_str(), b.edge_type.as_str());
    let le = match (&a.label, &b.label) {
        (Some(x), Some(y)) => crate::strutil::str_eq(x.as_str(), y.as_str()),
        (None, None) => true,
        _ => false,
    };
    if se && te && ee && le {
        proof {
            assert(a@ =~= b@);
        }
        true
    } else {
        false
    }
}

/// Record `r` on the edge list unless an identical edge is present.
pub fn push_rel(rels: &mut Vec<Relationship>, r: Relationship)
    ensures
        final(rels)@.map_values(|x: Relationship| x@) == rel_insert(
            old(rels)@.map_values(|x: Relationship| x@),
            r@,
        ),
{
    let ghost orig = rels@.map_values(|x: Relationship| x@);
    let n = rels.len();
    let mut i: usize = 0;
    while i < n
        invariant
            i <= n,
            n == rels@.len(),
            rels@.map_values(|x: Relationship| x@) == orig,
            orig == old(rels)@.map_values(|x: Relationship| x@),
            forall|j: int| 0 <= j < i ==> orig[j] != r@,
        decreases n - i,
    {
        if rel_eq(&rels[i], &r) {
            proof {
                assert(orig[i as int] == rels@[i as int]@);
                assert(rel_contains(orig, r@));
            }
            return ;
        }
        i += 1;
    }
    proof {
        assert(!rel_contains(orig, r@));
    }
    rels.push(r);
    proof {
        assert(rels@.map_values(|x: Relationship| x@) =~= orig.push(r@));
    }
}

/// Index of the first entity named `name` in the class list, if any.
pub fn find_class(cs: &Vec<Class>, name: &str) -> (r: Option<usize>)
    ensures
        match r {
            Some(i) => spec_find_class(cs@.map_values(|c: Class| c@), name@) == Some(i as int) && i
                < cs@.len(),
            None => spec_find_class(cs@.map_values(|c: Class| c@), name@) is None,
        },
{
    let ghost cv = cs@.map_values(|c: Class| c@);
    let n = cs.len();
    let mut i: usize = 0;
    while i < n
        invariant
            i <= n,
            n == cs@.len(),
            cv == cs@.map_values(|c: Class| c@),
            find_class_from(cv, 0, name@) == find_class_from(cv, i as int, name@),
        decreases n - i,
    {
        if crate::strutil::str_eq(cs[i].name.as_str(), name) {
            return Some(i);
        }
        i += 1;
    }
    None
}

/// Index of the group for `file` in a function map, if any.
pub fn find_file(fs: &Vec<FileFunctions>, file: &str) -> (r: Option<usize>)
    ensures
        match r {
            Some(i) => spec_find_file(fs@.map_values(|f: FileFunctions| f@), file@) == Some(
                i as int,
            ) && i < fs@.len(),
            None => spec_find_file(fs@.map_values(|f: FileFunctions| f@), file@) is None,
        },
{
    let ghost fv = fs@.map_values(|f: FileFunctions| f@);
    let n = fs.len();
    let mut i: usize = 0;
    while i < n
        invariant
            i <= n,
            n == fs@.len(),
            fv == fs@.map_values(|f: FileFunctions| f@),
            find_file_from(fv, 0, file@) == find_file_from(fv, i as int, file@),
        decreases n - i,
    {
        if crate::strutil::str_eq(fs[i].file.as_str(), file) {
            return Some(i);
        }
        i += 1;
    }
    None
}

/// Append a function record to its file's group.
pub fn add_function(fs: &mut Vec<FileFunctions>, file: &str, f: FunctionInfo)
    ensures
        final(fs)@.map_values(|x: FileFunctions| x@) == spec_add_function(
            old(fs)@.map_values(|x: FileFunctions| x@),
            file@,
            f@,
        ),
{
    let ghost orig = fs@.map_values(|x: FileFunctions| x@);
    match find_file(fs, file) {
        Some(i) => {
            let entry = &mut fs[i];
            entry.functions.push(f);
            proof {
                let target = FileFunctionsV {
                    file: orig[i as int].file,
                    functions: orig[i as int].functions.push(f@),
                };
                assert(orig[i as int] == old(fs)@[i as int]@);
                assert(fs@[i as int]@.functions =~= target.functions);
                assert(fs@[i as int]@ =~= target);
                assert(fs@.map_values(|x: FileFunctions| x@) =~= orig.update(i as int, target));
            }
        },
        None => {
            let mut funcs: Vec<FunctionInfo> = Vec::new();
            funcs.push(f);
            fs.push(FileFunctions { file: String::from_str(file), functions: funcs });
            proof {
                let target = FileFunctionsV { file: file@, functions: seq![f@] };
                let n = orig.len() as int;
                assert(fs@[n]@.functions =~= target.functions);
                assert(fs@[n]@ =~= target);
                assert(fs@.map_values(|x: FileFunctions| x@) =~= orig.push(target));
            }
        },
    }
}

} // verus!
