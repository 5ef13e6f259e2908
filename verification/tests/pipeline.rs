use rust_to_mermaid::build_diagram::{
    generate_diagrams, generate_diagrams_with_config, is_test_file, DiagramConfig,
};
use rust_to_mermaid::model::{Class, ParsedProject};
use rust_to_mermaid::parse::{parse_project, SourceFile};

fn mk(path: &str, content: &str) -> SourceFile {
    SourceFile { path: path.to_string(), content: content.to_string() }
}

fn find<'a>(p: &'a ParsedProject, name: &str) -> &'a Class {
    p.classes
        .iter()
        .find(|c| c.name == name)
        .unwrap_or_else(|| panic!("no entity named {name}"))
}

#[test]
fn end_to_end_two_structs() {
    let files = vec![mk("m.rs", "struct A { b: B }\nstruct B { n: i32 }\n")];
    let p = parse_project(&files).expect("corpus parses");

    let a = find(&p, "A");
    assert_eq!(a.file, "m");
    assert_eq!(a.stereotype.as_deref(), Some("struct"));
    assert_eq!(a.fields, vec!["b".to_string()]);
    assert_eq!(a.relationships.len(), 1);
    let r = &a.relationships[0];
    assert_eq!(r.source, "A");
    assert_eq!(r.target, "B");
    assert_eq!(r.edge_type, "*--");
    assert_eq!(r.label.as_deref(), Some("B b"));

    let b = find(&p, "B");
    assert_eq!(b.fields, vec!["n".to_string()]);
    assert_eq!(b.relationships.len(), 0, "i32 is not a local type");

    let d = generate_diagrams(&files).expect("rendering succeeds");
    assert!(d.main.contains("class `A`"));
    assert!(d.main.contains("A *-- B : B b"));
    assert!(!d.tests.contains("class `A`"));
    assert!(d.tests.starts_with("---\nconfig:\n  title: Project Tests\n"));
}

#[test]
fn end_to_end_exact_document() {
    let files = vec![mk("m.rs", "struct A { b: B }\nstruct B { n: i32 }\n")];
    let d = generate_diagrams(&files).expect("rendering succeeds");
    let expected = "---\nconfig:\n  title: Project\n  layout: elk\n  theme: dark\n  elk:\n    mergeEdges: true\n    nodePlacementStrategy: BRANDES_KOEPF\n---\nclassDiagram\n    direction TB\n    namespace `m.rs` {\n        class `A` {\n            <<struct>>\n            <<m>>\n            b\n        }\n        class `B` {\n            <<struct>>\n            <<m>>\n            n\n        }\n    }\n    A *-- B : B b\n";
    assert_eq!(d.main, expected);
}

#[test]
fn determinism_two_runs_byte_identical() {
    let files = vec![
        mk("a.rs", "/// Alpha.\nstruct Alpha { beta: Beta, gamma: Vec<Gamma> }\nfn go() {}\n"),
        mk("b.rs", "struct Beta { x: u8 }\nenum Gamma { One { a: Alpha }, Two }\n"),
    ];
    let d1 = generate_diagrams(&files).expect("first run");
    let d2 = generate_diagrams(&files).expect("second run");
    assert_eq!(d1.main, d2.main);
    assert_eq!(d1.tests, d2.tests);
}

#[test]
fn universe_complete_before_extraction() {
    // `B` is declared in the file scanned after the one that references it:
    // the edge must appear all the same.
    let files = vec![mk("a.rs", "struct A { b: B }\n"), mk("b.rs", "struct B { n: u32 }\n")];
    let p = parse_project(&files).expect("corpus parses");
    let a = find(&p, "A");
    assert_eq!(a.relationships.len(), 1);
    assert_eq!(a.relationships[0].target, "B");
}

#[test]
fn first_wins_entity_identity() {
    // Two declarations of `X`: category, origin file and summary come from
    // the first; members of both declarations are folded into the record.
    let files = vec![
        mk("one.rs", "/// First doc.\nstruct X { a: u8 }\n"),
        mk("two.rs", "/// Second doc.\nenum X { B }\n"),
    ];
    let p = parse_project(&files).expect("corpus parses");
    let x = find(&p, "X");
    assert_eq!(x.file, "one");
    assert_eq!(x.stereotype.as_deref(), Some("struct"));
    assert_eq!(x.doc.as_deref(), Some("First doc."));
    assert_eq!(x.fields, vec!["a".to_string(), "B".to_string()]);
    assert_eq!(p.classes.iter().filter(|c| c.name == "X").count(), 1);
}

#[test]
fn edge_kind_tie_break() {
    let files = vec![mk("n.rs", "struct Node { parent: &Node, children: Vec<Node> }\n")];
    let p = parse_project(&files).expect("corpus parses");
    let n = find(&p, "Node");
    let kinds: Vec<(&str, &str)> = n
        .relationships
        .iter()
        .map(|r| (r.edge_type.as_str(), r.label.as_deref().unwrap_or("")))
        .collect();
    assert!(kinds.contains(&("o--", "Node parent")), "aggregation edge from the borrowed field");
    assert!(kinds.contains(&("*--", "Node children")), "composition edge from the owned field");
    assert_eq!(n.relationships.len(), 2);
}

#[test]
fn doc_summary_takes_nearest_line() {
    let files = vec![mk("d.rs", "/// First line.\n/// Second line.\nstruct D { x: u8 }\n")];
    let p = parse_project(&files).expect("corpus parses");
    assert_eq!(find(&p, "D").doc.as_deref(), Some("Second line."));
}

#[test]
fn doc_summary_skips_plain_comments() {
    let files = vec![mk("d.rs", "/// Doc line.\n// plain comment\nstruct D { x: u8 }\n")];
    let p = parse_project(&files).expect("corpus parses");
    assert_eq!(find(&p, "D").doc.as_deref(), Some("Doc line."));
}

#[test]
fn doc_summary_absent_without_doc_comment() {
    let files = vec![mk("d.rs", "// plain only\nstruct D { x: u8 }\n")];
    let p = parse_project(&files).expect("corpus parses");
    assert_eq!(find(&p, "D").doc, None);
}

#[test]
fn test_attribute_routes_function() {
    let files = vec![mk("f.rs", "#[test]\nfn covered() {}\n\nfn plain() {}\n")];
    let p = parse_project(&files).expect("corpus parses");
    let tests = &p.file_functions_tests;
    let main = &p.file_functions_main;
    assert_eq!(tests.len(), 1);
    assert_eq!(tests[0].file, "f");
    assert_eq!(tests[0].functions.len(), 1);
    assert_eq!(tests[0].functions[0].name, "covered");
    assert_eq!(main[0].functions.len(), 1);
    assert_eq!(main[0].functions[0].name, "plain");
}

#[test]
fn test_attribute_seen_through_comments() {
    let files = vec![mk("f.rs", "#[test]\n// a comment in between\nfn covered() {}\n")];
    let p = parse_project(&files).expect("corpus parses");
    assert_eq!(p.file_functions_tests[0].functions[0].name, "covered");
}

#[test]
fn intervening_item_breaks_test_marker() {
    // The marker stands further above, but a real declaration sits between
    // it and the function: the function is non-test.
    let files = vec![mk("f.rs", "#[test]\nfn first() {}\nfn second() {}\n")];
    let p = parse_project(&files).expect("corpus parses");
    let tests = &p.file_functions_tests[0];
    assert_eq!(tests.functions.len(), 1);
    assert_eq!(tests.functions[0].name, "first");
    let main = &p.file_functions_main[0];
    assert_eq!(main.functions.len(), 1);
    assert_eq!(main.functions[0].name, "second");
}

#[test]
fn attribute_without_marker_is_skipped() {
    // `#[cfg(test)]` does not hold the `test]` marker token, so it neither
    // classifies the function as a test nor ends the backward scan.
    let files = vec![mk("f.rs", "#[cfg(test)]\nfn helper() {}\n")];
    let p = parse_project(&files).expect("corpus parses");
    assert_eq!(p.file_functions_main[0].functions[0].name, "helper");
    assert!(p.file_functions_tests.is_empty());

    let files2 = vec![mk("g.rs", "#[test]\n#[allow(dead_code)]\nfn t() {}\n")];
    let p2 = parse_project(&files2).expect("corpus parses");
    assert_eq!(p2.file_functions_tests[0].functions[0].name, "t");
}

#[test]
fn foreign_type_gives_no_edges() {
    let files = vec![mk("m.rs", "struct F { x: Foreign<Inner, Other> }\n")];
    let p = parse_project(&files).expect("corpus parses");
    assert_eq!(find(&p, "F").relationships.len(), 0);
    assert_eq!(find(&p, "F").fields, vec!["x".to_string()]);
}

#[test]
fn enum_variant_edges_and_members() {
    let files = vec![mk(
        "e.rs",
        "struct A { n: u8 }\nenum E { One { a: A }, Two }\n",
    )];
    let p = parse_project(&files).expect("corpus parses");
    let e = find(&p, "E");
    assert_eq!(e.stereotype.as_deref(), Some("enum"));
    assert_eq!(e.fields, vec!["One".to_string(), "Two".to_string()]);
    assert_eq!(e.relationships.len(), 1);
    let r = &e.relationships[0];
    assert_eq!(r.target, "A");
    assert_eq!(r.edge_type, "*--");
    assert_eq!(r.label.as_deref(), Some("A One::a"));
}

#[test]
fn duplicate_edges_collapse() {
    let files = vec![mk("m.rs", "struct B;\nstruct A { x: (B, B) }\n")];
    let p = parse_project(&files).expect("corpus parses");
    // Both tuple positions surface `B`, but the edges are identical in
    // source, target, kind and label, so only one is recorded.
    assert_eq!(find(&p, "A").relationships.len(), 1);
}

#[test]
fn function_params_and_return_type() {
    let files = vec![mk(
        "f.rs",
        "/// Adds.\nfn add(x: i32, y: i32) -> i32 { x + y }\nfn none_at_all() {}\n",
    )];
    let p = parse_project(&files).expect("corpus parses");
    let funcs = &p.file_functions_main[0].functions;
    let add = funcs.iter().find(|f| f.name == "add").unwrap();
    assert_eq!(add.doc.as_deref(), Some("Adds."));
    assert_eq!(add.params, vec!["x: i32".to_string(), "y: i32".to_string()]);
    assert_eq!(add.ret.as_deref(), Some("i32"));
    let none = funcs.iter().find(|f| f.name == "none_at_all").unwrap();
    assert_eq!(none.params.len(), 0);
    assert_eq!(none.ret, None);
}

#[test]
fn is_test_file_rules() {
    assert!(is_test_file("tests"));
    assert!(is_test_file("tests/helpers"));
    assert!(is_test_file("src/tests/util"));
    assert!(is_test_file("parser_test"));
    assert!(is_test_file("parser_tests"));
    assert!(!is_test_file("src/main"));
    assert!(!is_test_file("src/testing"));
}

#[test]
fn test_file_entities_route_to_test_document() {
    let files = vec![
        mk("main.rs", "struct M { x: u8 }\n"),
        mk("tests/help.rs", "struct H { y: u8 }\n#[test]\nfn t() {}\nfn u() {}\n"),
    ];
    let d = generate_diagrams(&files).expect("rendering succeeds");
    assert!(d.main.contains("class `M`"));
    assert!(!d.main.contains("class `H`"));
    assert!(d.tests.contains("class `H`"));
    assert!(d.tests.contains("namespace `tests/help.rs`"));
    // Function grouping is by attribute, not by file: the non-test function
    // of the test file still sits in the main document's function list.
    assert!(d.main.contains("u()"));
    assert!(d.tests.contains("t()"));
}

#[test]
fn config_controls_header() {
    let files = vec![mk("m.rs", "struct A;\n")];
    let cfg = DiagramConfig {
        main_title: "My Project".to_string(),
        tests_title: "My Tests".to_string(),
        layout: "dagre".to_string(),
        theme: "forest".to_string(),
        elk_node_placement: "SIMPLE".to_string(),
    };
    let d = generate_diagrams_with_config(&cfg, &files).expect("rendering succeeds");
    assert!(d.main.contains("  title: My Project\n"));
    assert!(d.main.contains("  layout: dagre\n"));
    assert!(d.main.contains("  theme: forest\n"));
    assert!(d.main.contains("nodePlacementStrategy: SIMPLE\n"));
    assert!(d.tests.contains("  title: My Tests\n"));
}

#[test]
fn default_config_values() {
    let cfg = DiagramConfig::default();
    assert_eq!(cfg.main_title, "Project");
    assert_eq!(cfg.tests_title, "Project Tests");
    assert_eq!(cfg.layout, "elk");
    assert_eq!(cfg.theme, "dark");
    assert_eq!(cfg.elk_node_placement, "BRANDES_KOEPF");
}

#[test]
fn empty_corpus_renders_empty_documents() {
    let files: Vec<SourceFile> = Vec::new();
    let d = generate_diagrams(&files).expect("empty corpus is fine");
    assert!(d.main.ends_with("classDiagram\n    direction TB\n"));
    assert!(d.tests.ends_with("classDiagram\n    direction TB\n"));
}

#[test]
fn nested_declarations_are_collected() {
    let files = vec![mk(
        "n.rs",
        "fn outer() {\n    struct Inner { x: u8 }\n}\nstruct Uses { i: Inner }\n",
    )];
    let p = parse_project(&files).expect("corpus parses");
    assert_eq!(find(&p, "Uses").relationships.len(), 1);
    assert_eq!(find(&p, "Uses").relationships[0].target, "Inner");
}

#[test]
fn trait_names_join_the_universe() {
    let files = vec![mk("t.rs", "trait Doer {}\nstruct S { d: Box<Doer> }\n")];
    let p = parse_project(&files).expect("corpus parses");
    assert_eq!(find(&p, "S").relationships.len(), 1);
    assert_eq!(find(&p, "S").relationships[0].target, "Doer");
}

#[test]
fn edges_are_sorted_and_unique_in_output() {
    let files = vec![mk(
        "m.rs",
        "struct Z;\nstruct A;\nstruct M { z: Z, a: A }\n",
    )];
    let d = generate_diagrams(&files).expect("rendering succeeds");
    let a_pos = d.main.find("    M *-- A : A a\n").expect("edge to A");
    let z_pos = d.main.find("    M *-- Z : Z z\n").expect("edge to Z");
    assert!(a_pos < z_pos, "edge lines come out in sorted order");
}

#[test]
fn render_class_block_shape() {
    let c = Class {
        name: "W".to_string(),
        file: "m".to_string(),
        stereotype: Some("struct".to_string()),
        doc: Some("A widget.".to_string()),
        fields: vec!["x".to_string()],
        methods: vec!["run".to_string()],
        relationships: Vec::new(),
        trait_impls: Vec::new(),
    };
    let (block, note) = c.render();
    let expected = "        class `W` {\n            <<struct>>\n            <<m>>\n            x\n            run()\n        }\n";
    assert_eq!(block, expected);
    assert_eq!(note.as_deref(), Some("note for `W` \"A widget.\"\n"));
}

#[test]
fn methods_inside_impl_blocks_are_recorded() {
    // The walk descends into every node, so functions inside impl blocks
    // are captured too, with a receiver rendered verbatim.
    let files = vec![mk(
        "s.rs",
        "struct S;\nimpl S {\n    fn m(&self, x: u8) -> u8 { x }\n}\n",
    )];
    let p = parse_project(&files).expect("corpus parses");
    let funcs = &p.file_functions_main[0].functions;
    let m = funcs.iter().find(|f| f.name == "m").unwrap();
    assert_eq!(m.params, vec!["&self".to_string(), "x: u8".to_string()]);
    assert_eq!(m.ret.as_deref(), Some("u8"));
}

#[test]
fn doc_summary_is_trimmed() {
    let files = vec![mk("d.rs", "///    padded doc   \nstruct D { x: u8 }\n")];
    let p = parse_project(&files).expect("corpus parses");
    assert_eq!(find(&p, "D").doc.as_deref(), Some("padded doc"));
}
