use loc_checker::collector::{
    qualify_impl_method, qualify_trait_method, CollectorParts, ImplContext, ItemCollector,
};
use loc_checker::summary::{ImplBlockLoc, ImplMethodLoc, NamedLoc, TraitMethodLoc};
use loc_checker::syntax::{Node, NodeKind, Span};

fn text(lines: usize) -> String {
    let mut source = String::new();
    for i in 0..lines {
        source.push_str(&format!("line {i}\n"));
    }
    source
}

fn named(name: &str, loc: usize) -> NamedLoc {
    NamedLoc { name: name.to_string(), loc }
}

fn function(name: &str, start: usize, end: usize) -> Node {
    Node::leaf(
        NodeKind::Function { name: name.to_string(), is_test: false },
        Span::new(start, end),
    )
}

fn method(name: &str, start: usize, end: usize) -> Node {
    Node::leaf(NodeKind::ImplMethod { name: name.to_string() }, Span::new(start, end))
}

fn file(children: Vec<Node>) -> Node {
    Node::with_children(NodeKind::Scope, Span::new(0, 0), children)
}

fn collect(source: &str, tree: &Node) -> CollectorParts {
    let mut collector = ItemCollector::new(source);
    collector.visit_node(tree);
    collector.finish()
}

#[test]
fn free_functions_go_by_their_test_marker() {
    let tree = file(vec![
        function("plain", 1, 3),
        Node::leaf(
            NodeKind::Function { name: "checks".to_string(), is_test: true },
            Span::new(4, 9),
        ),
    ]);
    let parts = collect(&text(10), &tree);
    assert_eq!(parts.file_scope_functions, vec![named("plain", 3)]);
    assert_eq!(parts.test_functions, vec![named("checks", 6)]);
    assert_eq!(parts.function_summaries, vec![named("plain", 3), named("checks", 6)]);
    assert!(parts.impl_methods.is_empty());
    assert!(parts.trait_methods.is_empty());
}

#[test]
fn definitions_are_listed_and_not_ranked() {
    let tree = file(vec![
        Node::leaf(NodeKind::Struct { name: "Point".to_string() }, Span::new(1, 4)),
        Node::leaf(NodeKind::Enum { name: "Shape".to_string() }, Span::new(5, 7)),
        Node::leaf(NodeKind::Const { name: "LIMIT".to_string() }, Span::new(8, 8)),
        Node::leaf(NodeKind::Static { name: "TABLE".to_string() }, Span::new(9, 10)),
        Node::leaf(NodeKind::Trait { name: "Draw".to_string() }, Span::new(11, 12)),
    ]);
    let parts = collect(&text(12), &tree);
    assert_eq!(parts.aggregate_type_defs, vec![named("Point", 4)]);
    assert_eq!(parts.sum_type_defs, vec![named("Shape", 3)]);
    assert_eq!(parts.consts, vec![named("LIMIT", 1)]);
    assert_eq!(parts.statics, vec![named("TABLE", 2)]);
    assert_eq!(parts.interface_defs, vec![named("Draw", 2)]);
    assert!(parts.function_summaries.is_empty());
}

#[test]
fn trait_with_signature_only_and_default_method() {
    // A trait with one method without a body and one default method of
    // five lines.
    let tree = file(vec![Node::with_children(
        NodeKind::Trait { name: "Shape".to_string() },
        Span::new(1, 9),
        vec![
            Node::leaf(
                NodeKind::TraitMethod { name: "area".to_string(), has_default: false },
                Span::new(2, 2),
            ),
            Node::leaf(
                NodeKind::TraitMethod { name: "describe".to_string(), has_default: true },
                Span::new(4, 8),
            ),
        ],
    )]);
    let parts = collect(&text(9), &tree);
    assert_eq!(
        parts.trait_methods,
        vec![TraitMethodLoc {
            trait_name: "Shape".to_string(),
            method_name: "describe".to_string(),
            loc: 5,
        }]
    );
    assert_eq!(parts.function_summaries, vec![named("interface Shape::describe", 5)]);
    assert_eq!(parts.interface_defs, vec![named("Shape", 9)]);
    assert!(parts.file_scope_functions.is_empty());
    assert!(parts.impl_methods.is_empty());
    assert!(parts.test_functions.is_empty());
}

#[test]
fn impl_block_with_a_method_that_cannot_be_measured() {
    // A nested implementation block with three methods; the span of the
    // second one is not resolved.
    let block = Node::with_children(
        NodeKind::ImplBlock { target: "Inner".to_string(), trait_name: None },
        Span::new(3, 12),
        vec![method("first", 4, 5), method("second", 0, 0), method("third", 8, 11)],
    );
    let tree = file(vec![Node::with_children(
        NodeKind::Function { name: "outer".to_string(), is_test: false },
        Span::new(1, 14),
        vec![block],
    )]);
    let parts = collect(&text(14), &tree);
    assert_eq!(
        parts.impl_methods,
        vec![
            ImplMethodLoc {
                impl_target: "Inner".to_string(),
                trait_name: None,
                method_name: "first".to_string(),
                loc: 2,
            },
            ImplMethodLoc {
                impl_target: "Inner".to_string(),
                trait_name: None,
                method_name: "third".to_string(),
                loc: 4,
            },
        ]
    );
    assert_eq!(parts.impl_methods.len(), 2);
    assert!(parts.impl_methods.iter().all(|entry| entry.method_name != "second"));
    assert!(parts.function_summaries.iter().all(|entry| !entry.name.contains("second")));
    assert_eq!(
        parts.function_summaries,
        vec![named("outer", 14), named("Inner::first", 2), named("Inner::third", 4)]
    );
}

#[test]
fn methods_are_named_after_the_innermost_block() {
    let inner = Node::with_children(
        NodeKind::ImplBlock {
            target: "Inner".to_string(),
            trait_name: Some("Display".to_string()),
        },
        Span::new(4, 8),
        vec![method("fmt", 5, 7)],
    );
    let outer_method =
        Node::with_children(NodeKind::ImplMethod { name: "build".to_string() }, Span::new(2, 9), vec![inner]);
    let outer = Node::with_children(
        NodeKind::ImplBlock { target: "Outer".to_string(), trait_name: None },
        Span::new(1, 12),
        vec![outer_method, method("after", 10, 11)],
    );
    let parts = collect(&text(12), &file(vec![outer]));
    assert_eq!(
        parts.function_summaries,
        vec![
            named("Outer::build", 8),
            named("Display for Inner::fmt", 3),
            named("Outer::after", 2),
        ]
    );
    assert_eq!(
        parts.impl_blocks,
        vec![
            ImplBlockLoc { target: "Outer".to_string(), trait_name: None, loc: 12 },
            ImplBlockLoc {
                target: "Inner".to_string(),
                trait_name: Some("Display".to_string()),
                loc: 5,
            },
        ]
    );
    assert_eq!(parts.impl_methods[1].impl_target, "Inner");
    assert_eq!(parts.impl_methods[1].trait_name, Some("Display".to_string()));
    assert_eq!(parts.impl_methods[2].impl_target, "Outer");
    assert_eq!(parts.impl_methods[2].trait_name, None);
}

#[test]
fn block_without_a_count_still_names_its_methods() {
    let block = Node::with_children(
        NodeKind::ImplBlock { target: "Ghost".to_string(), trait_name: None },
        Span::new(0, 0),
        vec![method("walk", 2, 3)],
    );
    let parts = collect(&text(4), &file(vec![block]));
    assert!(parts.impl_blocks.is_empty());
    assert_eq!(parts.function_summaries, vec![named("Ghost::walk", 2)]);
}

#[test]
fn method_outside_any_block_is_skipped() {
    let tree = file(vec![
        method("stray", 1, 2),
        Node::leaf(
            NodeKind::TraitMethod { name: "loose".to_string(), has_default: true },
            Span::new(3, 4),
        ),
    ]);
    let parts = collect(&text(4), &tree);
    assert!(parts.impl_methods.is_empty());
    assert!(parts.trait_methods.is_empty());
    assert!(parts.function_summaries.is_empty());
}

#[test]
fn blank_lines_do_not_count() {
    let source = "fn spaced() {\n\n    let x = 1;\n\n\n    x\n}\n";
    let parts = collect(source, &file(vec![function("spaced", 1, 7)]));
    assert_eq!(parts.file_scope_functions, vec![named("spaced", 4)]);
}

#[test]
fn element_of_blank_lines_is_left_out() {
    let source = "fn a() {}\n\n\n\nfn b() {}\n";
    let tree = file(vec![function("a", 1, 1), function("hollow", 2, 4), function("b", 5, 5)]);
    let parts = collect(source, &tree);
    assert_eq!(parts.file_scope_functions, vec![named("a", 1), named("b", 1)]);
    assert!(parts.function_summaries.iter().all(|entry| entry.loc > 0));
}

#[test]
fn the_collector_can_walk_several_trees() {
    let mut collector = ItemCollector::new(&text(6));
    collector.visit_node(&function("one", 1, 2));
    collector.visit_node(&method("unbound", 3, 4));
    collector.visit_node(&function("two", 5, 6));
    let parts = collector.finish();
    assert_eq!(parts.file_scope_functions, vec![named("one", 2), named("two", 2)]);
    assert!(parts.impl_methods.is_empty());
}

#[test]
fn record_loc_measures_against_the_file() {
    let collector = ItemCollector::new("a\n\nb\n");
    assert_eq!(collector.record_loc(&Span::new(1, 3)), Some(2));
    assert_eq!(collector.record_loc(&Span::new(2, 2)), None);
    assert_eq!(collector.record_loc(&Span::new(1, 50)), Some(2));
}

#[test]
fn push_function_summary_enters_only_what_has_a_count() {
    let mut collector = ItemCollector::new("a\n\nb\n");
    assert_eq!(collector.push_function_summary("kept", &Span::new(1, 1)), Some(1));
    assert_eq!(collector.push_function_summary("blank", &Span::new(2, 2)), None);
    let parts = collector.finish();
    assert_eq!(parts.function_summaries, vec![named("kept", 1)]);
}

#[test]
fn display_names_are_spelled_out() {
    let with_trait = ImplContext {
        target: "Vec < T >".to_string(),
        trait_name: Some("Iterator".to_string()),
    };
    let without = ImplContext { target: "Point".to_string(), trait_name: None };
    assert_eq!(qualify_impl_method(&with_trait, "next"), "Iterator for Vec < T >::next");
    assert_eq!(qualify_impl_method(&without, "new"), "Point::new");
    assert_eq!(qualify_trait_method("Shape", "area"), "interface Shape::area");
}
