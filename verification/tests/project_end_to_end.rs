use loc_checker::analyze::analyze_file;
use loc_checker::config::{RootKind, ScannerConfig};
use loc_checker::language::Language;
use loc_checker::offenders::{filter_files, OffenderFilter};
use loc_checker::output::{render_report, report_totals, OutputFormat};
use loc_checker::scan::{scan, SourceFile};
use loc_checker::summary::ScannedFile;
use loc_checker::syntax::{Node, NodeKind, Span};
use quote::ToTokens;
use syn::spanned::Spanned;
use syn::visit::Visit;

/// Builds the library's tree from a parsed file.
struct TreeBuilder {
    open: Vec<Vec<Node>>,
}

impl TreeBuilder {
    fn lines(span: proc_macro2::Span) -> Span {
        Span::new(span.start().line, span.end().line)
    }

    fn close(&mut self, kind: NodeKind, span: proc_macro2::Span) {
        let children = self.open.pop().unwrap();
        let node = Node::with_children(kind, Self::lines(span), children);
        self.open.last_mut().unwrap().push(node);
    }
}

impl<'ast> Visit<'ast> for TreeBuilder {
    fn visit_item_fn(&mut self, node: &'ast syn::ItemFn) {
        self.open.push(Vec::new());
        syn::visit::visit_item_fn(self, node);
        let is_test = node.attrs.iter().any(|attr| attr.path().is_ident("test"));
        self.close(NodeKind::Function { name: node.sig.ident.to_string(), is_test }, node.span());
    }

    fn visit_item_struct(&mut self, node: &'ast syn::ItemStruct) {
        self.open.push(Vec::new());
        syn::visit::visit_item_struct(self, node);
        self.close(NodeKind::Struct { name: node.ident.to_string() }, node.span());
    }

    fn visit_item_enum(&mut self, node: &'ast syn::ItemEnum) {
        self.open.push(Vec::new());
        syn::visit::visit_item_enum(self, node);
        self.close(NodeKind::Enum { name: node.ident.to_string() }, node.span());
    }

    fn visit_item_const(&mut self, node: &'ast syn::ItemConst) {
        self.open.push(Vec::new());
        syn::visit::visit_item_const(self, node);
        self.close(NodeKind::Const { name: node.ident.to_string() }, node.span());
    }

    fn visit_item_static(&mut self, node: &'ast syn::ItemStatic) {
        self.open.push(Vec::new());
        syn::visit::visit_item_static(self, node);
        self.close(NodeKind::Static { name: node.ident.to_string() }, node.span());
    }

    fn visit_item_trait(&mut self, node: &'ast syn::ItemTrait) {
        self.open.push(Vec::new());
        syn::visit::visit_item_trait(self, node);
        self.close(NodeKind::Trait { name: node.ident.to_string() }, node.span());
    }

    fn visit_trait_item_fn(&mut self, node: &'ast syn::TraitItemFn) {
        self.open.push(Vec::new());
        syn::visit::visit_trait_item_fn(self, node);
        self.close(
            NodeKind::TraitMethod {
                name: node.sig.ident.to_string(),
                has_default: node.default.is_some(),
            },
            node.span(),
        );
    }

    fn visit_item_impl(&mut self, node: &'ast syn::ItemImpl) {
        self.open.push(Vec::new());
        syn::visit::visit_item_impl(self, node);
        let target = node.self_ty.to_token_stream().to_string();
        let trait_name = node.trait_.as_ref().map(|(_, path, _)| path.to_token_stream().to_string());
        self.close(NodeKind::ImplBlock { target, trait_name }, node.span());
    }

    fn visit_impl_item_fn(&mut self, node: &'ast syn::ImplItemFn) {
        self.open.push(Vec::new());
        syn::visit::visit_impl_item_fn(self, node);
        self.close(NodeKind::ImplMethod { name: node.sig.ident.to_string() }, node.span());
    }
}

fn parse(source: &str) -> Node {
    let file = syn::parse_file(source).unwrap();
    let mut builder = TreeBuilder { open: vec![Vec::new()] };
    builder.visit_file(&file);
    Node::with_children(NodeKind::Scope, Span::new(0, 0), builder.open.pop().unwrap())
}

fn lib_source() -> String {
    let mut text = String::new();
    text.push_str("#![allow(dead_code)]\n");
    text.push_str("#![allow(unused_variables)]\n");
    text.push_str("\n");
    text.push_str("/// A ton of repetition to stress our loc counting\n");
    text.push_str("pub fn compute_series_a(seed: i32) -> i32 {\n");
    text.push_str("    let mut total = seed;\n");
    for i in 1..=60 {
        text.push_str(&format!("    total += adjust(seed, {i});\n"));
    }
    text.push_str("    total\n");
    text.push_str("}\n");
    text.push_str("\n");
    text.push_str("pub fn compute_series_b(seed: i32) -> i32 {\n");
    text.push_str("    let mut total = seed * 2;\n");
    for i in 1..=60 {
        text.push_str(&format!("    total += adjust(seed, -{i});\n"));
    }
    text.push_str("    total\n");
    text.push_str("}\n");
    text.push_str("\n");
    text.push_str("pub fn generate_report(seed: i32) -> Vec<i32> {\n");
    text.push_str("    let mut rows = Vec::new();\n");
    text.push_str("    rows.push(compute_series_a(seed));\n");
    text.push_str("    rows.push(compute_series_b(seed));\n");
    text.push_str("    rows.push(rows.iter().sum());\n");
    text.push_str("    rows.push(seed * 100);\n");
    text.push_str("    rows.push(seed * seed);\n");
    text.push_str("    rows.push(rows.len() as i32);\n");
    text.push_str("    rows\n");
    text.push_str("}\n");
    text.push_str("\n");
    text.push_str("fn adjust(base: i32, offset: i32) -> i32 {\n");
    text.push_str("    base + offset\n");
    text.push_str("}\n");
    text
}

fn main_source() -> String {
    let mut text = String::new();
    text.push_str("#![allow(clippy::print_stdout)]\n");
    text.push_str("#![allow(dead_code)]\n");
    text.push_str("#![allow(unused_variables)]\n");
    text.push_str("\n");
    text.push_str("use test_proj::{compute_series_a, compute_series_b, generate_report};\n");
    text.push_str("\n");
    text.push_str("fn main() {\n");
    text.push_str("    let seed = 12;\n");
    text.push_str("    let report = build_full_report(seed);\n");
    text.push_str("    for line in report {\n");
    text.push_str("        println!(\"{line}\");\n");
    text.push_str("    }\n");
    text.push_str("}\n");
    text.push_str("\n");
    text.push_str("/// A ton of repetition to stress our loc counting\n");
    text.push_str("fn build_full_report(seed: i32) -> Vec<String> {\n");
    text.push_str("    let mut lines = Vec::new();\n");
    text.push_str("    let series_a = compute_series_a(seed);\n");
    text.push_str("    let series_b = compute_series_b(seed);\n");
    text.push_str("    let report_values = generate_report(seed);\n");
    text.push_str("\n");
    text.push_str("    lines.push(format!(\"seed={seed}\"));\n");
    text.push_str("    lines.push(format!(\"series_a={series_a}\"));\n");
    text.push_str("    lines.push(format!(\"series_b={series_b}\"));\n");
    text.push_str("    lines.push(format!(\"report_len={}\", report_values.len()));\n");
    text.push_str("    lines.push(report_row(\"phase\", \"initial\"));\n");
    text.push_str("    lines.push(report_row(\"stage\", \"collect_inputs\"));\n");
    text.push_str("    lines.push(report_row(\"metric\", series_a.to_string()));\n");
    text.push_str("    lines.push(report_row(\"metric\", series_b.to_string()));\n");
    text.push_str(
        "    lines.push(report_row(\"metric\", report_values.iter().sum::<i32>().to_string()));\n",
    );
    for letter in 'a'..='z' {
        text.push_str(&format!("    lines.push(report_row(\"checkpoint\", \"{letter}\"));\n"));
    }
    for status in ["verifying", "processing", "archiving", "complete"] {
        text.push_str(&format!(
            "    lines.push(report_row(\"status\", format_status(\"{status}\")));\n"
        ));
    }
    for _ in 0..20 {
        text.push_str(
            "    lines.push(report_row(\"summary\", compute_section_summary(report_values.clone())));\n",
        );
    }
    for closing in [
        "ok",
        "done",
        "filed",
        "archived",
        "emailed",
        "synced",
        "cached",
        "recorded",
        "indexed",
        "verified",
        "acknowledged",
        "finalized",
    ] {
        text.push_str(&format!("    lines.push(report_row(\"closing\", \"{closing}\"));\n"));
    }
    text.push_str("\n");
    text.push_str("    lines\n");
    text.push_str("}\n");
    text.push_str("\n");
    text.push_str("fn report_row(key: &str, value: impl Into<String>) -> String {\n");
    text.push_str("    format!(\"{key}:{value}\")\n");
    text.push_str("}\n");
    text.push_str("\n");
    text.push_str("fn format_status(name: &str) -> String {\n");
    text.push_str("    format!(\"status::{name}\")\n");
    text.push_str("}\n");
    text.push_str("\n");
    text.push_str("fn compute_section_summary(values: Vec<i32>) -> String {\n");
    text.push_str("    let sum: i32 = values.iter().sum();\n");
    text.push_str("    let max = values.iter().max().copied().unwrap_or_default();\n");
    text.push_str("    let min = values.iter().min().copied().unwrap_or_default();\n");
    text.push_str("    format!(\"sum={sum},max={max},min={min}\")\n");
    text.push_str("}\n");
    text
}

fn config() -> ScannerConfig {
    ScannerConfig::new(
        Language::Rust,
        "tests/test_proj".to_string(),
        RootKind::Directory,
        "test_proj".to_string(),
        false,
        Vec::new(),
        Vec::new(),
        Vec::new(),
    )
}

fn project() -> Vec<ScannedFile> {
    let sources: Vec<SourceFile> = [("src/main.rs", main_source()), ("src/lib.rs", lib_source())]
        .into_iter()
        .map(|(path, source)| SourceFile {
            relative_path: path.to_string(),
            syntax: parse(&source),
            source,
        })
        .collect();
    scan(&config(), &sources)
}

fn entry<'a>(files: &'a [ScannedFile], path: &str) -> &'a ScannedFile {
    files.iter().find(|file| file.relative_path == path).unwrap()
}

#[test]
fn counts_lines_for_test_project() {
    let files = project();
    let totals = report_totals(&files);
    assert_eq!(totals.files, 2);
    assert_eq!(totals.total_loc, 246);
    assert_eq!(files.len(), 2);

    let lib_summary = &entry(&files, "src/lib.rs").summary;
    assert!(lib_summary.file_scope_functions.len() >= 4);
    assert!(lib_summary
        .file_scope_functions
        .iter()
        .any(|function| function.name.contains("compute_series_a")));
    assert!(lib_summary.impl_methods.is_empty());

    let main_summary = &entry(&files, "src/main.rs").summary;
    assert!(main_summary.total_loc > 90);
    assert!(main_summary
        .top_functions
        .iter()
        .any(|function| function.name.contains("build_full_report")));
}

#[test]
fn test_project_measures_line_by_line() {
    let files = project();
    let lib_summary = &entry(&files, "src/lib.rs").summary;
    assert_eq!(lib_summary.total_loc, 144);
    let lib_functions: Vec<(&str, usize)> = lib_summary
        .file_scope_functions
        .iter()
        .map(|function| (function.name.as_str(), function.loc))
        .collect();
    assert_eq!(
        lib_functions,
        vec![
            ("compute_series_a", 65),
            ("compute_series_b", 64),
            ("generate_report", 10),
            ("adjust", 3),
        ]
    );
    let lib_top: Vec<&str> =
        lib_summary.top_functions.iter().map(|function| function.name.as_str()).collect();
    assert_eq!(lib_top, vec!["compute_series_a", "compute_series_b", "generate_report"]);

    let main_summary = &entry(&files, "src/main.rs").summary;
    assert_eq!(main_summary.total_loc, 102);
    let main_top: Vec<(&str, usize)> = main_summary
        .top_functions
        .iter()
        .map(|function| (function.name.as_str(), function.loc))
        .collect();
    assert_eq!(
        main_top,
        vec![("build_full_report", 79), ("main", 7), ("compute_section_summary", 6)]
    );
}

#[test]
fn filters_files_and_functions_based_on_thresholds() {
    let files = filter_files(&project(), &OffenderFilter::new(120, 70));
    assert_eq!(files.len(), 2, "expected both files to remain in offenders list");

    let lib_functions = &entry(&files, "src/lib.rs").summary.file_scope_functions;
    assert!(
        lib_functions.is_empty(),
        "lib.rs should not report offending functions when only the file exceeds the limit"
    );

    let main_functions = &entry(&files, "src/main.rs").summary.file_scope_functions;
    assert_eq!(main_functions.len(), 1, "only build_full_report should remain");
    assert_eq!(main_functions[0].name, "build_full_report");
}

#[test]
fn offenders_mode_can_produce_empty_results() {
    let filter = OffenderFilter::new(1000, 1000);
    let report = render_report(&config(), &project(), OutputFormat::Json, Some(&filter));
    assert_eq!(report.totals.files, 0, "no files should exceed the generous limits");
    assert_eq!(report.totals.total_loc, 0, "no LOC should be counted when no files remain");
    assert!(report.files.is_empty(), "files array should be empty when no offenders are found");
}

#[test]
fn parsed_elements_of_every_kind_are_measured() {
    let source = "\
struct Point {
    x: i32,
}

enum Shape {
    Dot,
}

const LIMIT: usize = 3;
static NAME: &str = \"n\";

trait Area {
    fn area(&self) -> i32;

    fn describe(&self) -> String {
        let area = self.area();

        format!(\"{area}\")
    }
}

impl Area for Point {
    fn area(&self) -> i32 {
        fn helper() -> i32 {
            0
        }
        helper()
    }
}

impl Point {
    fn new() -> Self {
        Point { x: 0 }
    }
}

#[test]
fn checks() {
    assert!(true);
}
";
    let summary = analyze_file(Language::Rust, source, &parse(source));
    let names = |list: &Vec<loc_checker::summary::NamedLoc>| -> Vec<(String, usize)> {
        list.iter().map(|entry| (entry.name.clone(), entry.loc)).collect()
    };
    assert_eq!(summary.total_loc, 32);
    assert_eq!(names(&summary.aggregate_type_defs), vec![("Point".to_string(), 3)]);
    assert_eq!(names(&summary.sum_type_defs), vec![("Shape".to_string(), 3)]);
    assert_eq!(names(&summary.consts), vec![("LIMIT".to_string(), 1)]);
    assert_eq!(names(&summary.statics), vec![("NAME".to_string(), 1)]);
    assert_eq!(names(&summary.interface_defs), vec![("Area".to_string(), 7)]);
    assert_eq!(names(&summary.file_scope_functions), vec![("helper".to_string(), 3)]);
    assert_eq!(names(&summary.test_functions), vec![("checks".to_string(), 4)]);
    assert_eq!(summary.trait_methods.len(), 1);
    assert_eq!(summary.trait_methods[0].trait_name, "Area");
    assert_eq!(summary.trait_methods[0].method_name, "describe");
    assert_eq!(summary.trait_methods[0].loc, 4);
    assert_eq!(summary.impl_methods.len(), 2);
    assert_eq!(summary.impl_methods[0].impl_target, "Point");
    assert_eq!(summary.impl_methods[0].trait_name, Some("Area".to_string()));
    assert_eq!(summary.impl_methods[0].method_name, "area");
    assert_eq!(summary.impl_methods[0].loc, 6);
    assert_eq!(summary.impl_methods[1].trait_name, None);
    assert_eq!(summary.impl_methods[1].method_name, "new");
    assert_eq!(summary.impl_methods[1].loc, 3);
    assert_eq!(summary.impl_blocks.len(), 2);
    assert_eq!(summary.impl_blocks[0].loc, 8);
    assert_eq!(summary.impl_blocks[1].loc, 5);
    assert_eq!(
        names(&summary.top_functions),
        vec![
            ("Area for Point::area".to_string(), 6),
            ("checks".to_string(), 4),
            ("interface Area::describe".to_string(), 4),
        ]
    );
}

#[test]
fn total_counts_the_text_whatever_the_tree_holds() {
    let source = "// just a comment\n\n   \nuse std::fmt;\n";
    let parsed = analyze_file(Language::Rust, source, &parse(source));
    assert_eq!(parsed.total_loc, 2);
    assert!(parsed.top_functions.is_empty());
    assert!(parsed.file_scope_functions.is_empty());
    let other_tree = Node::leaf(
        NodeKind::Function { name: "made_up".to_string(), is_test: false },
        Span::new(1, 4),
    );
    let other = analyze_file(Language::Rust, source, &other_tree);
    assert_eq!(other.total_loc, 2);
    assert_eq!(other.file_scope_functions.len(), 1);
    let empty = analyze_file(Language::Rust, "", &parse(""));
    assert_eq!(empty.total_loc, 0);
}
