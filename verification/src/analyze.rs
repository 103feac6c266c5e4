//! From the text and syntax tree of one file to its summary.

use vstd::prelude::*;
use vstd::seq_lib::to_multiset_contains;
use crate::collector::{
    inner_impl_ctx, inner_trait_ctx, lemma_concat_empty, measure_element, measure_forest,
    measure_tree, CollectorParts, CollectorPartsView, ImplContextView, ItemCollector,
};
use crate::language::Language;
use crate::ranking::{lemma_ranked, ranked, top_functions, top_ranked};
use crate::span::lemma_span_loc_bounds;
use crate::summary::{FileLocSummary, FileLocSummaryView, NamedLocView};
use crate::syntax::{Node, NodeKind, Span};
use crate::text::{content_flags, count_content_lines, total_loc};

verus! {

/// The summary of a file with `total` content lines in which the walk has
/// measured `parts`: the lists as measured, and the ranking drawn from the
/// functions and methods among them.
pub open spec fn summary_of(total: nat, parts: CollectorPartsView) -> FileLocSummaryView {
    FileLocSummaryView {
        total_loc: total,
        top_functions: top_ranked(parts.function_summaries),
        file_scope_functions: parts.file_scope_functions,
        impl_methods: parts.impl_methods,
        trait_methods: parts.trait_methods,
        test_functions: parts.test_functions,
        aggregate_type_defs: parts.aggregate_type_defs,
        sum_type_defs: parts.sum_type_defs,
        interface_defs: parts.interface_defs,
        impl_blocks: parts.impl_blocks,
        consts: parts.consts,
        statics: parts.statics,
    }
}

/// What the walk measures in the file with text `source` and syntax tree
/// `syntax`, started outside any block or trait.
pub open spec fn file_parts(source: Seq<char>, syntax: Node) -> CollectorPartsView {
    measure_tree(content_flags(source), syntax, None, None)
}

/// The summary of the file with text `source` and syntax tree `syntax`.
pub open spec fn file_summary(source: Seq<char>, syntax: Node) -> FileLocSummaryView {
    summary_of(total_loc(source), file_parts(source, syntax))
}

/// Whatever the walk enters in a list has a positive line count.
pub proof fn lemma_measure_element_positive(
    lines: Seq<bool>,
    kind: NodeKind,
    span: Span,
    children: Seq<Node>,
    impl_ctx: Option<ImplContextView>,
    trait_ctx: Option<Seq<char>>,
)
    ensures
        measure_element(lines, kind, span, children, impl_ctx, trait_ctx).all_positive(),
    decreases children, 1nat,
{
    lemma_span_loc_bounds(lines, span.start_line as nat, span.end_line as nat);
    lemma_measure_forest_positive(
        lines,
        children,
        inner_impl_ctx(kind, impl_ctx),
        inner_trait_ctx(kind, trait_ctx),
    );
}

/// Whatever the walk enters in a list while it visits siblings has a
/// positive line count.
pub proof fn lemma_measure_forest_positive(
    lines: Seq<bool>,
    nodes: Seq<Node>,
    impl_ctx: Option<ImplContextView>,
    trait_ctx: Option<Seq<char>>,
)
    ensures
        measure_forest(lines, nodes, impl_ctx, trait_ctx).all_positive(),
    decreases nodes, 0nat,
{
    if nodes.len() > 0 {
        lemma_measure_forest_positive(lines, nodes.drop_last(), impl_ctx, trait_ctx);
        lemma_measure_element_positive(
            lines,
            nodes.last().kind,
            nodes.last().span,
            nodes.last().children@,
            impl_ctx,
            trait_ctx,
        );
    }
}

/// Each entry of a ranking is an entry of the pool it was drawn from.
pub proof fn lemma_top_ranked_from_pool(pool: Seq<NamedLocView>, i: int)
    requires
        0 <= i < top_ranked(pool).len(),
    ensures
        pool.contains(top_ranked(pool)[i]),
{
    lemma_ranked(pool);
    let entry = top_ranked(pool)[i];
    assert(ranked(pool)[i] == entry);
    to_multiset_contains(ranked(pool), entry);
    to_multiset_contains(pool, entry);
}

/// A summary built from positive measurements is well formed.
pub proof fn lemma_summary_of_well_formed(total: nat, parts: CollectorPartsView)
    requires
        parts.all_positive(),
    ensures
        summary_of(total, parts).well_formed(),
{
    let pool = parts.function_summaries;
    let top = top_ranked(pool);
    lemma_ranked(pool);
    assert forall|i: int| 0 <= i < top.len() implies (#[trigger] top[i]).loc > 0 by {
        lemma_top_ranked_from_pool(pool, i);
        let k = choose|k: int| 0 <= k < pool.len() && pool[k] == top[i];
        assert(pool[k].loc > 0);
    }
}

/// The summary of any file is well formed: no list holds an entry without
/// lines, and the ranking holds at most three entries.
pub proof fn lemma_file_summary_well_formed(source: Seq<char>, syntax: Node)
    ensures
        file_summary(source, syntax).well_formed(),
{
    lemma_measure_element_positive(
        content_flags(source),
        syntax.kind,
        syntax.span,
        syntax.children@,
        None,
        None,
    );
    lemma_summary_of_well_formed(total_loc(source), file_parts(source, syntax));
}

/// The total of a file's summary is the number of content lines of its text,
/// whatever its syntax tree holds.
pub proof fn lemma_total_independent_of_syntax(source: Seq<char>, first: Node, second: Node)
    ensures
        file_summary(source, first).total_loc == total_loc(source),
        file_summary(source, first).total_loc == file_summary(source, second).total_loc,
{
}

/// Builds the summary from what a walk has measured.
pub fn assemble_summary(total_loc: usize, parts: CollectorParts) -> (summary: FileLocSummary)
    ensures
        summary@ == summary_of(total_loc as nat, parts@),
{
    let top = top_functions(&parts.function_summaries);
    FileLocSummary {
        total_loc,
        top_functions: top,
        file_scope_functions: parts.file_scope_functions,
        impl_methods: parts.impl_methods,
        trait_methods: parts.trait_methods,
        test_functions: parts.test_functions,
        aggregate_type_defs: parts.aggregate_type_defs,
        sum_type_defs: parts.sum_type_defs,
        interface_defs: parts.interface_defs,
        impl_blocks: parts.impl_blocks,
        consts: parts.consts,
        statics: parts.statics,
    }
}

/// Measures the elements of a Rust file with text `source` and syntax tree
/// `syntax`, and reports them with `total_loc` as the file's total.
pub fn summarize_rust_file(source: &str, total_loc: usize, syntax: &Node) -> (summary:
    FileLocSummary)
    ensures
        summary@ == summary_of(total_loc as nat, file_parts(source@, *syntax)),
        summary@.well_formed(),
{
    let mut collector = ItemCollector::new(source);
    collector.visit_node(syntax);
    let parts = collector.finish();
    proof {
        lemma_concat_empty(file_parts(source@, *syntax));
        lemma_measure_element_positive(
            content_flags(source@),
            syntax.kind,
            syntax.span,
            syntax.children@,
            None,
            None,
        );
        lemma_summary_of_well_formed(total_loc as nat, file_parts(source@, *syntax));
    }
    assemble_summary(total_loc, parts)
}

/// Measures a file of the given language with text `source` and syntax tree
/// `syntax`. The total is counted over the text alone.
pub fn analyze_file(language: Language, source: &str, syntax: &Node) -> (summary: FileLocSummary)
    ensures
        summary@ == file_summary(source@, *syntax),
        summary@.well_formed(),
        summary.total_loc == total_loc(source@),
{
    let total_loc = count_content_lines(source);
    match language {
        Language::Rust => summarize_rust_file(source, total_loc, syntax),
    }
}

} // verus!
