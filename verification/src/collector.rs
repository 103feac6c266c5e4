//! The walk over one file's syntax tree that measures each element.
//!
//! The collector keeps two stacks while it walks: the implementation blocks
//! it is inside of, and the traits it is inside of. A method is named after
//! the innermost block or trait around it.

use vstd::prelude::*;
use vstd::string::StringExecFns;
use crate::span::{measure_span, option_nat, span_loc};
use crate::summary::{
    option_text, views, ImplBlockLoc, ImplBlockLocView, ImplMethodLoc,
    ImplMethodLocView, NamedLoc, NamedLocView, TraitMethodLoc, TraitMethodLocView,
};
use crate::syntax::{Node, NodeKind, Span};
use crate::text::{content_flags, content_lines};

verus! {

/// The implementation block that a method belongs to.
#[derive(Debug, PartialEq, Eq)]
pub struct ImplContext {
    pub target: String,
    pub trait_name: Option<String>,
}

/// Mathematical value of an [`ImplContext`].
pub struct ImplContextView {
    pub target: Seq<char>,
    pub trait_name: Option<Seq<char>>,
}

impl View for ImplContext {
    type V = ImplContextView;

    open spec fn view(&self) -> ImplContextView {
        ImplContextView { target: self.target@, trait_name: option_text(self.trait_name) }
    }
}

/// What one walk has measured: the classified lists, and in
/// `function_summaries` every function and method under the name by which it
/// is ranked.
#[derive(Debug, PartialEq, Eq)]
pub struct CollectorParts {
    pub file_scope_functions: Vec<NamedLoc>,
    pub impl_methods: Vec<ImplMethodLoc>,
    pub trait_methods: Vec<TraitMethodLoc>,
    pub test_functions: Vec<NamedLoc>,
    pub aggregate_type_defs: Vec<NamedLoc>,
    pub sum_type_defs: Vec<NamedLoc>,
    pub interface_defs: Vec<NamedLoc>,
    pub impl_blocks: Vec<ImplBlockLoc>,
    pub consts: Vec<NamedLoc>,
    pub statics: Vec<NamedLoc>,
    pub function_summaries: Vec<NamedLoc>,
}

/// Mathematical value of [`CollectorParts`].
#[verifier::ext_equal]
pub struct CollectorPartsView {
    pub file_scope_functions: Seq<NamedLocView>,
    pub impl_methods: Seq<ImplMethodLocView>,
    pub trait_methods: Seq<TraitMethodLocView>,
    pub test_functions: Seq<NamedLocView>,
    pub aggregate_type_defs: Seq<NamedLocView>,
    pub sum_type_defs: Seq<NamedLocView>,
    pub interface_defs: Seq<NamedLocView>,
    pub impl_blocks: Seq<ImplBlockLocView>,
    pub consts: Seq<NamedLocView>,
    pub statics: Seq<NamedLocView>,
    pub function_summaries: Seq<NamedLocView>,
}

impl View for CollectorParts {
    type V = CollectorPartsView;

    open spec fn view(&self) -> CollectorPartsView {
        CollectorPartsView {
            file_scope_functions: views(self.file_scope_functions@),
            impl_methods: views(self.impl_methods@),
            trait_methods: views(self.trait_methods@),
            test_functions: views(self.test_functions@),
            aggregate_type_defs: views(self.aggregate_type_defs@),
            sum_type_defs: views(self.sum_type_defs@),
            interface_defs: views(self.interface_defs@),
            impl_blocks: views(self.impl_blocks@),
            consts: views(self.consts@),
            statics: views(self.statics@),
            function_summaries: views(self.function_summaries@),
        }
    }
}

impl CollectorPartsView {
    /// Nothing measured.
    pub open spec fn empty() -> CollectorPartsView {
        CollectorPartsView {
            file_scope_functions: Seq::empty(),
            impl_methods: Seq::empty(),
            trait_methods: Seq::empty(),
            test_functions: Seq::empty(),
            aggregate_type_defs: Seq::empty(),
            sum_type_defs: Seq::empty(),
            interface_defs: Seq::empty(),
            impl_blocks: Seq::empty(),
            consts: Seq::empty(),
            statics: Seq::empty(),
            function_summaries: Seq::empty(),
        }
    }

    /// What `self` holds, followed list by list by what `later` holds.
    pub open spec fn concat(self, later: CollectorPartsView) -> CollectorPartsView {
        CollectorPartsView {
            file_scope_functions: self.file_scope_functions + later.file_scope_functions,
            impl_methods: self.impl_methods + later.impl_methods,
            trait_methods: self.trait_methods + later.trait_methods,
            test_functions: self.test_functions + later.test_functions,
            aggregate_type_defs: self.aggregate_type_defs + later.aggregate_type_defs,
            sum_type_defs: self.sum_type_defs + later.sum_type_defs,
            interface_defs: self.interface_defs + later.interface_defs,
            impl_blocks: self.impl_blocks + later.impl_blocks,
            consts: self.consts + later.consts,
            statics: self.statics + later.statics,
            function_summaries: self.function_summaries + later.function_summaries,
        }
    }

    /// Every entry of every list has a positive line count.
    pub open spec fn all_positive(self) -> bool {
        &&& forall|i: int|
            0 <= i < self.file_scope_functions.len() ==> (
            #[trigger] self.file_scope_functions[i]).loc > 0
        &&& forall|i: int| 0 <= i < self.impl_methods.len() ==> (#[trigger] self.impl_methods[i]).loc > 0
        &&& forall|i: int|
            0 <= i < self.trait_methods.len() ==> (#[trigger] self.trait_methods[i]).loc > 0
        &&& forall|i: int|
            0 <= i < self.test_functions.len() ==> (#[trigger] self.test_functions[i]).loc > 0
        &&& forall|i: int|
            0 <= i < self.aggregate_type_defs.len() ==> (
            #[trigger] self.aggregate_type_defs[i]).loc > 0
        &&& forall|i: int|
            0 <= i < self.sum_type_defs.len() ==> (#[trigger] self.sum_type_defs[i]).loc > 0
        &&& forall|i: int|
            0 <= i < self.interface_defs.len() ==> (#[trigger] self.interface_defs[i]).loc > 0
        &&& forall|i: int| 0 <= i < self.impl_blocks.len() ==> (#[trigger] self.impl_blocks[i]).loc > 0
        &&& forall|i: int| 0 <= i < self.consts.len() ==> (#[trigger] self.consts[i]).loc > 0
        &&& forall|i: int| 0 <= i < self.statics.len() ==> (#[trigger] self.statics[i]).loc > 0
        &&& forall|i: int|
            0 <= i < self.function_summaries.len() ==> (
            #[trigger] self.function_summaries[i]).loc > 0
    }
}

/// The name under which a method of an implementation block is ranked:
/// `Trait for Type::method`, or `Type::method` for a block without a trait.
pub open spec fn impl_method_display(context: ImplContextView, method: Seq<char>) -> Seq<char> {
    match context.trait_name {
        Some(trait_name) => trait_name + " for "@ + context.target + "::"@ + method,
        None => context.target + "::"@ + method,
    }
}

/// The name under which a default method of a trait is ranked:
/// `interface Trait::method`.
pub open spec fn trait_method_display(trait_name: Seq<char>, method: Seq<char>) -> Seq<char> {
    "interface "@ + trait_name + "::"@ + method
}

/// One entry for the ranking, if there is a count.
pub open spec fn ranking_entry(name: Seq<char>, loc: Option<nat>) -> CollectorPartsView {
    match loc {
        Some(n) => CollectorPartsView {
            function_summaries: seq![NamedLocView { name, loc: n }],
            ..CollectorPartsView::empty()
        },
        None => CollectorPartsView::empty(),
    }
}

/// What a node contributes by itself, its children aside, when its span
/// measures `loc` and it stands inside the implementation block `impl_ctx` and
/// the trait `trait_ctx`.
pub open spec fn node_entries(
    kind: NodeKind,
    loc: Option<nat>,
    impl_ctx: Option<ImplContextView>,
    trait_ctx: Option<Seq<char>>,
) -> CollectorPartsView {
    let nothing = CollectorPartsView::empty();
    match loc {
        None => nothing,
        Some(n) => match kind {
            NodeKind::Function { name, is_test } => {
                let entry = NamedLocView { name: name@, loc: n };
                if is_test {
                    CollectorPartsView {
                        test_functions: seq![entry],
                        function_summaries: seq![entry],
                        ..nothing
                    }
                } else {
                    CollectorPartsView {
                        file_scope_functions: seq![entry],
                        function_summaries: seq![entry],
                        ..nothing
                    }
                }
            },
            NodeKind::ImplBlock { target, trait_name } => CollectorPartsView {
                impl_blocks: seq![
                    ImplBlockLocView { target: target@, trait_name: option_text(trait_name), loc: n },
                ],
                ..nothing
            },
            NodeKind::ImplMethod { name } => match impl_ctx {
                Some(context) => CollectorPartsView {
                    impl_methods: seq![
                        ImplMethodLocView {
                            impl_target: context.target,
                            trait_name: context.trait_name,
                            method_name: name@,
                            loc: n,
                        },
                    ],
                    function_summaries: seq![
                        NamedLocView { name: impl_method_display(context, name@), loc: n },
                    ],
                    ..nothing
                },
                None => nothing,
            },
            NodeKind::Trait { name } => CollectorPartsView {
                interface_defs: seq![NamedLocView { name: name@, loc: n }],
                ..nothing
            },
            NodeKind::TraitMethod { name, has_default } => match trait_ctx {
                Some(trait_name) => if has_default {
                    CollectorPartsView {
                        trait_methods: seq![
                            TraitMethodLocView { trait_name, method_name: name@, loc: n },
                        ],
                        function_summaries: seq![
                            NamedLocView { name: trait_method_display(trait_name, name@), loc: n },
                        ],
                        ..nothing
                    }
                } else {
                    nothing
                },
                None => nothing,
            },
            NodeKind::Struct { name } => CollectorPartsView {
                aggregate_type_defs: seq![NamedLocView { name: name@, loc: n }],
                ..nothing
            },
            NodeKind::Enum { name } => CollectorPartsView {
                sum_type_defs: seq![NamedLocView { name: name@, loc: n }],
                ..nothing
            },
            NodeKind::Const { name } => CollectorPartsView {
                consts: seq![NamedLocView { name: name@, loc: n }],
                ..nothing
            },
            NodeKind::Static { name } => CollectorPartsView {
                statics: seq![NamedLocView { name: name@, loc: n }],
                ..nothing
            },
            NodeKind::Scope => nothing,
        },
    }
}

/// The implementation block that the children of a node stand in.
pub open spec fn inner_impl_ctx(kind: NodeKind, impl_ctx: Option<ImplContextView>) -> Option<
    ImplContextView,
> {
    match kind {
        NodeKind::ImplBlock { target, trait_name } => Some(
            ImplContextView { target: target@, trait_name: option_text(trait_name) },
        ),
        _ => impl_ctx,
    }
}

/// The trait that the children of a node stand in.
pub open spec fn inner_trait_ctx(kind: NodeKind, trait_ctx: Option<Seq<char>>) -> Option<
    Seq<char>,
> {
    match kind {
        NodeKind::Trait { name } => Some(name@),
        _ => trait_ctx,
    }
}

/// What the walk measures in an element of the given kind, span and children:
/// its own entries first, then those of its children in order. An element
/// without a count still has its children measured.
pub open spec fn measure_element(
    lines: Seq<bool>,
    kind: NodeKind,
    span: Span,
    children: Seq<Node>,
    impl_ctx: Option<ImplContextView>,
    trait_ctx: Option<Seq<char>>,
) -> CollectorPartsView
    decreases children, 1nat,
{
    let loc = span_loc(lines, span.start_line as nat, span.end_line as nat);
    node_entries(kind, loc, impl_ctx, trait_ctx).concat(
        measure_forest(
            lines,
            children,
            inner_impl_ctx(kind, impl_ctx),
            inner_trait_ctx(kind, trait_ctx),
        ),
    )
}

/// What the walk measures in a sequence of sibling nodes.
pub open spec fn measure_forest(
    lines: Seq<bool>,
    nodes: Seq<Node>,
    impl_ctx: Option<ImplContextView>,
    trait_ctx: Option<Seq<char>>,
) -> CollectorPartsView
    decreases nodes, 0nat,
{
    if nodes.len() == 0 {
        CollectorPartsView::empty()
    } else {
        measure_forest(lines, nodes.drop_last(), impl_ctx, trait_ctx).concat(
            measure_element(
                lines,
                nodes.last().kind,
                nodes.last().span,
                nodes.last().children@,
                impl_ctx,
                trait_ctx,
            ),
        )
    }
}

/// What the walk measures in the tree under `node`.
pub open spec fn measure_tree(
    lines: Seq<bool>,
    node: Node,
    impl_ctx: Option<ImplContextView>,
    trait_ctx: Option<Seq<char>>,
) -> CollectorPartsView {
    measure_element(lines, node.kind, node.span, node.children@, impl_ctx, trait_ctx)
}

/// Joining what was measured is associative.
pub proof fn lemma_concat_assoc(a: CollectorPartsView, b: CollectorPartsView, c: CollectorPartsView)
    ensures
        a.concat(b).concat(c) == a.concat(b.concat(c)),
{
    assert(a.concat(b).concat(c) =~= a.concat(b.concat(c)));
}

/// Joining with nothing changes nothing.
pub proof fn lemma_concat_empty(a: CollectorPartsView)
    ensures
        a.concat(CollectorPartsView::empty()) == a,
        CollectorPartsView::empty().concat(a) == a,
{
    assert(a.concat(CollectorPartsView::empty()) =~= a);
    assert(CollectorPartsView::empty().concat(a) =~= a);
}

/// Appends an entry to a list of named line counts.
fn push_named(list: &mut Vec<NamedLoc>, name: &str, loc: usize)
    ensures
        views(final(list)@) == views(old(list)@).push(
            NamedLocView { name: name@, loc: loc as nat },
        ),
{
    let entry = NamedLoc { name: String::from_str(name), loc };
    list.push(entry);
    assert(views(list@) =~= views(old(list)@).push(
        NamedLocView { name: name@, loc: loc as nat },
    ));
}

/// Builds the name under which a method of an implementation block is ranked.
pub fn qualify_impl_method(context: &ImplContext, method: &str) -> (display: String)
    ensures
        display@ == impl_method_display(context@, method@),
{
    match &context.trait_name {
        Some(trait_name) => {
            let mut display = trait_name.clone();
            display.append(" for ");
            display.append(context.target.as_str());
            display.append("::");
            display.append(method);
            display
        },
        None => {
            let mut display = context.target.clone();
            display.append("::");
            display.append(method);
            display
        },
    }
}

/// Builds the name under which a default method of a trait is ranked.
pub fn qualify_trait_method(trait_name: &str, method: &str) -> (display: String)
    ensures
        display@ == trait_method_display(trait_name@, method@),
{
    let mut display = String::from_str("interface ");
    display.append(trait_name);
    display.append("::");
    display.append(method);
    display
}

/// The definitions that are listed under their own name and not ranked.
#[derive(Clone, Copy)]
enum Definition {
    Struct,
    Enum,
    Const,
    Static,
}

impl Definition {
    /// The kind of node that stands for such a definition named `name`.
    spec fn kind(self, name: String) -> NodeKind {
        match self {
            Definition::Struct => NodeKind::Struct { name },
            Definition::Enum => NodeKind::Enum { name },
            Definition::Const => NodeKind::Const { name },
            Definition::Static => NodeKind::Static { name },
        }
    }
}

/// Walks a syntax tree and gathers what it measures.
pub struct ItemCollector {
    lines: Vec<bool>,
    parts: CollectorParts,
    impl_stack: Vec<ImplContext>,
    trait_stack: Vec<String>,
}

impl ItemCollector {
    /// For each line of the file, whether it carries content.
    pub closed spec fn lines(&self) -> Seq<bool> {
        self.lines@
    }

    /// What has been measured so far.
    pub closed spec fn parts(&self) -> CollectorPartsView {
        self.parts@
    }

    /// The implementation blocks around the current position, outermost
    /// first.
    pub closed spec fn impl_contexts(&self) -> Seq<ImplContext> {
        self.impl_stack@
    }

    /// The traits around the current position, outermost first.
    pub closed spec fn trait_names(&self) -> Seq<String> {
        self.trait_stack@
    }

    /// The innermost implementation block around the current position.
    pub open spec fn impl_top(&self) -> Option<ImplContextView> {
        if self.impl_contexts().len() == 0 {
            None
        } else {
            Some(self.impl_contexts().last()@)
        }
    }

    /// The innermost trait around the current position.
    pub open spec fn trait_top(&self) -> Option<Seq<char>> {
        if self.trait_names().len() == 0 {
            None
        } else {
            Some(self.trait_names().last()@)
        }
    }

    /// Whether `self` differs from `before` in nothing but what it has
    /// measured.
    pub open spec fn same_position(&self, before: &ItemCollector) -> bool {
        &&& self.lines() == before.lines()
        &&& self.impl_contexts() == before.impl_contexts()
        &&& self.trait_names() == before.trait_names()
    }

    /// A collector for a file with the given text, outside any block or
    /// trait, with nothing measured yet.
    pub fn new(source: &str) -> (collector: ItemCollector)
        ensures
            collector.lines() == content_flags(source@),
            collector.parts() == CollectorPartsView::empty(),
            collector.impl_contexts().len() == 0,
            collector.trait_names().len() == 0,
    {
        let collector = ItemCollector {
            lines: content_lines(source),
            parts: CollectorParts {
                file_scope_functions: Vec::new(),
                impl_methods: Vec::new(),
                trait_methods: Vec::new(),
                test_functions: Vec::new(),
                aggregate_type_defs: Vec::new(),
                sum_type_defs: Vec::new(),
                interface_defs: Vec::new(),
                impl_blocks: Vec::new(),
                consts: Vec::new(),
                statics: Vec::new(),
                function_summaries: Vec::new(),
            },
            impl_stack: Vec::new(),
            trait_stack: Vec::new(),
        };
        assert(collector.parts@ =~= CollectorPartsView::empty());
        collector
    }

    /// Hands out what was measured.
    pub fn finish(self) -> (parts: CollectorParts)
        ensures
            parts@ == self.parts(),
    {
        self.parts
    }

    /// The line count of `span`, if it has one.
    pub fn record_loc(&self, span: &Span) -> (loc: Option<usize>)
        ensures
            option_nat(loc) == span_loc(
                self.lines(),
                span.start_line as nat,
                span.end_line as nat,
            ),
    {
        measure_span(&self.lines, span)
    }

    /// Measures `span` and, if it has a count, enters it in the ranking under
    /// `name`.
    pub fn push_function_summary(&mut self, name: &str, span: &Span) -> (loc: Option<usize>)
        ensures
            option_nat(loc) == span_loc(
                old(self).lines(),
                span.start_line as nat,
                span.end_line as nat,
            ),
            final(self).same_position(old(self)),
            final(self).parts() == old(self).parts().concat(ranking_entry(name@, option_nat(loc))),
    {
        let loc = self.record_loc(span);
        match loc {
            Some(n) => {
                push_named(&mut self.parts.function_summaries, name, n);
            },
            None => {},
        }
        assert(self.parts@ =~= old(self).parts@.concat(ranking_entry(name@, option_nat(loc))));
        loc
    }

    /// Measures a free function and what it holds. A function with a count
    /// is entered in the ranking and, by its test marker, among the test
    /// functions or the file-scope functions.
    pub fn visit_item_fn(&mut self, name: &String, is_test: bool, span: &Span, children: &Vec<Node>)
        ensures
            final(self).same_position(old(self)),
            final(self).parts() == old(self).parts().concat(
                measure_element(
                    old(self).lines(),
                    NodeKind::Function { name: *name, is_test },
                    *span,
                    children@,
                    old(self).impl_top(),
                    old(self).trait_top(),
                ),
            ),
        decreases children, 1nat,
    {
        let ghost kind = NodeKind::Function { name: *name, is_test };
        let ghost own = node_entries(
            kind,
            span_loc(self.lines(), span.start_line as nat, span.end_line as nat),
            self.impl_top(),
            self.trait_top(),
        );
        match self.push_function_summary(name.as_str(), span) {
            Some(loc) => {
                if is_test {
                    push_named(&mut self.parts.test_functions, name.as_str(), loc);
                } else {
                    push_named(&mut self.parts.file_scope_functions, name.as_str(), loc);
                }
            },
            None => {},
        }
        assert(self.parts@ =~= old(self).parts@.concat(own));
        let ghost forest = measure_forest(
            self.lines(),
            children@,
            self.impl_top(),
            self.trait_top(),
        );
        self.visit_children(children);
        proof {
            lemma_concat_assoc(old(self).parts(), own, forest);
        }
    }

    /// Measures a definition that is entered in one list under its own name,
    /// and what it holds.
    fn visit_definition(
        &mut self,
        which: Definition,
        name: &String,
        span: &Span,
        children: &Vec<Node>,
    )
        ensures
            final(self).same_position(old(self)),
            final(self).parts() == old(self).parts().concat(
                measure_element(
                    old(self).lines(),
                    which.kind(*name),
                    *span,
                    children@,
                    old(self).impl_top(),
                    old(self).trait_top(),
                ),
            ),
        decreases children, 1nat,
    {
        let ghost own = node_entries(
            which.kind(*name),
            span_loc(self.lines(), span.start_line as nat, span.end_line as nat),
            self.impl_top(),
            self.trait_top(),
        );
        match self.record_loc(span) {
            Some(loc) => {
                match which {
                    Definition::Struct => {
                        push_named(&mut self.parts.aggregate_type_defs, name.as_str(), loc);
                    },
                    Definition::Enum => {
                        push_named(&mut self.parts.sum_type_defs, name.as_str(), loc);
                    },
                    Definition::Const => {
                        push_named(&mut self.parts.consts, name.as_str(), loc);
                    },
                    Definition::Static => {
                        push_named(&mut self.parts.statics, name.as_str(), loc);
                    },
                }
            },
            None => {},
        }
        assert(self.parts@ =~= old(self).parts@.concat(own));
        let ghost forest = measure_forest(
            self.lines(),
            children@,
            self.impl_top(),
            self.trait_top(),
        );
        self.visit_children(children);
        proof {
            lemma_concat_assoc(old(self).parts(), own, forest);
        }
    }

    /// Measures a struct definition and what it holds.
    pub fn visit_item_struct(&mut self, name: &String, span: &Span, children: &Vec<Node>)
        ensures
            final(self).same_position(old(self)),
            final(self).parts() == old(self).parts().concat(
                measure_element(
                    old(self).lines(),
                    NodeKind::Struct { name: *name },
                    *span,
                    children@,
                    old(self).impl_top(),
                    old(self).trait_top(),
                ),
            ),
        decreases children, 2nat,
    {
        self.visit_definition(Definition::Struct, name, span, children);
    }

    /// Measures an enum definition and what it holds.
    pub fn visit_item_enum(&mut self, name: &String, span: &Span, children: &Vec<Node>)
        ensures
            final(self).same_position(old(self)),
            final(self).parts() == old(self).parts().concat(
                measure_element(
                    old(self).lines(),
                    NodeKind::Enum { name: *name },
                    *span,
                    children@,
                    old(self).impl_top(),
                    old(self).trait_top(),
                ),
            ),
        decreases children, 2nat,
    {
        self.visit_definition(Definition::Enum, name, span, children);
    }

    /// Measures a constant and what it holds.
    pub fn visit_item_const(&mut self, name: &String, span: &Span, children: &Vec<Node>)
        ensures
            final(self).same_position(old(self)),
            final(self).parts() == old(self).parts().concat(
                measure_element(
                    old(self).lines(),
                    NodeKind::Const { name: *name },
                    *span,
                    children@,
                    old(self).impl_top(),
                    old(self).trait_top(),
                ),
            ),
        decreases children, 2nat,
    {
        self.visit_definition(Definition::Const, name, span, children);
    }

    /// Measures a static and what it holds.
    pub fn visit_item_static(&mut self, name: &String, span: &Span, children: &Vec<Node>)
        ensures
            final(self).same_position(old(self)),
            final(self).parts() == old(self).parts().concat(
                measure_element(
                    old(self).lines(),
                    NodeKind::Static { name: *name },
                    *span,
                    children@,
                    old(self).impl_top(),
                    old(self).trait_top(),
                ),
            ),
        decreases children, 2nat,
    {
        self.visit_definition(Definition::Static, name, span, children);
    }

    /// Measures a trait declaration, then what it holds with the trait as
    /// the innermost one, and leaves the trait again.
    pub fn visit_item_trait(&mut self, name: &String, span: &Span, children: &Vec<Node>)
        ensures
            final(self).same_position(old(self)),
            final(self).parts() == old(self).parts().concat(
                measure_element(
                    old(self).lines(),
                    NodeKind::Trait { name: *name },
                    *span,
                    children@,
                    old(self).impl_top(),
                    old(self).trait_top(),
                ),
            ),
        decreases children, 1nat,
    {
        let ghost kind = NodeKind::Trait { name: *name };
        let ghost own = node_entries(
            kind,
            span_loc(self.lines(), span.start_line as nat, span.end_line as nat),
            self.impl_top(),
            self.trait_top(),
        );
        match self.record_loc(span) {
            Some(loc) => {
                push_named(&mut self.parts.interface_defs, name.as_str(), loc);
            },
            None => {},
        }
        assert(self.parts@ =~= old(self).parts@.concat(own));
        self.trait_stack.push(name.clone());
        let ghost forest = measure_forest(
            self.lines(),
            children@,
            self.impl_top(),
            self.trait_top(),
        );
        self.visit_children(children);
        self.trait_stack.pop();
        proof {
            assert(self.trait_stack@ =~= old(self).trait_stack@);
            lemma_concat_assoc(old(self).parts(), own, forest);
        }
    }

    /// Measures a method that a trait declares, and what it holds. Only a
    /// method with a default body, inside a trait, is entered: in the
    /// ranking and among the trait methods of the innermost trait.
    pub fn visit_trait_item_fn(
        &mut self,
        name: &String,
        has_default: bool,
        span: &Span,
        children: &Vec<Node>,
    )
        ensures
            final(self).same_position(old(self)),
            final(self).parts() == old(self).parts().concat(
                measure_element(
                    old(self).lines(),
                    NodeKind::TraitMethod { name: *name, has_default },
                    *span,
                    children@,
                    old(self).impl_top(),
                    old(self).trait_top(),
                ),
            ),
        decreases children, 1nat,
    {
        let ghost kind = NodeKind::TraitMethod { name: *name, has_default };
        let ghost own = node_entries(
            kind,
            span_loc(self.lines(), span.start_line as nat, span.end_line as nat),
            self.impl_top(),
            self.trait_top(),
        );
        if has_default && self.trait_stack.len() > 0 {
            let trait_name = self.trait_stack[self.trait_stack.len() - 1].clone();
            let display = qualify_trait_method(trait_name.as_str(), name.as_str());
            match self.push_function_summary(display.as_str(), span) {
                Some(loc) => {
                    let entry = TraitMethodLoc { trait_name, method_name: name.clone(), loc };
                    self.parts.trait_methods.push(entry);
                },
                None => {},
            }
        }
        assert(self.parts@ =~= old(self).parts@.concat(own));
        let ghost forest = measure_forest(
            self.lines(),
            children@,
            self.impl_top(),
            self.trait_top(),
        );
        self.visit_children(children);
        proof {
            lemma_concat_assoc(old(self).parts(), own, forest);
        }
    }

    /// Measures an implementation block, then what it holds with the block
    /// as the innermost one, and leaves the block again. The block becomes
    /// the innermost one whether or not it has a count itself.
    pub fn visit_item_impl(
        &mut self,
        target: &String,
        trait_name: &Option<String>,
        span: &Span,
        children: &Vec<Node>,
    )
        ensures
            final(self).same_position(old(self)),
            final(self).parts() == old(self).parts().concat(
                measure_element(
                    old(self).lines(),
                    NodeKind::ImplBlock { target: *target, trait_name: *trait_name },
                    *span,
                    children@,
                    old(self).impl_top(),
                    old(self).trait_top(),
                ),
            ),
        decreases children, 1nat,
    {
        let ghost kind = NodeKind::ImplBlock { target: *target, trait_name: *trait_name };
        let ghost own = node_entries(
            kind,
            span_loc(self.lines(), span.start_line as nat, span.end_line as nat),
            self.impl_top(),
            self.trait_top(),
        );
        match self.record_loc(span) {
            Some(loc) => {
                let entry = ImplBlockLoc {
                    target: target.clone(),
                    trait_name: trait_name.clone(),
                    loc,
                };
                self.parts.impl_blocks.push(entry);
            },
            None => {},
        }
        assert(self.parts@ =~= old(self).parts@.concat(own));
        self.impl_stack.push(
            ImplContext { target: target.clone(), trait_name: trait_name.clone() },
        );
        let ghost forest = measure_forest(
            self.lines(),
            children@,
            self.impl_top(),
            self.trait_top(),
        );
        self.visit_children(children);
        self.impl_stack.pop();
        proof {
            assert(self.impl_stack@ =~= old(self).impl_stack@);
            lemma_concat_assoc(old(self).parts(), own, forest);
        }
    }

    /// Measures a method of an implementation block, and what it holds. A
    /// method with a count, inside a block, is entered in the ranking and
    /// among the implementation methods of the innermost block.
    pub fn visit_impl_item_fn(&mut self, name: &String, span: &Span, children: &Vec<Node>)
        ensures
            final(self).same_position(old(self)),
            final(self).parts() == old(self).parts().concat(
                measure_element(
                    old(self).lines(),
                    NodeKind::ImplMethod { name: *name },
                    *span,
                    children@,
                    old(self).impl_top(),
                    old(self).trait_top(),
                ),
            ),
        decreases children, 1nat,
    {
        let ghost kind = NodeKind::ImplMethod { name: *name };
        let ghost own = node_entries(
            kind,
            span_loc(self.lines(), span.start_line as nat, span.end_line as nat),
            self.impl_top(),
            self.trait_top(),
        );
        if self.impl_stack.len() > 0 {
            let context = &self.impl_stack[self.impl_stack.len() - 1];
            let impl_target = context.target.clone();
            let trait_name = context.trait_name.clone();
            let display = qualify_impl_method(context, name.as_str());
            match self.push_function_summary(display.as_str(), span) {
                Some(loc) => {
                    let entry = ImplMethodLoc {
                        impl_target,
                        trait_name,
                        method_name: name.clone(),
                        loc,
                    };
                    self.parts.impl_methods.push(entry);
                },
                None => {},
            }
        }
        assert(self.parts@ =~= old(self).parts@.concat(own));
        let ghost forest = measure_forest(
            self.lines(),
            children@,
            self.impl_top(),
            self.trait_top(),
        );
        self.visit_children(children);
        proof {
            lemma_concat_assoc(old(self).parts(), own, forest);
        }
    }

    /// Measures each of `children` in order.
    pub fn visit_children(&mut self, children: &Vec<Node>)
        ensures
            final(self).same_position(old(self)),
            final(self).parts() == old(self).parts().concat(
                measure_forest(
                    old(self).lines(),
                    children@,
                    old(self).impl_top(),
                    old(self).trait_top(),
                ),
            ),
        decreases children, 0nat,
    {
        let mut i: usize = 0;
        proof {
            lemma_concat_empty(self.parts());
        }
        while i < children.len()
            invariant
                i <= children.len(),
                self.same_position(old(self)),
                self.parts() == old(self).parts().concat(
                    measure_forest(
                        old(self).lines(),
                        children@.take(i as int),
                        old(self).impl_top(),
                        old(self).trait_top(),
                    ),
                ),
            decreases children.len() - i,
        {
            let ghost done = measure_forest(
                self.lines(),
                children@.take(i as int),
                self.impl_top(),
                self.trait_top(),
            );
            let ghost next = measure_tree(
                self.lines(),
                children@[i as int],
                self.impl_top(),
                self.trait_top(),
            );
            self.visit_node(&children[i]);
            proof {
                assert(children@.take(i + 1).drop_last() =~= children@.take(i as int));
                assert(children@.take(i + 1).last() == children@[i as int]);
                lemma_concat_assoc(old(self).parts(), done, next);
            }
            i = i + 1;
        }
        assert(children@.take(i as int) =~= children@);
    }

    /// Measures the tree under `node`: the node itself by its kind, then its
    /// children. The collector ends where it began, with what the tree holds
    /// added to what it had measured.
    pub fn visit_node(&mut self, node: &Node)
        ensures
            final(self).same_position(old(self)),
            final(self).parts() == old(self).parts().concat(
                measure_tree(old(self).lines(), *node, old(self).impl_top(), old(self).trait_top()),
            ),
        decreases node, 0nat,
    {
        match &node.kind {
            NodeKind::Function { name, is_test } => {
                self.visit_item_fn(name, *is_test, &node.span, &node.children);
            },
            NodeKind::ImplBlock { target, trait_name } => {
                self.visit_item_impl(target, trait_name, &node.span, &node.children);
            },
            NodeKind::ImplMethod { name } => {
                self.visit_impl_item_fn(name, &node.span, &node.children);
            },
            NodeKind::Trait { name } => {
                self.visit_item_trait(name, &node.span, &node.children);
            },
            NodeKind::TraitMethod { name, has_default } => {
                self.visit_trait_item_fn(name, *has_default, &node.span, &node.children);
            },
            NodeKind::Struct { name } => {
                self.visit_item_struct(name, &node.span, &node.children);
            },
            NodeKind::Enum { name } => {
                self.visit_item_enum(name, &node.span, &node.children);
            },
            NodeKind::Const { name } => {
                self.visit_item_const(name, &node.span, &node.children);
            },
            NodeKind::Static { name } => {
                self.visit_item_static(name, &node.span, &node.children);
            },
            NodeKind::Scope => {
                proof {
                    lemma_concat_empty(
                        measure_forest(
                            self.lines(),
                            node.children@,
                            self.impl_top(),
                            self.trait_top(),
                        ),
                    );
                }
                self.visit_children(&node.children);
            },
        }
    }
}

} // verus!
