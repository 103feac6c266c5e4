//! Narrowing a report to the files and functions that exceed given limits.
//!
//! A function or method offends when its count is larger than the limit per
//! function; a file offends when its total is larger than the limit per file
//! or when it holds an offending function or method. Only the lists of
//! functions and methods are narrowed: the ranking, the definitions and the
//! total of a file stay as they were.

use vstd::prelude::*;
use crate::summary::{
    views, FileLocSummary, FileLocSummaryView, ImplMethodLoc,
    ImplMethodLocView, NamedLoc, NamedLocView, ScannedFile, ScannedFileView, TraitMethodLoc,
    TraitMethodLocView,
};

verus! {

/// The limits above which a file or a function offends.
#[derive(Clone, Copy, Debug, PartialEq, Eq)]
pub struct OffenderFilter {
    pub max_loc_per_file: usize,
    pub max_loc_per_fn: usize,
}

impl OffenderFilter {
    /// A filter with the given limits.
    pub fn new(max_loc_per_file: usize, max_loc_per_fn: usize) -> (filter: OffenderFilter)
        ensures
            filter.max_loc_per_file == max_loc_per_file,
            filter.max_loc_per_fn == max_loc_per_fn,
    {
        OffenderFilter { max_loc_per_file, max_loc_per_fn }
    }
}

/// The entries whose count is larger than `limit`, in their order.
pub open spec fn offending_named(entries: Seq<NamedLocView>, limit: nat) -> Seq<NamedLocView> {
    entries.filter(|e: NamedLocView| e.loc > limit)
}

/// The implementation methods whose count is larger than `limit`, in their
/// order.
pub open spec fn offending_impl_methods(entries: Seq<ImplMethodLocView>, limit: nat) -> Seq<
    ImplMethodLocView,
> {
    entries.filter(|e: ImplMethodLocView| e.loc > limit)
}

/// The trait methods whose count is larger than `limit`, in their order.
pub open spec fn offending_trait_methods(entries: Seq<TraitMethodLocView>, limit: nat) -> Seq<
    TraitMethodLocView,
> {
    entries.filter(|e: TraitMethodLocView| e.loc > limit)
}

/// A summary with its four lists of functions and methods narrowed to the
/// entries above `limit`, and everything else unchanged.
pub open spec fn narrowed(summary: FileLocSummaryView, limit: nat) -> FileLocSummaryView {
    FileLocSummaryView {
        file_scope_functions: offending_named(summary.file_scope_functions, limit),
        impl_methods: offending_impl_methods(summary.impl_methods, limit),
        trait_methods: offending_trait_methods(summary.trait_methods, limit),
        test_functions: offending_named(summary.test_functions, limit),
        ..summary
    }
}

/// Whether one of the four lists of functions and methods holds an entry.
pub open spec fn has_function_offenders(summary: FileLocSummaryView) -> bool {
    ||| summary.file_scope_functions.len() > 0
    ||| summary.impl_methods.len() > 0
    ||| summary.trait_methods.len() > 0
    ||| summary.test_functions.len() > 0
}

/// Whether a file with this summary stays in the report under the limits
/// `max_file` per file and `max_fn` per function.
pub open spec fn retained(summary: FileLocSummaryView, max_file: nat, max_fn: nat) -> bool {
    summary.total_loc > max_file || has_function_offenders(narrowed(summary, max_fn))
}

/// A file with its summary narrowed.
pub open spec fn narrowed_file(file: ScannedFileView, limit: nat) -> ScannedFileView {
    ScannedFileView { relative_path: file.relative_path, summary: narrowed(file.summary, limit) }
}

/// The report narrowed to the limits: the files that stay, in their order,
/// each with its summary narrowed.
pub open spec fn offenders(files: Seq<ScannedFileView>, max_file: nat, max_fn: nat) -> Seq<
    ScannedFileView,
> {
    files.filter(|f: ScannedFileView| retained(f.summary, max_file, max_fn)).map_values(
        |f: ScannedFileView| narrowed_file(f, max_fn),
    )
}

/// The counts of all functions and methods of a summary: file-scope
/// functions, implementation methods, trait methods and test functions.
pub open spec fn callable_locs(summary: FileLocSummaryView) -> Seq<nat> {
    summary.file_scope_functions.map_values(|e: NamedLocView| e.loc)
        + summary.impl_methods.map_values(|e: ImplMethodLocView| e.loc)
        + summary.trait_methods.map_values(|e: TraitMethodLocView| e.loc)
        + summary.test_functions.map_values(|e: NamedLocView| e.loc)
}

/// Something passes a filter exactly if some entry meets the condition.
pub proof fn lemma_filter_nonempty<A>(entries: Seq<A>, keep: spec_fn(A) -> bool)
    ensures
        entries.filter(keep).len() > 0 <==> exists|i: int|
            0 <= i < entries.len() && keep(#[trigger] entries[i]),
    decreases entries.len(),
{
    reveal(Seq::filter);
    if entries.len() > 0 {
        let front = entries.drop_last();
        lemma_filter_nonempty(front, keep);
        if exists|i: int| 0 <= i < entries.len() && keep(#[trigger] entries[i]) {
            let i = choose|i: int| 0 <= i < entries.len() && keep(#[trigger] entries[i]);
            if i < entries.len() - 1 {
                assert(keep(front[i]));
            }
        }
        if front.filter(keep).len() > 0 {
            let i = choose|i: int| 0 <= i < front.len() && keep(#[trigger] front[i]);
            assert(keep(entries[i]));
        }
    }
}

/// A stricter condition lets no more entries pass.
pub proof fn lemma_filter_len_monotone<A>(
    entries: Seq<A>,
    strict: spec_fn(A) -> bool,
    loose: spec_fn(A) -> bool,
)
    requires
        forall|x: A| #[trigger] strict(x) ==> loose(x),
    ensures
        entries.filter(strict).len() <= entries.filter(loose).len(),
    decreases entries.len(),
{
    reveal(Seq::filter);
    if entries.len() > 0 {
        lemma_filter_len_monotone(entries.drop_last(), strict, loose);
    }
}

/// A file stays in the report exactly if its total is larger than the limit
/// per file or one of its functions and methods has a count larger than the
/// limit per function.
pub proof fn lemma_retention(summary: FileLocSummaryView, max_file: nat, max_fn: nat)
    ensures
        retained(summary, max_file, max_fn) <==> (summary.total_loc > max_file || exists|i: int|
            0 <= i < callable_locs(summary).len() && #[trigger] callable_locs(summary)[i] > max_fn),
{
    let named = |e: NamedLocView| e.loc > max_fn;
    let method = |e: ImplMethodLocView| e.loc > max_fn;
    let default = |e: TraitMethodLocView| e.loc > max_fn;
    let a = summary.file_scope_functions;
    let b = summary.impl_methods;
    let c = summary.trait_methods;
    let d = summary.test_functions;
    let locs = callable_locs(summary);
    lemma_filter_nonempty(a, named);
    lemma_filter_nonempty(b, method);
    lemma_filter_nonempty(c, default);
    lemma_filter_nonempty(d, named);
    if has_function_offenders(narrowed(summary, max_fn)) {
        if a.filter(named).len() > 0 {
            let i = choose|i: int| 0 <= i < a.len() && named(#[trigger] a[i]);
            assert(locs[i] == a[i].loc);
        } else if b.filter(method).len() > 0 {
            let i = choose|i: int| 0 <= i < b.len() && method(#[trigger] b[i]);
            assert(locs[a.len() + i] == b[i].loc);
        } else if c.filter(default).len() > 0 {
            let i = choose|i: int| 0 <= i < c.len() && default(#[trigger] c[i]);
            assert(locs[a.len() + b.len() + i] == c[i].loc);
        } else {
            let i = choose|i: int| 0 <= i < d.len() && named(#[trigger] d[i]);
            assert(locs[a.len() + b.len() + c.len() + i] == d[i].loc);
        }
    }
    if exists|i: int| 0 <= i < locs.len() && #[trigger] locs[i] > max_fn {
        let i = choose|i: int| 0 <= i < locs.len() && #[trigger] locs[i] > max_fn;
        if i < a.len() {
            assert(named(a[i]));
        } else if i < a.len() + b.len() {
            assert(method(b[i - a.len()]));
        } else if i < a.len() + b.len() + c.len() {
            assert(default(c[i - a.len() - b.len()]));
        } else {
            assert(named(d[i - a.len() - b.len() - c.len()]));
        }
    }
}

/// A file that stays under higher limits stays under lower ones.
pub proof fn lemma_retained_monotone(
    summary: FileLocSummaryView,
    max_file: nat,
    max_fn: nat,
    higher_max_file: nat,
    higher_max_fn: nat,
)
    requires
        max_file <= higher_max_file,
        max_fn <= higher_max_fn,
        retained(summary, higher_max_file, higher_max_fn),
    ensures
        retained(summary, max_file, max_fn),
{
    lemma_retention(summary, max_file, max_fn);
    lemma_retention(summary, higher_max_file, higher_max_fn);
}

/// Raising a limit never lets the narrowed report grow: it holds no more
/// files, and each list of functions and methods holds no more entries.
pub proof fn lemma_offenders_monotone(
    files: Seq<ScannedFileView>,
    max_file: nat,
    max_fn: nat,
    higher_max_file: nat,
    higher_max_fn: nat,
)
    requires
        max_file <= higher_max_file,
        max_fn <= higher_max_fn,
    ensures
        offenders(files, higher_max_file, higher_max_fn).len() <= offenders(
            files,
            max_file,
            max_fn,
        ).len(),
        forall|summary: FileLocSummaryView|
            {
                let low = #[trigger] narrowed(summary, max_fn);
                let high = narrowed(summary, higher_max_fn);
                &&& high.file_scope_functions.len() <= low.file_scope_functions.len()
                &&& high.impl_methods.len() <= low.impl_methods.len()
                &&& high.trait_methods.len() <= low.trait_methods.len()
                &&& high.test_functions.len() <= low.test_functions.len()
            },
{
    let strict = |f: ScannedFileView| retained(f.summary, higher_max_file, higher_max_fn);
    let loose = |f: ScannedFileView| retained(f.summary, max_file, max_fn);
    assert forall|f: ScannedFileView| #[trigger] strict(f) implies loose(f) by {
        lemma_retained_monotone(f.summary, max_file, max_fn, higher_max_file, higher_max_fn);
    }
    lemma_filter_len_monotone(files, strict, loose);
    assert forall|summary: FileLocSummaryView|
        {
            let low = #[trigger] narrowed(summary, max_fn);
            let high = narrowed(summary, higher_max_fn);
            &&& high.file_scope_functions.len() <= low.file_scope_functions.len()
            &&& high.impl_methods.len() <= low.impl_methods.len()
            &&& high.trait_methods.len() <= low.trait_methods.len()
            &&& high.test_functions.len() <= low.test_functions.len()
        } by {
        lemma_filter_len_monotone(
            summary.file_scope_functions,
            |e: NamedLocView| e.loc > higher_max_fn,
            |e: NamedLocView| e.loc > max_fn,
        );
        lemma_filter_len_monotone(
            summary.test_functions,
            |e: NamedLocView| e.loc > higher_max_fn,
            |e: NamedLocView| e.loc > max_fn,
        );
        lemma_filter_len_monotone(
            summary.impl_methods,
            |e: ImplMethodLocView| e.loc > higher_max_fn,
            |e: ImplMethodLocView| e.loc > max_fn,
        );
        lemma_filter_len_monotone(
            summary.trait_methods,
            |e: TraitMethodLocView| e.loc > higher_max_fn,
            |e: TraitMethodLocView| e.loc > max_fn,
        );
    }
}

/// What one more file adds to the narrowed report: itself, narrowed, if it
/// stays, and nothing otherwise.
pub proof fn lemma_offenders_push(
    files: Seq<ScannedFileView>,
    file: ScannedFileView,
    max_file: nat,
    max_fn: nat,
)
    ensures
        offenders(files.push(file), max_file, max_fn) == if retained(
            file.summary,
            max_file,
            max_fn,
        ) {
            offenders(files, max_file, max_fn).push(narrowed_file(file, max_fn))
        } else {
            offenders(files, max_file, max_fn)
        },
{
    reveal(Seq::filter);
    let stays = |f: ScannedFileView| retained(f.summary, max_file, max_fn);
    let narrow = |f: ScannedFileView| narrowed_file(f, max_fn);
    let all = files.push(file);
    assert(all.drop_last() =~= files);
    assert(all.last() == file);
    if retained(file.summary, max_file, max_fn) {
        assert(all.filter(stays) == files.filter(stays).push(file));
        assert(files.filter(stays).push(file).map_values(narrow) =~= files.filter(
            stays,
        ).map_values(narrow).push(narrowed_file(file, max_fn)));
    } else {
        assert(all.filter(stays) == files.filter(stays));
    }
}

/// Keeps the entries whose count is larger than `max_loc_per_fn`.
pub fn filter_named(entries: &[NamedLoc], max_loc_per_fn: usize) -> (kept: Vec<NamedLoc>)
    ensures
        views(kept@) == offending_named(views(entries@), max_loc_per_fn as nat),
{
    let ghost keep = |e: NamedLocView| e.loc > max_loc_per_fn as nat;
    let mut kept: Vec<NamedLoc> = Vec::new();
    let mut i: usize = 0;
    proof {
        reveal(Seq::filter);
        assert(views(kept@) =~= views(entries@.take(0)).filter(keep));
    }
    while i < entries.len()
        invariant
            i <= entries.len(),
            keep == |e: NamedLocView| e.loc > max_loc_per_fn as nat,
            views(kept@) == views(entries@.take(i as int)).filter(keep),
        decreases entries.len() - i,
    {
        let ghost before = views(entries@.take(i as int));
        proof {
            reveal(Seq::filter);
            let now = views(entries@.take(i + 1));
            assert(now.drop_last() =~= before);
            assert(now.last() == entries@[i as int]@);
        }
        if entries[i].loc > max_loc_per_fn {
            kept.push(entries[i].clone());
            assert(views(kept@) =~= before.filter(keep).push(entries@[i as int]@));
        }
        i = i + 1;
    }
    assert(entries@.take(i as int) =~= entries@);
    kept
}

/// Keeps the implementation methods whose count is larger than
/// `max_loc_per_fn`.
pub fn filter_impl_methods(entries: &[ImplMethodLoc], max_loc_per_fn: usize) -> (kept: Vec<
    ImplMethodLoc,
>)
    ensures
        views(kept@) == offending_impl_methods(
            views(entries@),
            max_loc_per_fn as nat,
        ),
{
    let ghost keep = |e: ImplMethodLocView| e.loc > max_loc_per_fn as nat;
    let mut kept: Vec<ImplMethodLoc> = Vec::new();
    let mut i: usize = 0;
    proof {
        reveal(Seq::filter);
        assert(views(kept@) =~= views(entries@.take(0)).filter(keep));
    }
    while i < entries.len()
        invariant
            i <= entries.len(),
            keep == |e: ImplMethodLocView| e.loc > max_loc_per_fn as nat,
            views(kept@) == views(entries@.take(i as int)).filter(keep),
        decreases entries.len() - i,
    {
        let ghost before = views(entries@.take(i as int));
        proof {
            reveal(Seq::filter);
            let now = views(entries@.take(i + 1));
            assert(now.drop_last() =~= before);
            assert(now.last() == entries@[i as int]@);
        }
        if entries[i].loc > max_loc_per_fn {
            kept.push(entries[i].clone());
            assert(views(kept@) =~= before.filter(keep).push(entries@[i as int]@));
        }
        i = i + 1;
    }
    assert(entries@.take(i as int) =~= entries@);
    kept
}

/// Keeps the trait methods whose count is larger than `max_loc_per_fn`.
pub fn filter_trait_methods(entries: &[TraitMethodLoc], max_loc_per_fn: usize) -> (kept: Vec<
    TraitMethodLoc,
>)
    ensures
        views(kept@) == offending_trait_methods(
            views(entries@),
            max_loc_per_fn as nat,
        ),
{
    let ghost keep = |e: TraitMethodLocView| e.loc > max_loc_per_fn as nat;
    let mut kept: Vec<TraitMethodLoc> = Vec::new();
    let mut i: usize = 0;
    proof {
        reveal(Seq::filter);
        assert(views(kept@) =~= views(entries@.take(0)).filter(keep));
    }
    while i < entries.len()
        invariant
            i <= entries.len(),
            keep == |e: TraitMethodLocView| e.loc > max_loc_per_fn as nat,
            views(kept@) == views(entries@.take(i as int)).filter(keep),
        decreases entries.len() - i,
    {
        let ghost before = views(entries@.take(i as int));
        proof {
            reveal(Seq::filter);
            let now = views(entries@.take(i + 1));
            assert(now.drop_last() =~= before);
            assert(now.last() == entries@[i as int]@);
        }
        if entries[i].loc > max_loc_per_fn {
            kept.push(entries[i].clone());
            assert(views(kept@) =~= before.filter(keep).push(entries@[i as int]@));
        }
        i = i + 1;
    }
    assert(entries@.take(i as int) =~= entries@);
    kept
}

/// A copy of `summary` with its four lists of functions and methods narrowed
/// to the entries above the filter's limit per function.
pub fn filter_summary(summary: &FileLocSummary, filter: &OffenderFilter) -> (kept: FileLocSummary)
    ensures
        kept@ == narrowed(summary@, filter.max_loc_per_fn as nat),
{
    let kept = FileLocSummary {
        total_loc: summary.total_loc,
        top_functions: summary.top_functions.clone(),
        file_scope_functions: filter_named(
            summary.file_scope_functions.as_slice(),
            filter.max_loc_per_fn,
        ),
        impl_methods: filter_impl_methods(summary.impl_methods.as_slice(), filter.max_loc_per_fn),
        trait_methods: filter_trait_methods(
            summary.trait_methods.as_slice(),
            filter.max_loc_per_fn,
        ),
        test_functions: filter_named(summary.test_functions.as_slice(), filter.max_loc_per_fn),
        aggregate_type_defs: summary.aggregate_type_defs.clone(),
        sum_type_defs: summary.sum_type_defs.clone(),
        interface_defs: summary.interface_defs.clone(),
        impl_blocks: summary.impl_blocks.clone(),
        consts: summary.consts.clone(),
        statics: summary.statics.clone(),
    };
    assert(kept@ =~= narrowed(summary@, filter.max_loc_per_fn as nat));
    kept
}

/// Decides whether one of the four lists of functions and methods holds an
/// entry.
pub fn summary_has_function_offenders(summary: &FileLocSummary) -> (found: bool)
    ensures
        found == has_function_offenders(summary@),
{
    !(summary.file_scope_functions.is_empty() && summary.impl_methods.is_empty()
        && summary.trait_methods.is_empty() && summary.test_functions.is_empty())
}

/// Narrows a report to the files, functions and methods that exceed the
/// limits of `filter`. The files given are left as they are.
pub fn filter_files(files: &[ScannedFile], filter: &OffenderFilter) -> (kept: Vec<ScannedFile>)
    ensures
        views(kept@) == offenders(
            views(files@),
            filter.max_loc_per_file as nat,
            filter.max_loc_per_fn as nat,
        ),
{
    let ghost max_file = filter.max_loc_per_file as nat;
    let ghost max_fn = filter.max_loc_per_fn as nat;
    let mut kept: Vec<ScannedFile> = Vec::new();
    let mut i: usize = 0;
    proof {
        reveal(Seq::filter);
        assert(views(kept@) =~= offenders(views(files@.take(0)), max_file, max_fn));
    }
    while i < files.len()
        invariant
            i <= files.len(),
            max_file == filter.max_loc_per_file as nat,
            max_fn == filter.max_loc_per_fn as nat,
            views(kept@) == offenders(
                views(files@.take(i as int)),
                max_file,
                max_fn,
            ),
        decreases files.len() - i,
    {
        let file = &files[i];
        let ghost before = views(files@.take(i as int));
        proof {
            assert(views(files@.take(i + 1)) =~= before.push(file@));
            lemma_offenders_push(before, file@, max_file, max_fn);
        }
        let filtered_summary = filter_summary(&file.summary, filter);
        let file_exceeds = filtered_summary.total_loc > filter.max_loc_per_file;
        let has_function_offenders = summary_has_function_offenders(&filtered_summary);
        if file_exceeds || has_function_offenders {
            kept.push(
                ScannedFile {
                    relative_path: file.relative_path.clone(),
                    summary: filtered_summary,
                },
            );
            assert(views(kept@) =~= offenders(before, max_file, max_fn).push(
                narrowed_file(file@, max_fn),
            ));
        }
        i = i + 1;
    }
    assert(files@.take(i as int) =~= files@);
    kept
}

} // verus!
