//! Which files a scan takes, and the scan of the files taken.
//!
//! Finding and reading files is left to the caller. The library decides for a
//! relative path whether the settings leave it out, and it turns the files
//! that were read into the list that a report shows, ordered by path.

use vstd::prelude::*;
use vstd::relations::sorted_by;
use crate::analyze::{analyze_file, file_summary};
use crate::config::{ScannerConfig, ScannerConfigView};
use crate::paths::{
    lemma_path_ranks_distinct, path_before, path_for_matching, path_le, path_rank, should_exclude,
    with_forward_slashes,
};
use crate::patterns::{any_accepts, matches_regexes};
use crate::sorting::{
    insert_sorted, lemma_lex_reflexive, lemma_lex_total, lemma_lex_transitive,
    lemma_stable_sorted, lemma_stable_sorted_push, order_of, stable_sorted, total_preorder,
    Sortable,
};
use crate::summary::{views, ScannedFile, ScannedFileView};
use crate::syntax::Node;

verus! {

/// A file that was read: its path relative to the root of the scan, its
/// text and its syntax tree.
#[derive(Debug, PartialEq, Eq)]
pub struct SourceFile {
    pub relative_path: String,
    pub source: String,
    pub syntax: Node,
}

/// Whether the settings leave out a path, given whether one of the excluded
/// paths begins it and the text against which the patterns are matched: a
/// path is left out if an excluded path begins it, if an exclude pattern
/// matches it, or if there are include patterns and none of them matches it.
pub open spec fn skip_rule(excluded: bool, target: Seq<char>, config: ScannerConfigView) -> bool {
    ||| excluded
    ||| any_accepts(config.exclude_patterns, target)
    ||| (config.include_patterns.len() > 0 && !any_accepts(config.include_patterns, target))
}

/// Decides whether the settings leave out a path, given whether one of the
/// excluded paths begins it and the text against which the patterns are
/// matched.
pub fn should_skip_target(excluded: bool, target: &str, config: &ScannerConfig) -> (skipped: bool)
    ensures
        skipped == skip_rule(excluded, target@, config@),
{
    if excluded {
        return true;
    }
    if matches_regexes(target, config.exclude_path_regexes()) {
        return true;
    }
    if config.include_path_regexes().len() == 0 {
        return false;
    }
    !matches_regexes(target, config.include_path_regexes())
}

/// Decides whether the settings leave out the file at `relative`.
///
/// How a path falls into components, and which character separates them,
/// is the platform's to say: the result follows the rule for what the
/// platform answered.
pub fn should_skip(relative: &str, config: &ScannerConfig) -> (skipped: bool)
    ensures
        exists|excluded: bool, separator: char|
            {
                &&& config@.excludes.len() == 0 ==> !excluded
                &&& skipped == #[trigger] skip_rule(
                    excluded,
                    with_forward_slashes(relative@, separator),
                    config@,
                )
            },
{
    let excluded = should_exclude(relative, config.excludes());
    let target = path_for_matching(relative);
    let skipped = should_skip_target(excluded, target.as_str(), config);
    proof {
        let separator = choose|separator: char|
            target@ == with_forward_slashes(relative@, separator);
        assert(skipped == skip_rule(
            excluded,
            with_forward_slashes(relative@, separator),
            config@,
        ));
    }
    skipped
}

impl Sortable for ScannedFile {
    open spec fn leq(a: ScannedFileView, b: ScannedFileView) -> bool {
        path_le(a.relative_path, b.relative_path)
    }

    proof fn lemma_leq_preorder() {
        let r = |a: ScannedFileView, b: ScannedFileView| Self::leq(a, b);
        let rank = path_rank();
        lemma_path_ranks_distinct();
        assert forall|x: ScannedFileView| #[trigger] r(x, x) by {
            lemma_lex_reflexive(x.relative_path, rank);
        }
        assert forall|x: ScannedFileView, y: ScannedFileView, z: ScannedFileView| #[trigger]
            r(x, y) && #[trigger] r(y, z) implies r(x, z) by {
            lemma_lex_transitive(x.relative_path, y.relative_path, z.relative_path, rank);
        }
        assert forall|x: ScannedFileView, y: ScannedFileView| #[trigger] r(x, y) || #[trigger] r(
            y,
            x,
        ) by {
            lemma_lex_total(x.relative_path, y.relative_path, rank);
        }
    }

    fn before(&self, other: &Self) -> (r: bool) {
        path_before(self.relative_path.as_str(), other.relative_path.as_str())
    }

    fn duplicate(&self) -> (copy: Self) {
        self.clone()
    }
}

/// The order of files in a report: by relative path.
pub open spec fn path_order() -> spec_fn(ScannedFileView, ScannedFileView) -> bool {
    order_of::<ScannedFile>()
}

/// What a file that was read comes to in a report.
pub open spec fn scanned(file: SourceFile) -> ScannedFileView {
    ScannedFileView {
        relative_path: file.relative_path@,
        summary: file_summary(file.source@, file.syntax),
    }
}

/// The report of the files that were read: each with its summary, ordered by
/// path; files with the same path stay in the order in which they came.
pub open spec fn scan_result(sources: Seq<SourceFile>) -> Seq<ScannedFileView> {
    stable_sorted(sources.map_values(|file: SourceFile| scanned(file)), path_order())
}

/// The order of files compares any two files and is reflexive and
/// transitive.
pub proof fn lemma_path_order()
    ensures
        total_preorder(path_order()),
{
    ScannedFile::lemma_leq_preorder();
}

/// A report lists each file that was read once, in the order of paths.
pub proof fn lemma_scan_result(sources: Seq<SourceFile>)
    ensures
        scan_result(sources).len() == sources.len(),
        sorted_by(scan_result(sources), path_order()),
        scan_result(sources).to_multiset() == sources.map_values(
            |file: SourceFile| scanned(file),
        ).to_multiset(),
{
    lemma_path_order();
    lemma_stable_sorted(sources.map_values(|file: SourceFile| scanned(file)), path_order());
}

/// Measures each of the files that were read and lists them by path.
pub fn scan(config: &ScannerConfig, sources: &[SourceFile]) -> (files: Vec<ScannedFile>)
    ensures
        views(files@) == scan_result(sources@),
{
    let mut files: Vec<ScannedFile> = Vec::new();
    let mut i: usize = 0;
    proof {
        assert(views(files@) =~= scan_result(sources@.take(0)));
    }
    while i < sources.len()
        invariant
            i <= sources.len(),
            views(files@) == scan_result(sources@.take(i as int)),
        decreases sources.len() - i,
    {
        let source = &sources[i];
        let file = ScannedFile {
            relative_path: source.relative_path.clone(),
            summary: analyze_file(config.language(), source.source.as_str(), &source.syntax),
        };
        proof {
            let read = sources@.take(i as int).map_values(|file: SourceFile| scanned(file));
            lemma_scan_result(sources@.take(i as int));
            assert(sources@.take(i + 1).map_values(|file: SourceFile| scanned(file))
                =~= read.push(file@));
            lemma_stable_sorted_push(read, file@, path_order());
        }
        insert_sorted(&mut files, file);
        i = i + 1;
    }
    assert(sources@.take(i as int) =~= sources@);
    files
}

} // verus!
