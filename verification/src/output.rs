//! The report that a run hands to its renderer.
//!
//! A report holds what a renderer prints: the settings of the scan, the
//! files with their summaries, and the totals over those files. A narrowed
//! report holds only what exceeds the limits, and its totals cover only the
//! files that stayed.

use vstd::prelude::*;
use crate::config::{RootKind, ScannerConfig, ScannerConfigView};
use crate::language::Language;
use crate::offenders::{filter_files, offenders, OffenderFilter};
use crate::summary::{clone_files, views, ScannedFile, ScannedFileView};

verus! {

/// The formats in which a report can be rendered.
#[derive(Clone, Copy, Debug, PartialEq, Eq)]
pub enum OutputFormat {
    Tree,
    Json,
}

/// The totals over the files of a report.
#[derive(Clone, Copy, Debug, PartialEq, Eq)]
pub struct ReportTotals {
    /// Number of files.
    pub files: usize,
    /// Sum of the files' totals.
    pub total_loc: u128,
}

/// What a renderer prints.
#[derive(Debug)]
pub struct Report {
    pub format: OutputFormat,
    pub offenders_only: bool,
    pub root_label: String,
    pub root_kind: RootKind,
    pub root_path: String,
    pub language: Language,
    pub git_ignore: bool,
    pub excludes: Vec<String>,
    pub totals: ReportTotals,
    pub files: Vec<ScannedFile>,
}

/// Mathematical value of a [`Report`].
#[verifier::ext_equal]
pub struct ReportView {
    pub format: OutputFormat,
    pub offenders_only: bool,
    pub root_label: Seq<char>,
    pub root_kind: RootKind,
    pub root_path: Seq<char>,
    pub language: Language,
    pub git_ignore: bool,
    pub excludes: Seq<Seq<char>>,
    pub total_files: nat,
    pub total_loc: nat,
    pub files: Seq<ScannedFileView>,
}

impl View for Report {
    type V = ReportView;

    open spec fn view(&self) -> ReportView {
        ReportView {
            format: self.format,
            offenders_only: self.offenders_only,
            root_label: self.root_label@,
            root_kind: self.root_kind,
            root_path: self.root_path@,
            language: self.language,
            git_ignore: self.git_ignore,
            excludes: views(self.excludes@),
            total_files: self.totals.files as nat,
            total_loc: self.totals.total_loc as nat,
            files: views(self.files@),
        }
    }
}

/// The sum of the totals of `files`.
pub open spec fn total_loc_of(files: Seq<ScannedFileView>) -> nat
    decreases files.len(),
{
    if files.len() == 0 {
        0
    } else {
        total_loc_of(files.drop_last()) + files.last().summary.total_loc
    }
}

/// The files that a report shows: all of them, or with a filter those that
/// exceed its limits, narrowed.
pub open spec fn shown_files(files: Seq<ScannedFileView>, filter: Option<OffenderFilter>) -> Seq<
    ScannedFileView,
> {
    match filter {
        Some(limits) => offenders(
            files,
            limits.max_loc_per_file as nat,
            limits.max_loc_per_fn as nat,
        ),
        None => files,
    }
}

/// The report on `files`, scanned under `config`, in the given format and
/// narrowed by `filter` if there is one. The totals are taken over the files
/// shown.
pub open spec fn report_of(
    config: ScannerConfigView,
    files: Seq<ScannedFileView>,
    format: OutputFormat,
    filter: Option<OffenderFilter>,
) -> ReportView {
    let shown = shown_files(files, filter);
    ReportView {
        format,
        offenders_only: filter is Some,
        root_label: config.root_label,
        root_kind: config.root_kind,
        root_path: config.root,
        language: config.language,
        git_ignore: config.git_ignore,
        excludes: config.excludes,
        total_files: shown.len(),
        total_loc: total_loc_of(shown),
        files: shown,
    }
}

/// The sum of totals is at most the largest total times the number of
/// files.
proof fn lemma_total_loc_bound(files: Seq<ScannedFileView>, largest: nat)
    requires
        forall|i: int| 0 <= i < files.len() ==> (#[trigger] files[i]).summary.total_loc <= largest,
    ensures
        total_loc_of(files) <= files.len() * largest,
    decreases files.len(),
{
    if files.len() > 0 {
        let front = files.drop_last();
        assert forall|i: int| 0 <= i < front.len() implies (#[trigger] front[i]).summary.total_loc
            <= largest by {
            assert(front[i] == files[i]);
        }
        lemma_total_loc_bound(front, largest);
        assert(front.len() * largest + largest == files.len() * largest) by (nonlinear_arith)
            requires
                front.len() + 1 == files.len(),
        ;
    }
}

/// Counts the files and adds up their totals.
pub fn report_totals(files: &[ScannedFile]) -> (totals: ReportTotals)
    ensures
        totals.files == files.len(),
        totals.total_loc == total_loc_of(views(files@)),
{
    let mut total_loc: u128 = 0;
    let mut i: usize = 0;
    while i < files.len()
        invariant
            i <= files.len(),
            total_loc == total_loc_of(views(files@.take(i as int))),
        decreases files.len() - i,
    {
        proof {
            let now = views(files@.take(i + 1));
            assert(now.drop_last() =~= views(files@.take(i as int)));
            assert(now.last() == files@[i as int]@);
            lemma_total_loc_bound(now, usize::MAX as nat);
            assert(now.len() * usize::MAX <= u128::MAX) by (nonlinear_arith)
                requires
                    now.len() <= usize::MAX,
                    usize::MAX <= 0xffff_ffff_ffff_ffff,
                    u128::MAX == 0xffff_ffff_ffff_ffff_ffff_ffff_ffff_ffff,
            ;
        }
        total_loc = total_loc + files[i].summary.total_loc as u128;
        i = i + 1;
    }
    assert(files@.take(i as int) =~= files@);
    ReportTotals { files: files.len(), total_loc }
}

/// Builds the report on `files`, scanned under `config`: narrowed by the
/// filter if there is one, with the totals of the files shown. The files
/// given are left as they are.
pub fn render_report(
    config: &ScannerConfig,
    files: &[ScannedFile],
    format: OutputFormat,
    offender_filter: Option<&OffenderFilter>,
) -> (report: Report)
    ensures
        report@ == report_of(
            config@,
            views(files@),
            format,
            match offender_filter {
                Some(limits) => Some(*limits),
                None => None,
            },
        ),
{
    let (shown, offenders_only) = match offender_filter {
        Some(limits) => (filter_files(files, limits), true),
        None => (clone_files(files), false),
    };
    let totals = report_totals(shown.as_slice());
    let report = Report {
        format,
        offenders_only,
        root_label: String::from_str(config.root_label()),
        root_kind: config.root_kind(),
        root_path: String::from_str(config.root()),
        language: config.language(),
        git_ignore: config.git_ignore(),
        excludes: config.excludes().clone(),
        totals,
        files: shown,
    };
    report
}

} // verus!
