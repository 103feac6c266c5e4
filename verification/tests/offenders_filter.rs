use loc_checker::offenders::{
    filter_files, filter_impl_methods, filter_named, filter_summary, filter_trait_methods,
    summary_has_function_offenders, OffenderFilter,
};
use loc_checker::output::{render_report, report_totals, OutputFormat};
use loc_checker::config::{RootKind, ScannerConfig};
use loc_checker::language::Language;
use loc_checker::summary::{
    FileLocSummary, ImplBlockLoc, ImplMethodLoc, NamedLoc, ScannedFile, TraitMethodLoc,
};

fn named(name: &str, loc: usize) -> NamedLoc {
    NamedLoc { name: name.to_string(), loc }
}

fn impl_method(name: &str, loc: usize) -> ImplMethodLoc {
    ImplMethodLoc {
        impl_target: "Type".to_string(),
        trait_name: None,
        method_name: name.to_string(),
        loc,
    }
}

fn trait_method(name: &str, loc: usize) -> TraitMethodLoc {
    TraitMethodLoc { trait_name: "Trait".to_string(), method_name: name.to_string(), loc }
}

fn empty_summary(total_loc: usize) -> FileLocSummary {
    FileLocSummary {
        total_loc,
        top_functions: Vec::new(),
        file_scope_functions: Vec::new(),
        impl_methods: Vec::new(),
        trait_methods: Vec::new(),
        test_functions: Vec::new(),
        aggregate_type_defs: Vec::new(),
        sum_type_defs: Vec::new(),
        interface_defs: Vec::new(),
        impl_blocks: Vec::new(),
        consts: Vec::new(),
        statics: Vec::new(),
    }
}

fn file(path: &str, summary: FileLocSummary) -> ScannedFile {
    ScannedFile { relative_path: path.to_string(), summary }
}

fn one_function_file(path: &str, total_loc: usize, loc: usize) -> ScannedFile {
    let mut summary = empty_summary(total_loc);
    summary.file_scope_functions.push(named("work", loc));
    summary.top_functions.push(named("work", loc));
    file(path, summary)
}

fn config() -> ScannerConfig {
    ScannerConfig::new(
        Language::Rust,
        "/work/project".to_string(),
        RootKind::Directory,
        "project".to_string(),
        false,
        Vec::new(),
        Vec::new(),
        Vec::new(),
    )
}

#[test]
fn new_keeps_both_limits() {
    let filter = OffenderFilter::new(120, 70);
    assert_eq!(filter.max_loc_per_file, 120);
    assert_eq!(filter.max_loc_per_fn, 70);
}

#[test]
fn function_of_sixty_lines_under_limits_of_120_and_70() {
    let filter = OffenderFilter::new(120, 70);
    // total above the limit per file: the file stays, without functions
    let kept = filter_files(&[one_function_file("big.rs", 121, 60)], &filter);
    assert_eq!(kept.len(), 1);
    assert!(kept[0].summary.file_scope_functions.is_empty());
    assert_eq!(kept[0].summary.total_loc, 121);
    // total at the limit per file: the file goes
    assert!(filter_files(&[one_function_file("even.rs", 120, 60)], &filter).is_empty());
    assert!(filter_files(&[one_function_file("small.rs", 61, 60)], &filter).is_empty());
}

#[test]
fn file_over_the_limit_stays_without_offending_functions() {
    let filter = OffenderFilter::new(120, 70);
    let mut summary = empty_summary(130);
    summary.file_scope_functions.push(named("a", 70));
    summary.impl_methods.push(impl_method("b", 12));
    summary.trait_methods.push(trait_method("c", 69));
    summary.test_functions.push(named("d", 1));
    let kept = filter_files(&[file("wide.rs", summary)], &filter);
    assert_eq!(kept.len(), 1);
    assert_eq!(kept[0].relative_path, "wide.rs");
    assert_eq!(kept[0].summary.total_loc, 130);
    assert!(kept[0].summary.file_scope_functions.is_empty());
    assert!(kept[0].summary.impl_methods.is_empty());
    assert!(kept[0].summary.trait_methods.is_empty());
    assert!(kept[0].summary.test_functions.is_empty());
}

#[test]
fn nothing_over_the_limits_gives_an_empty_report() {
    let filter = OffenderFilter::new(120, 70);
    let files = vec![
        one_function_file("a.rs", 100, 60),
        one_function_file("b.rs", 120, 70),
        file("c.rs", empty_summary(0)),
    ];
    let kept = filter_files(&files, &filter);
    assert!(kept.is_empty());
    let totals = report_totals(&kept);
    assert_eq!(totals.files, 0);
    assert_eq!(totals.total_loc, 0);
    let report = render_report(&config(), &files, OutputFormat::Json, Some(&filter));
    assert!(report.files.is_empty());
    assert_eq!(report.totals.files, 0);
    assert_eq!(report.totals.total_loc, 0);
    assert!(report.offenders_only);
}

#[test]
fn a_single_offending_function_keeps_its_file() {
    let filter = OffenderFilter::new(1000, 70);
    for list in 0..4 {
        let mut summary = empty_summary(80);
        match list {
            0 => summary.file_scope_functions.push(named("f", 71)),
            1 => summary.impl_methods.push(impl_method("m", 71)),
            2 => summary.trait_methods.push(trait_method("t", 71)),
            _ => summary.test_functions.push(named("c", 71)),
        }
        let kept = filter_files(&[file("x.rs", summary)], &filter);
        assert_eq!(kept.len(), 1, "list {list}");
    }
}

#[test]
fn the_limits_are_strict() {
    assert_eq!(filter_named(&[named("at", 70), named("over", 71)], 70), vec![named("over", 71)]);
    assert_eq!(
        filter_impl_methods(&[impl_method("at", 70), impl_method("over", 71)], 70),
        vec![impl_method("over", 71)]
    );
    assert_eq!(
        filter_trait_methods(&[trait_method("at", 70), trait_method("over", 71)], 70),
        vec![trait_method("over", 71)]
    );
    assert!(filter_named(&[named("max", usize::MAX)], usize::MAX).is_empty());
    assert_eq!(filter_named(&[named("one", 1)], 0), vec![named("one", 1)]);
}

#[test]
fn filtering_keeps_the_order() {
    let entries =
        vec![named("a", 90), named("b", 10), named("c", 80), named("d", 75), named("e", 3)];
    assert_eq!(filter_named(&entries, 70), vec![named("a", 90), named("c", 80), named("d", 75)]);
}

#[test]
fn only_the_lists_of_functions_are_narrowed() {
    let mut summary = empty_summary(200);
    summary.top_functions = vec![named("small", 5), named("tiny", 2)];
    summary.file_scope_functions = vec![named("small", 5), named("tiny", 2)];
    summary.aggregate_type_defs = vec![named("S", 3)];
    summary.sum_type_defs = vec![named("E", 4)];
    summary.interface_defs = vec![named("T", 6)];
    summary.impl_blocks =
        vec![ImplBlockLoc { target: "S".to_string(), trait_name: None, loc: 9 }];
    summary.consts = vec![named("C", 1)];
    summary.statics = vec![named("G", 1)];
    let untouched = summary.clone();
    let narrowed = filter_summary(&summary, &OffenderFilter::new(120, 70));
    assert_eq!(summary, untouched);
    assert!(narrowed.file_scope_functions.is_empty());
    assert_eq!(narrowed.top_functions, untouched.top_functions);
    assert_eq!(narrowed.total_loc, 200);
    assert_eq!(narrowed.aggregate_type_defs, untouched.aggregate_type_defs);
    assert_eq!(narrowed.sum_type_defs, untouched.sum_type_defs);
    assert_eq!(narrowed.interface_defs, untouched.interface_defs);
    assert_eq!(narrowed.impl_blocks, untouched.impl_blocks);
    assert_eq!(narrowed.consts, untouched.consts);
    assert_eq!(narrowed.statics, untouched.statics);
}

#[test]
fn the_ranking_alone_does_not_keep_a_file() {
    let mut summary = empty_summary(50);
    summary.top_functions = vec![named("huge", 500)];
    assert!(!summary_has_function_offenders(&summary));
    assert!(filter_files(&[file("odd.rs", summary)], &OffenderFilter::new(120, 70)).is_empty());
}

#[test]
fn has_function_offenders_looks_at_the_four_lists() {
    assert!(!summary_has_function_offenders(&empty_summary(10)));
    let mut summary = empty_summary(10);
    summary.trait_methods.push(trait_method("t", 1));
    assert!(summary_has_function_offenders(&summary));
    let mut summary = empty_summary(10);
    summary.consts.push(named("C", 1));
    summary.impl_blocks.push(ImplBlockLoc { target: "S".to_string(), trait_name: None, loc: 2 });
    assert!(!summary_has_function_offenders(&summary));
}

fn sample_files() -> Vec<ScannedFile> {
    let mut files = Vec::new();
    for i in 0..12usize {
        let mut summary = empty_summary(i * 25);
        summary.file_scope_functions.push(named("f", (i * 13) % 50 + 1));
        summary.impl_methods.push(impl_method("m", (i * 29) % 90 + 1));
        summary.trait_methods.push(trait_method("t", (i * 7) % 30 + 1));
        summary.test_functions.push(named("c", (i * 17) % 60 + 1));
        files.push(file(&format!("src/f{i}.rs"), summary));
    }
    files
}

#[test]
fn raising_a_limit_never_lets_the_report_grow() {
    let files = sample_files();
    let limits = [0usize, 1, 10, 25, 50, 70, 100, 250, 1000];
    for (a, low_file) in limits.iter().enumerate() {
        for high_file in &limits[a..] {
            for (b, low_fn) in limits.iter().enumerate() {
                for high_fn in &limits[b..] {
                    let low = filter_files(&files, &OffenderFilter::new(*low_file, *low_fn));
                    let high = filter_files(&files, &OffenderFilter::new(*high_file, *high_fn));
                    assert!(high.len() <= low.len());
                    for kept in &high {
                        let same = low
                            .iter()
                            .find(|other| other.relative_path == kept.relative_path)
                            .unwrap();
                        assert!(
                            kept.summary.file_scope_functions.len()
                                <= same.summary.file_scope_functions.len()
                        );
                        assert!(kept.summary.impl_methods.len() <= same.summary.impl_methods.len());
                    }
                }
            }
        }
    }
}

#[test]
fn a_file_stays_exactly_if_its_total_or_a_function_is_over() {
    let files = sample_files();
    for max_file in [0usize, 50, 120, 275, 10_000] {
        for max_fn in [0usize, 20, 45, 70, 89, 90] {
            let kept = filter_files(&files, &OffenderFilter::new(max_file, max_fn));
            for given in &files {
                let summary = &given.summary;
                let largest = summary
                    .file_scope_functions
                    .iter()
                    .chain(summary.test_functions.iter())
                    .map(|entry| entry.loc)
                    .chain(summary.impl_methods.iter().map(|entry| entry.loc))
                    .chain(summary.trait_methods.iter().map(|entry| entry.loc))
                    .max()
                    .unwrap();
                let expected = summary.total_loc > max_file || largest > max_fn;
                let found =
                    kept.iter().any(|file| file.relative_path == given.relative_path);
                assert_eq!(found, expected);
            }
        }
    }
}

#[test]
fn kept_files_keep_their_order() {
    let files = sample_files();
    let kept = filter_files(&files, &OffenderFilter::new(100, 1000));
    let paths: Vec<&str> = kept.iter().map(|file| file.relative_path.as_str()).collect();
    assert_eq!(
        paths,
        vec![
            "src/f5.rs",
            "src/f6.rs",
            "src/f7.rs",
            "src/f8.rs",
            "src/f9.rs",
            "src/f10.rs",
            "src/f11.rs"
        ]
    );
}
