//! What a scan is asked to do.

use vstd::prelude::*;
use crate::cli::Cli;
use crate::language::Language;
use crate::paths::path_file_name;
use crate::patterns::{compile_patterns, pattern_compiles, PathPattern};
use crate::summary::{option_text, views};
use crate::text::{trim, trimmed};

verus! {

/// Whether the root of a scan is a single file or a directory.
#[derive(Clone, Copy, Debug, PartialEq, Eq)]
pub enum RootKind {
    File,
    Directory,
}

/// The settings of one scan.
#[derive(Debug)]
pub struct ScannerConfig {
    pub language: Language,
    canonical_root: String,
    pub git_ignore: bool,
    pub excludes: Vec<String>,
    include_path_regexes: Vec<PathPattern>,
    exclude_path_regexes: Vec<PathPattern>,
    root_kind: RootKind,
    root_label: String,
}

/// Mathematical value of a [`ScannerConfig`].
#[verifier::ext_equal]
pub struct ScannerConfigView {
    pub language: Language,
    pub root: Seq<char>,
    pub git_ignore: bool,
    pub excludes: Seq<Seq<char>>,
    pub include_patterns: Seq<Seq<char>>,
    pub exclude_patterns: Seq<Seq<char>>,
    pub root_kind: RootKind,
    pub root_label: Seq<char>,
}

/// Why settings could not be made.
#[derive(Debug, PartialEq, Eq)]
pub enum ConfigError {
    /// A path pattern is no regular expression.
    InvalidPattern(String),
}

impl View for ScannerConfig {
    type V = ScannerConfigView;

    closed spec fn view(&self) -> ScannerConfigView {
        ScannerConfigView {
            language: self.language,
            root: self.canonical_root@,
            git_ignore: self.git_ignore,
            excludes: views(self.excludes@),
            include_patterns: views(self.include_path_regexes@),
            exclude_patterns: views(self.exclude_path_regexes@),
            root_kind: self.root_kind,
            root_label: self.root_label@,
        }
    }
}

/// The entries of `raw` without the white space at their ends, those left
/// out that hold nothing else.
pub open spec fn cleaned(raw: Seq<Seq<char>>) -> Seq<Seq<char>> {
    raw.map_values(|entry: Seq<char>| trimmed(entry)).filter(|entry: Seq<char>| entry.len() > 0)
}

/// What one more entry adds to the cleaned list: itself without the white
/// space at its ends, unless nothing is left of it.
pub proof fn lemma_cleaned_push(raw: Seq<Seq<char>>, entry: Seq<char>)
    ensures
        cleaned(raw.push(entry)) == if trimmed(entry).len() > 0 {
            cleaned(raw).push(trimmed(entry))
        } else {
            cleaned(raw)
        },
{
    reveal(Seq::filter);
    let trim = |entry: Seq<char>| trimmed(entry);
    let all = raw.push(entry).map_values(trim);
    assert(all.drop_last() =~= raw.map_values(trim));
    assert(all.last() == trimmed(entry));
}

/// The label of a root: the last component of its path, or the whole path
/// where it has none.
pub open spec fn label_of(root: Seq<char>, file_name: Option<Seq<char>>) -> Seq<char> {
    match file_name {
        Some(name) => name,
        None => root,
    }
}

/// Removes the white space at the ends of each entry and drops the entries
/// that hold nothing else.
pub fn clean_excludes(raw: &Vec<String>) -> (kept: Vec<String>)
    ensures
        views(kept@) == cleaned(views(raw@)),
{
    let mut kept: Vec<String> = Vec::new();
    let mut i: usize = 0;
    proof {
        reveal(Seq::filter);
        assert(views(kept@) =~= cleaned(views(raw@.take(0))));
    }
    while i < raw.len()
        invariant
            i <= raw.len(),
            views(kept@) == cleaned(views(raw@.take(i as int))),
        decreases raw.len() - i,
    {
        let entry = trim(raw[i].as_str());
        proof {
            let before = views(raw@.take(i as int));
            assert(views(raw@.take(i + 1)) =~= before.push(raw@[i as int]@));
            lemma_cleaned_push(before, raw@[i as int]@);
        }
        if !entry.is_empty() {
            let ghost before = views(kept@);
            kept.push(String::from_str(entry));
            assert(views(kept@) =~= before.push(entry@));
        }
        i = i + 1;
    }
    assert(raw@.take(i as int) =~= raw@);
    kept
}

/// The label of the root at `root`, given the last component of the path
/// if it has one.
pub fn root_label_of(root: &str, file_name: Option<String>) -> (label: String)
    ensures
        label@ == label_of(root@, option_text(file_name)),
{
    match file_name {
        Some(name) => name,
        None => String::from_str(root),
    }
}

impl ScannerConfig {
    /// Settings with the given parts.
    pub fn new(
        language: Language,
        canonical_root: String,
        root_kind: RootKind,
        root_label: String,
        git_ignore: bool,
        excludes: Vec<String>,
        include_path_regexes: Vec<PathPattern>,
        exclude_path_regexes: Vec<PathPattern>,
    ) -> (config: ScannerConfig)
        ensures
            config@ == (ScannerConfigView {
                language,
                root: canonical_root@,
                git_ignore,
                excludes: views(excludes@),
                include_patterns: views(include_path_regexes@),
                exclude_patterns: views(exclude_path_regexes@),
                root_kind,
                root_label: root_label@,
            }),
    {
        ScannerConfig {
            language,
            canonical_root,
            git_ignore,
            excludes,
            include_path_regexes,
            exclude_path_regexes,
            root_kind,
            root_label,
        }
    }

    /// The language of the files to scan.
    pub fn language(&self) -> (language: Language)
        ensures
            language == self@.language,
    {
        self.language
    }

    /// The relative paths that are left out.
    pub fn excludes(&self) -> (excludes: &Vec<String>)
        ensures
            views(excludes@) == self@.excludes,
    {
        &self.excludes
    }

    /// The patterns of which a relative path must match one, if there are
    /// any.
    pub fn include_path_regexes(&self) -> (regexes: &Vec<PathPattern>)
        ensures
            views(regexes@) == self@.include_patterns,
    {
        &self.include_path_regexes
    }

    /// The patterns of which a relative path must match none.
    pub fn exclude_path_regexes(&self) -> (regexes: &Vec<PathPattern>)
        ensures
            views(regexes@) == self@.exclude_patterns,
    {
        &self.exclude_path_regexes
    }

    /// Whether ignore files are honoured while walking.
    pub fn git_ignore(&self) -> (honoured: bool)
        ensures
            honoured == self@.git_ignore,
    {
        self.git_ignore
    }

    /// The resolved path of the root.
    pub fn root(&self) -> (root: &str)
        ensures
            root@ == self@.root,
    {
        self.canonical_root.as_str()
    }

    /// Whether the root is a file or a directory.
    pub fn root_kind(&self) -> (kind: RootKind)
        ensures
            kind == self@.root_kind,
    {
        self.root_kind
    }

    /// The name under which the root appears in a report.
    pub fn root_label(&self) -> (label: &str)
        ensures
            label@ == self@.root_label,
    {
        self.root_label.as_str()
    }

    /// The settings that the options ask for, for a root that was resolved
    /// to `canonical_root` and found to be of kind `root_kind`.
    ///
    /// The excludes are cleaned, the path patterns compiled, the include
    /// patterns first. The first pattern that does not compile is returned
    /// as the error.
    pub fn from_cli(cli: &Cli, canonical_root: String, root_kind: RootKind) -> (made: Result<
        ScannerConfig,
        ConfigError,
    >)
        ensures
            match made {
                Ok(config) => {
                    &&& config@.language == cli.lang
                    &&& config@.root == canonical_root@
                    &&& config@.root_kind == root_kind
                    &&& config@.git_ignore == cli.git_ignore_support
                    &&& config@.excludes == cleaned(views(cli.exclude@))
                    &&& config@.include_patterns == views(cli.include_path@)
                    &&& config@.exclude_patterns == views(cli.exclude_path@)
                    &&& exists|file_name: Option<Seq<char>>|
                        config@.root_label == label_of(canonical_root@, file_name)
                    &&& forall|i: int|
                        0 <= i < cli.include_path.len() ==> pattern_compiles(
                            #[trigger] cli.include_path[i]@,
                        )
                    &&& forall|i: int|
                        0 <= i < cli.exclude_path.len() ==> pattern_compiles(
                            #[trigger] cli.exclude_path[i]@,
                        )
                },
                Err(ConfigError::InvalidPattern(pattern)) => {
                    let all = views(cli.include_path@) + views(cli.exclude_path@);
                    exists|k: int|
                        {
                            &&& 0 <= k < all.len()
                            &&& pattern@ == #[trigger] all[k]
                            &&& !pattern_compiles(all[k])
                            &&& forall|j: int| 0 <= j < k ==> pattern_compiles(#[trigger] all[j])
                        }
                },
            },
    {
        let ghost all = views(cli.include_path@) + views(cli.exclude_path@);
        let include_path_regexes = match compile_patterns(&cli.include_path) {
            Ok(regexes) => regexes,
            Err(pattern) => {
                proof {
                    let k = choose|k: int|
                        {
                            &&& 0 <= k < cli.include_path.len()
                            &&& pattern@ == (#[trigger] cli.include_path[k])@
                            &&& !pattern_compiles(cli.include_path[k]@)
                            &&& forall|j: int|
                                0 <= j < k ==> pattern_compiles(#[trigger] cli.include_path[j]@)
                        };
                    assert(all[k] == cli.include_path[k]@);
                    assert forall|j: int| 0 <= j < k implies pattern_compiles(
                        #[trigger] all[j],
                    ) by {
                        assert(all[j] == cli.include_path[j]@);
                    }
                }
                return Err(ConfigError::InvalidPattern(pattern));
            },
        };
        let exclude_path_regexes = match compile_patterns(&cli.exclude_path) {
            Ok(regexes) => regexes,
            Err(pattern) => {
                proof {
                    let n = cli.include_path.len() as int;
                    let k = choose|k: int|
                        {
                            &&& 0 <= k < cli.exclude_path.len()
                            &&& pattern@ == (#[trigger] cli.exclude_path[k])@
                            &&& !pattern_compiles(cli.exclude_path[k]@)
                            &&& forall|j: int|
                                0 <= j < k ==> pattern_compiles(#[trigger] cli.exclude_path[j]@)
                        };
                    assert(all[n + k] == cli.exclude_path[k]@);
                    assert forall|j: int| 0 <= j < n + k implies pattern_compiles(
                        #[trigger] all[j],
                    ) by {
                        if j < n {
                            assert(all[j] == cli.include_path[j]@);
                        } else {
                            assert(all[j] == cli.exclude_path[j - n]@);
                        }
                    }
                }
                return Err(ConfigError::InvalidPattern(pattern));
            },
        };
        let file_name = path_file_name(canonical_root.as_str());
        let ghost name = option_text(file_name);
        let root_label = root_label_of(canonical_root.as_str(), file_name);
        let config = ScannerConfig {
            language: cli.lang,
            canonical_root,
            git_ignore: cli.git_ignore_support,
            excludes: clean_excludes(&cli.exclude),
            include_path_regexes,
            exclude_path_regexes,
            root_kind,
            root_label,
        };
        assert(config@.root_label == label_of(canonical_root@, name));
        Ok(config)
    }
}

impl Clone for ScannerConfig {
    fn clone(&self) -> (copy: Self)
        ensures
            copy@ == self@,
    {
        ScannerConfig {
            language: self.language,
            canonical_root: self.canonical_root.clone(),
            git_ignore: self.git_ignore,
            excludes: self.excludes.clone(),
            include_path_regexes: self.include_path_regexes.clone(),
            exclude_path_regexes: self.exclude_path_regexes.clone(),
            root_kind: self.root_kind,
            root_label: self.root_label.clone(),
        }
    }
}

} // verus!
