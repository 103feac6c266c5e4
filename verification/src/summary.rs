//! The per-file report: named line counts, grouped by the kind of element.

use vstd::prelude::*;

verus! {

/// A named element and the number of non-blank lines it spans.
#[derive(Debug, PartialEq, Eq)]
pub struct NamedLoc {
    pub name: String,
    pub loc: usize,
}

/// Mathematical value of a [`NamedLoc`].
pub struct NamedLocView {
    pub name: Seq<char>,
    pub loc: nat,
}

impl View for NamedLoc {
    type V = NamedLocView;

    open spec fn view(&self) -> NamedLocView {
        NamedLocView { name: self.name@, loc: self.loc as nat }
    }
}

impl Clone for NamedLoc {
    fn clone(&self) -> (copy: Self)
        ensures
            copy == *self,
    {
        NamedLoc { name: self.name.clone(), loc: self.loc }
    }
}

/// A method defined inside an implementation block, with the type the block
/// is for and the trait it implements, if any.
#[derive(Debug, PartialEq, Eq)]
pub struct ImplMethodLoc {
    pub impl_target: String,
    pub trait_name: Option<String>,
    pub method_name: String,
    pub loc: usize,
}

/// Mathematical value of an [`ImplMethodLoc`].
pub struct ImplMethodLocView {
    pub impl_target: Seq<char>,
    pub trait_name: Option<Seq<char>>,
    pub method_name: Seq<char>,
    pub loc: nat,
}

/// View of an optional string.
pub open spec fn option_text(text: Option<String>) -> Option<Seq<char>> {
    match text {
        Some(t) => Some(t@),
        None => None,
    }
}

impl View for ImplMethodLoc {
    type V = ImplMethodLocView;

    open spec fn view(&self) -> ImplMethodLocView {
        ImplMethodLocView {
            impl_target: self.impl_target@,
            trait_name: option_text(self.trait_name),
            method_name: self.method_name@,
            loc: self.loc as nat,
        }
    }
}

impl Clone for ImplMethodLoc {
    fn clone(&self) -> (copy: Self)
        ensures
            copy == *self,
    {
        ImplMethodLoc {
            impl_target: self.impl_target.clone(),
            trait_name: self.trait_name.clone(),
            method_name: self.method_name.clone(),
            loc: self.loc,
        }
    }
}

/// A method that a trait declares together with a default body.
#[derive(Debug, PartialEq, Eq)]
pub struct TraitMethodLoc {
    pub trait_name: String,
    pub method_name: String,
    pub loc: usize,
}

/// Mathematical value of a [`TraitMethodLoc`].
pub struct TraitMethodLocView {
    pub trait_name: Seq<char>,
    pub method_name: Seq<char>,
    pub loc: nat,
}

impl View for TraitMethodLoc {
    type V = TraitMethodLocView;

    open spec fn view(&self) -> TraitMethodLocView {
        TraitMethodLocView {
            trait_name: self.trait_name@,
            method_name: self.method_name@,
            loc: self.loc as nat,
        }
    }
}

impl Clone for TraitMethodLoc {
    fn clone(&self) -> (copy: Self)
        ensures
            copy == *self,
    {
        TraitMethodLoc {
            trait_name: self.trait_name.clone(),
            method_name: self.method_name.clone(),
            loc: self.loc,
        }
    }
}

/// The whole span of one implementation block.
#[derive(Debug, PartialEq, Eq)]
pub struct ImplBlockLoc {
    pub target: String,
    pub trait_name: Option<String>,
    pub loc: usize,
}

/// Mathematical value of an [`ImplBlockLoc`].
pub struct ImplBlockLocView {
    pub target: Seq<char>,
    pub trait_name: Option<Seq<char>>,
    pub loc: nat,
}

impl View for ImplBlockLoc {
    type V = ImplBlockLocView;

    open spec fn view(&self) -> ImplBlockLocView {
        ImplBlockLocView {
            target: self.target@,
            trait_name: option_text(self.trait_name),
            loc: self.loc as nat,
        }
    }
}

impl Clone for ImplBlockLoc {
    fn clone(&self) -> (copy: Self)
        ensures
            copy == *self,
    {
        ImplBlockLoc {
            target: self.target.clone(),
            trait_name: self.trait_name.clone(),
            loc: self.loc,
        }
    }
}

/// What the entries of a list stand for, in order.
pub open spec fn views<T: View>(entries: Seq<T>) -> Seq<T::V> {
    entries.map_values(|entry: T| entry@)
}

/// Everything measured in one source file.
///
/// `total_loc` counts the non-blank lines of the whole file. The lists hold
/// the measured elements in the order in which the file declares them, except
/// `top_functions`, which ranks the largest functions and methods.
#[derive(Debug, PartialEq, Eq)]
pub struct FileLocSummary {
    pub total_loc: usize,
    pub top_functions: Vec<NamedLoc>,
    pub file_scope_functions: Vec<NamedLoc>,
    pub impl_methods: Vec<ImplMethodLoc>,
    pub trait_methods: Vec<TraitMethodLoc>,
    pub test_functions: Vec<NamedLoc>,
    pub aggregate_type_defs: Vec<NamedLoc>,
    pub sum_type_defs: Vec<NamedLoc>,
    pub interface_defs: Vec<NamedLoc>,
    pub impl_blocks: Vec<ImplBlockLoc>,
    pub consts: Vec<NamedLoc>,
    pub statics: Vec<NamedLoc>,
}

/// Mathematical value of a [`FileLocSummary`].
#[verifier::ext_equal]
pub struct FileLocSummaryView {
    pub total_loc: nat,
    pub top_functions: Seq<NamedLocView>,
    pub file_scope_functions: Seq<NamedLocView>,
    pub impl_methods: Seq<ImplMethodLocView>,
    pub trait_methods: Seq<TraitMethodLocView>,
    pub test_functions: Seq<NamedLocView>,
    pub aggregate_type_defs: Seq<NamedLocView>,
    pub sum_type_defs: Seq<NamedLocView>,
    pub interface_defs: Seq<NamedLocView>,
    pub impl_blocks: Seq<ImplBlockLocView>,
    pub consts: Seq<NamedLocView>,
    pub statics: Seq<NamedLocView>,
}

impl FileLocSummaryView {
    /// Every entry of every list has a positive line count, and the ranking
    /// holds at most three entries.
    pub open spec fn well_formed(self) -> bool {
        &&& self.top_functions.len() <= 3
        &&& forall|i: int| 0 <= i < self.top_functions.len() ==> (#[trigger] self.top_functions[i]).loc > 0
        &&& forall|i: int|
            0 <= i < self.file_scope_functions.len() ==> (
            #[trigger] self.file_scope_functions[i]).loc > 0
        &&& forall|i: int| 0 <= i < self.impl_methods.len() ==> (#[trigger] self.impl_methods[i]).loc > 0
        &&& forall|i: int|
            0 <= i < self.trait_methods.len() ==> (#[trigger] self.trait_methods[i]).loc > 0
        &&& forall|i: int|
            0 <= i < self.test_functions.len() ==> (#[trigger] self.test_functions[i]).loc > 0
        &&& forall|i: int|
            0 <= i < self.aggregate_type_defs.len() ==> (
            #[trigger] self.aggregate_type_defs[i]).loc > 0
        &&& forall|i: int|
            0 <= i < self.sum_type_defs.len() ==> (#[trigger] self.sum_type_defs[i]).loc > 0
        &&& forall|i: int|
            0 <= i < self.interface_defs.len() ==> (#[trigger] self.interface_defs[i]).loc > 0
        &&& forall|i: int| 0 <= i < self.impl_blocks.len() ==> (#[trigger] self.impl_blocks[i]).loc > 0
        &&& forall|i: int| 0 <= i < self.consts.len() ==> (#[trigger] self.consts[i]).loc > 0
        &&& forall|i: int| 0 <= i < self.statics.len() ==> (#[trigger] self.statics[i]).loc > 0
    }
}

impl View for FileLocSummary {
    type V = FileLocSummaryView;

    open spec fn view(&self) -> FileLocSummaryView {
        FileLocSummaryView {
            total_loc: self.total_loc as nat,
            top_functions: views(self.top_functions@),
            file_scope_functions: views(self.file_scope_functions@),
            impl_methods: views(self.impl_methods@),
            trait_methods: views(self.trait_methods@),
            test_functions: views(self.test_functions@),
            aggregate_type_defs: views(self.aggregate_type_defs@),
            sum_type_defs: views(self.sum_type_defs@),
            interface_defs: views(self.interface_defs@),
            impl_blocks: views(self.impl_blocks@),
            consts: views(self.consts@),
            statics: views(self.statics@),
        }
    }
}

impl Clone for FileLocSummary {
    fn clone(&self) -> (copy: Self)
        ensures
            copy@ == self@,
    {
        let copy = FileLocSummary {
            total_loc: self.total_loc,
            top_functions: self.top_functions.clone(),
            file_scope_functions: self.file_scope_functions.clone(),
            impl_methods: self.impl_methods.clone(),
            trait_methods: self.trait_methods.clone(),
            test_functions: self.test_functions.clone(),
            aggregate_type_defs: self.aggregate_type_defs.clone(),
            sum_type_defs: self.sum_type_defs.clone(),
            interface_defs: self.interface_defs.clone(),
            impl_blocks: self.impl_blocks.clone(),
            consts: self.consts.clone(),
            statics: self.statics.clone(),
        };
        assert(copy@ =~= self@);
        copy
    }
}

/// One scanned file: its path relative to the scan root and what was measured
/// in it.
#[derive(Debug, PartialEq, Eq)]
pub struct ScannedFile {
    pub relative_path: String,
    pub summary: FileLocSummary,
}

/// Mathematical value of a [`ScannedFile`].
pub struct ScannedFileView {
    pub relative_path: Seq<char>,
    pub summary: FileLocSummaryView,
}

impl View for ScannedFile {
    type V = ScannedFileView;

    open spec fn view(&self) -> ScannedFileView {
        ScannedFileView { relative_path: self.relative_path@, summary: self.summary@ }
    }
}

impl Clone for ScannedFile {
    fn clone(&self) -> (copy: Self)
        ensures
            copy@ == self@,
    {
        ScannedFile { relative_path: self.relative_path.clone(), summary: self.summary.clone() }
    }
}

/// Copies a list of scanned files.
pub fn clone_files(files: &[ScannedFile]) -> (copy: Vec<ScannedFile>)
    ensures
        views(copy@) == views(files@),
{
    let mut copy: Vec<ScannedFile> = Vec::new();
    let mut i: usize = 0;
    while i < files.len()
        invariant
            i <= files.len(),
            views(copy@) == views(files@.take(i as int)),
        decreases files.len() - i,
    {
        copy.push(files[i].clone());
        assert(views(copy@) =~= views(files@.take(i as int)).push(files@[i as int]@));
        assert(views(files@.take(i + 1)) =~= views(files@.take(i as int)).push(files@[i as int]@));
        i = i + 1;
    }
    assert(files@.take(i as int) =~= files@);
    copy
}

} // verus!
