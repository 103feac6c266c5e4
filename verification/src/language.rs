//! The languages whose files can be measured.

use vstd::prelude::*;
use vstd::std_specs::iter::IteratorSpec;
use crate::paths::{follows_dot, path_extension};

verus! {

/// A language of source files.
#[derive(Clone, Copy, Debug, PartialEq, Eq, PartialOrd, Ord)]
pub enum Language {
    Rust,
}

/// Whether `extension` is `rs`, in upper or lower case.
pub open spec fn is_rust_extension(extension: Seq<char>) -> bool {
    &&& extension.len() == 2
    &&& (extension[0] == 'r' || extension[0] == 'R')
    &&& (extension[1] == 's' || extension[1] == 'S')
}

impl Language {
    /// Whether a file with the given extension, if it has one, is written in
    /// this language.
    pub open spec fn accepts_extension(self, extension: Option<Seq<char>>) -> bool {
        match self {
            Language::Rust => match extension {
                Some(text) => is_rust_extension(text),
                None => false,
            },
        }
    }

    /// Whether `path` holds, right behind a dot, an extension of this
    /// language.
    pub open spec fn may_accept(self, path: Seq<char>) -> bool {
        exists|extension: Seq<char>|
            #[trigger] follows_dot(path, extension) && self.accepts_extension(Some(extension))
    }

    /// Decides whether a file with the given extension, if it has one, is
    /// written in this language.
    pub fn matches_extension(&self, extension: Option<&str>) -> (accepted: bool)
        ensures
            accepted == self.accepts_extension(
                match extension {
                    Some(text) => Some(text@),
                    None => None,
                },
            ),
    {
        match self {
            Language::Rust => match extension {
                None => false,
                Some(text) => {
                    let mut it = text.chars();
                    let first = it.next();
                    let second = it.next();
                    let third = it.next();
                    match (first, second, third) {
                        (Some(a), Some(b), None) => {
                            assert(text@.len() == 2);
                            assert(text@[0] == a && text@[1] == b);
                            (a == 'r' || a == 'R') && (b == 's' || b == 'S')
                        },
                        _ => {
                            assert(text@.len() != 2);
                            false
                        },
                    }
                },
            },
        }
    }

    /// Decides whether the file at `path` is written in this language, by
    /// the extension of its file name.
    ///
    /// Which file name a path ends in is the platform's to say. Whatever it
    /// says, a path is accepted only if an extension of this language stands
    /// in it right behind a dot.
    pub fn matches(&self, path: &str) -> (accepted: bool)
        ensures
            accepted ==> self.may_accept(path@),
    {
        match path_extension(path) {
            Some(extension) => self.matches_extension(Some(extension.as_str())),
            None => self.matches_extension(None),
        }
    }

    /// The name of the language in reports.
    pub fn display_name(&self) -> (name: &'static str)
        ensures
            name@ == "rust"@,
    {
        match self {
            Language::Rust => "rust",
        }
    }
}

} // verus!
