//! Paths as text: what the standard library is asked about them, and the
//! order in which a report lists them.
//!
//! The library holds a path as text. How a path falls into components
//! depends on the platform, so the questions about components go to
//! `std::path`, and of the answers only that is claimed which holds on
//! every platform.

use vstd::prelude::*;
use vstd::std_specs::iter::IteratorSpec;
use vstd::utf8::char_u32_cast;
use crate::sorting::{distinct_ranks, lex_le_by};
use crate::text::push_char;

verus! {

/// Whether `part` stands in `path` right behind a dot.
pub open spec fn follows_dot(path: Seq<char>, part: Seq<char>) -> bool {
    exists|i: int|
        0 <= i && i + 1 + part.len() <= path.len() && path[i] == '.' && #[trigger] path.subrange(
            i + 1,
            i + 1 + part.len(),
        ) == part
}

/// The extension of the file name that `path` ends in, as
/// `std::path::Path::extension` finds it on this platform; `None` also where
/// the extension is not valid Unicode. Which file name a path ends in is
/// the platform's to say. On every platform an extension is the portion of
/// that name after its final dot, so it stands in the path right behind a
/// dot: that much is claimed, and no more.
#[verifier::external_body]
pub(crate) fn path_extension(path: &str) -> (extension: Option<String>)
    ensures
        extension matches Some(text) ==> follows_dot(path@, text@),
{
    match std::path::Path::new(path).extension() {
        Some(extension) => match extension.to_str() {
            Some(text) => Some(text.to_string()),
            None => None,
        },
        None => None,
    }
}

/// The last component of `path`, as `std::path::Path::file_name` finds it
/// on this platform; `None` also where the name is not valid Unicode.
/// Nothing is claimed of the result.
#[verifier::external_body]
pub(crate) fn path_file_name(path: &str) -> (name: Option<String>) {
    match std::path::Path::new(path).file_name() {
        Some(name) => match name.to_str() {
            Some(text) => Some(text.to_string()),
            None => None,
        },
        None => None,
    }
}

/// Whether the components of `base` begin those of `path`, as
/// `std::path::Path::starts_with` decides it on this platform. How a path
/// falls into components is the platform's to say. On every platform a path
/// begins with itself: that much is claimed, and no more.
#[verifier::external_body]
pub(crate) fn path_starts_with(path: &str, base: &str) -> (begins: bool)
    ensures
        path@ == base@ ==> begins,
{
    std::path::Path::new(path).starts_with(base)
}

/// The character that separates the components of a path on this platform,
/// `std::path::MAIN_SEPARATOR`. Nothing is claimed of it.
#[verifier::external_body]
pub(crate) fn main_separator() -> (separator: char) {
    std::path::MAIN_SEPARATOR
}

/// `path` with each `separator` replaced by a forward slash.
pub open spec fn with_forward_slashes(path: Seq<char>, separator: char) -> Seq<char> {
    path.map_values(
        |c: char|
            if c == separator {
                '/'
            } else {
                c
            },
    )
}

/// Writes `path` with forward slashes in place of `separator`.
pub fn replace_separator(path: &str, separator: char) -> (target: String)
    ensures
        target@ == with_forward_slashes(path@, separator),
{
    let mut target = String::new();
    let mut it = path.chars();
    let ghost mut read: int = 0;
    loop
        invariant
            it.obeys_prophetic_iter_laws(),
            it.decrease() is Some,
            0 <= read <= path@.len(),
            it.remaining() == path@.skip(read),
            target@ == with_forward_slashes(path@.take(read), separator),
        ensures
            target@ == with_forward_slashes(path@, separator),
        decreases it.decrease()->0,
    {
        let next = it.next();
        match next {
            None => {
                assert(path@.take(read) =~= path@);
                break ;
            },
            Some(c) => {
                let written = if c == separator {
                    '/'
                } else {
                    c
                };
                push_char(&mut target, written);
                proof {
                    assert(path@[read] == c);
                    assert(path@.skip(read).drop_first() =~= path@.skip(read + 1));
                    assert(with_forward_slashes(path@.take(read + 1), separator)
                        =~= with_forward_slashes(path@.take(read), separator).push(written));
                    read = read + 1;
                }
            },
        }
    }
    target
}

/// The text against which patterns are matched: the relative path with
/// forward slashes between its components, whatever the platform's
/// separator is.
pub fn path_for_matching(relative: &str) -> (target: String)
    ensures
        exists|separator: char| target@ == with_forward_slashes(relative@, separator),
{
    let separator = main_separator();
    replace_separator(relative, separator)
}

/// A path written with forward slashes is matched as it is.
pub proof fn lemma_forward_slashes_kept(path: Seq<char>)
    ensures
        with_forward_slashes(path, '/') == path,
{
    assert(with_forward_slashes(path, '/') =~= path);
}

/// The rank of a character among paths: the forward slash first, then the
/// others by code point. With it, comparing paths as text compares them
/// component by component.
pub open spec fn path_rank() -> spec_fn(char) -> int {
    |c: char|
        if c == '/' {
            0
        } else {
            c as u32 as int + 1
        }
}

/// Whether the path `a` comes before the path `b` or equals it.
pub open spec fn path_le(a: Seq<char>, b: Seq<char>) -> bool {
    lex_le_by(a, b, path_rank())
}

/// No two characters have the same rank among paths.
pub proof fn lemma_path_ranks_distinct()
    ensures
        distinct_ranks(path_rank()),
{
    let rank = path_rank();
    assert forall|x: char, y: char| #[trigger] rank(x) == #[trigger] rank(y) implies x == y by {
        char_u32_cast(x, x as u32);
        char_u32_cast(y, y as u32);
    }
}

/// The rank of a character among paths.
fn rank_of(c: char) -> (rank: u64)
    ensures
        rank == path_rank()(c),
{
    if c == '/' {
        0
    } else {
        c as u64 + 1
    }
}

/// Decides whether the path `a` comes before the path `b` or equals it.
pub fn path_before(a: &str, b: &str) -> (r: bool)
    ensures
        r == path_le(a@, b@),
{
    let mut left = a.chars();
    let mut right = b.chars();
    loop
        invariant
            left.obeys_prophetic_iter_laws(),
            right.obeys_prophetic_iter_laws(),
            left.decrease() is Some,
            path_le(a@, b@) == path_le(left.remaining(), right.remaining()),
        decreases left.decrease()->0,
    {
        let x = left.next();
        match x {
            None => {
                return true;
            },
            Some(c) => {
                let y = right.next();
                match y {
                    None => {
                        return false;
                    },
                    Some(d) => {
                        if c != d {
                            return rank_of(c) < rank_of(d);
                        }
                    },
                }
            },
        }
    }
}

/// Decides whether one of `excludes` begins `relative`, component by
/// component.
///
/// Without excluded paths nothing is excluded, and a path that is itself
/// among the excluded paths is excluded. Which other paths an excluded path
/// begins is the platform's to say.
pub fn should_exclude(relative: &str, excludes: &Vec<String>) -> (excluded: bool)
    ensures
        excludes.len() == 0 ==> !excluded,
        (exists|i: int| 0 <= i < excludes.len() && (#[trigger] excludes[i])@ == relative@)
            ==> excluded,
{
    let mut i: usize = 0;
    while i < excludes.len()
        invariant
            i <= excludes.len(),
            forall|k: int| 0 <= k < i ==> (#[trigger] excludes[k])@ != relative@,
        decreases excludes.len() - i,
    {
        if path_starts_with(relative, excludes[i].as_str()) {
            return true;
        }
        i = i + 1;
    }
    false
}

} // verus!
