//! Regular expressions over relative paths.
//!
//! The expressions are those of the `regex` crate. What a pattern matches
//! is the crate's to say; the library states its rules over the answers.

use vstd::prelude::*;
use crate::summary::views;

verus! {

/// The type `regex::Regex`, which verified code only carries along.
#[verifier::external_type_specification]
#[verifier::external_body]
pub struct ExRegex(regex::Regex);

/// The type `regex::Error`, which verified code only carries along.
#[verifier::external_type_specification]
#[verifier::external_body]
pub struct ExRegexError(regex::Error);

/// Whether `regex::Regex::new` accepts `pattern`.
pub uninterp spec fn pattern_compiles(pattern: Seq<char>) -> bool;

/// Whether the expression that `regex::Regex::new` makes of `pattern` has a
/// match anywhere in `text`.
pub uninterp spec fn pattern_accepts(pattern: Seq<char>, text: Seq<char>) -> bool;

/// The pattern that `regex::Regex::as_str` returns for an expression.
pub uninterp spec fn regex_source(regex: regex::Regex) -> Seq<char>;

/// Whether `regex::Regex::is_match` finds a match of the expression
/// anywhere in `text`.
pub uninterp spec fn regex_accepts(regex: regex::Regex, text: Seq<char>) -> bool;

/// Whether `regex` is the expression that `regex::Regex::new` makes of
/// `pattern`: it gives that pattern back and matches what the pattern
/// matches.
pub open spec fn compiled_from(regex: regex::Regex, pattern: Seq<char>) -> bool {
    &&& regex_source(regex) == pattern
    &&& forall|text: Seq<char>| #[trigger]
        regex_accepts(regex, text) == pattern_accepts(pattern, text)
}

/// Calls `regex::Regex::new`. It succeeds on the patterns that compile, and
/// what it returns is the expression made of `pattern`.
#[verifier::external_body]
fn compile_regex(pattern: &str) -> (compiled: Result<regex::Regex, regex::Error>)
    ensures
        compiled is Ok <==> pattern_compiles(pattern@),
        compiled matches Ok(regex) ==> regex_source(regex) == pattern@,
        compiled matches Ok(regex) ==> forall|text: Seq<char>| #[trigger]
            regex_accepts(regex, text) == pattern_accepts(pattern@, text),
{
    regex::Regex::new(pattern)
}

/// Calls `regex::Regex::is_match`: whether the expression has a match
/// anywhere in `text`.
#[verifier::external_body]
fn regex_is_match(regex: &regex::Regex, text: &str) -> (found: bool)
    ensures
        found == regex_accepts(*regex, text@),
{
    regex.is_match(text)
}

/// Calls `regex::Regex::as_str`, which returns the pattern that the
/// expression was made of.
#[verifier::external_body]
fn regex_as_str(regex: &regex::Regex) -> (pattern: &str)
    ensures
        pattern@ == regex_source(*regex),
{
    regex.as_str()
}

/// Calls `Clone::clone` on an expression: the copy gives the same pattern
/// back and matches the same texts.
#[verifier::external_body]
fn clone_regex(regex: &regex::Regex) -> (copy: regex::Regex)
    ensures
        regex_source(copy) == regex_source(*regex),
        forall|text: Seq<char>| #[trigger]
            regex_accepts(copy, text) == regex_accepts(*regex, text),
{
    regex.clone()
}

/// A compiled pattern for relative paths. It stands for the pattern it was
/// compiled from.
#[derive(Debug)]
pub struct PathPattern {
    regex: regex::Regex,
}

impl View for PathPattern {
    type V = Seq<char>;

    closed spec fn view(&self) -> Seq<char> {
        regex_source(self.regex)
    }
}

impl PathPattern {
    /// Every pattern was made by compiling the text it gives back.
    #[verifier::type_invariant]
    spec fn made_by_compile(self) -> bool {
        compiled_from(self.regex, regex_source(self.regex))
    }

    /// Compiles `pattern`, or says that it does not compile.
    pub fn compile(pattern: &str) -> (compiled: Option<PathPattern>)
        ensures
            compiled is Some <==> pattern_compiles(pattern@),
            compiled matches Some(made) ==> made@ == pattern@,
    {
        match compile_regex(pattern) {
            Ok(regex) => Some(PathPattern { regex }),
            Err(_) => None,
        }
    }

    /// Decides whether the pattern has a match anywhere in `text`.
    pub fn is_match(&self, text: &str) -> (found: bool)
        ensures
            found == pattern_accepts(self@, text@),
    {
        proof {
            use_type_invariant(self);
        }
        regex_is_match(&self.regex, text)
    }

    /// The pattern as it was written.
    pub fn as_str(&self) -> (pattern: &str)
        ensures
            pattern@ == self@,
    {
        regex_as_str(&self.regex)
    }
}

impl Clone for PathPattern {
    fn clone(&self) -> (copy: Self)
        ensures
            copy@ == self@,
    {
        proof {
            use_type_invariant(self);
        }
        PathPattern { regex: clone_regex(&self.regex) }
    }
}

/// Whether one of `patterns` has a match in `target`.
pub open spec fn any_accepts(patterns: Seq<Seq<char>>, target: Seq<char>) -> bool {
    exists|i: int| 0 <= i < patterns.len() && pattern_accepts(#[trigger] patterns[i], target)
}

/// Compiles each of `patterns`. The result is the compiled patterns in the
/// order in which they were given, or the first pattern that does not
/// compile.
pub fn compile_patterns(patterns: &Vec<String>) -> (compiled: Result<Vec<PathPattern>, String>)
    ensures
        match compiled {
            Ok(made) => {
                &&& views(made@) == views(patterns@)
                &&& forall|i: int|
                    0 <= i < patterns.len() ==> pattern_compiles(#[trigger] patterns[i]@)
            },
            Err(pattern) => exists|k: int|
                {
                    &&& 0 <= k < patterns.len()
                    &&& pattern@ == (#[trigger] patterns[k])@
                    &&& !pattern_compiles(patterns[k]@)
                    &&& forall|j: int| 0 <= j < k ==> pattern_compiles(#[trigger] patterns[j]@)
                },
        },
{
    let mut made: Vec<PathPattern> = Vec::new();
    let mut i: usize = 0;
    proof {
        assert(views(made@) =~= views(patterns@.take(0)));
    }
    while i < patterns.len()
        invariant
            i <= patterns.len(),
            views(made@) == views(patterns@.take(i as int)),
            forall|j: int| 0 <= j < i ==> pattern_compiles(#[trigger] patterns[j]@),
        decreases patterns.len() - i,
    {
        match PathPattern::compile(patterns[i].as_str()) {
            Some(pattern) => {
                made.push(pattern);
                assert(views(made@) =~= views(patterns@.take(i as int)).push(
                    patterns@[i as int]@,
                ));
                assert(views(patterns@.take(i + 1)) =~= views(patterns@.take(i as int)).push(
                    patterns@[i as int]@,
                ));
            },
            None => {
                return Err(patterns[i].clone());
            },
        }
        i = i + 1;
    }
    assert(patterns@.take(i as int) =~= patterns@);
    Ok(made)
}

/// Decides whether one of `patterns` has a match in `target`.
pub fn matches_regexes(target: &str, patterns: &Vec<PathPattern>) -> (found: bool)
    ensures
        found == any_accepts(views(patterns@), target@),
{
    let mut i: usize = 0;
    while i < patterns.len()
        invariant
            i <= patterns.len(),
            forall|k: int| 0 <= k < i ==> !pattern_accepts(#[trigger] views(patterns@)[k], target@),
        decreases patterns.len() - i,
    {
        if patterns[i].is_match(target) {
            assert(pattern_accepts(views(patterns@)[i as int], target@));
            return true;
        }
        i = i + 1;
    }
    false
}

} // verus!
