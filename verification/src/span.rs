//! From a range of lines to the number of lines that count.

use vstd::prelude::*;
use crate::syntax::Span;
use crate::text::{count_true, lemma_count_true_bound};

verus! {

/// The line count of the lines `start` to `end` (counted from 1, both ends
/// included) of a file whose lines carry content as `lines` says.
///
/// There is no count when the file has no lines, when either end is 0, when
/// the range is empty once `end` is brought down to the last line, or when no
/// line of the range carries content.
pub open spec fn span_loc(lines: Seq<bool>, start: nat, end: nat) -> Option<nat> {
    let last = if end > lines.len() {
        lines.len()
    } else {
        end
    };
    if lines.len() == 0 || start == 0 || end == 0 || last < start {
        None
    } else {
        let count = count_true(lines.subrange(start - 1, last as int));
        if count == 0 {
            None
        } else {
            Some(count)
        }
    }
}

/// The value of an optional count.
pub open spec fn option_nat(count: Option<usize>) -> Option<nat> {
    match count {
        Some(n) => Some(n as nat),
        None => None,
    }
}

/// A count that exists is positive and no larger than the range.
pub proof fn lemma_span_loc_bounds(lines: Seq<bool>, start: nat, end: nat)
    ensures
        span_loc(lines, start, end) matches Some(n) ==> 0 < n <= lines.len() && n <= end - start
            + 1,
{
    let last = if end > lines.len() {
        lines.len()
    } else {
        end
    };
    if !(lines.len() == 0 || start == 0 || end == 0 || last < start) {
        lemma_count_true_bound(lines.subrange(start - 1, last as int));
    }
}

/// Counts the content lines of `span` in a file whose lines carry content as
/// `lines` says.
pub fn measure_span(lines: &Vec<bool>, span: &Span) -> (loc: Option<usize>)
    ensures
        option_nat(loc) == span_loc(lines@, span.start_line as nat, span.end_line as nat),
{
    let start = span.start_line;
    let end = span.end_line;
    if lines.len() == 0 || start == 0 || end == 0 {
        return None;
    }
    let last = if end > lines.len() {
        lines.len()
    } else {
        end
    };
    if last < start {
        return None;
    }
    let first: usize = start - 1;
    let mut count: usize = 0;
    let mut i: usize = first;
    while i < last
        invariant
            first <= i <= last <= lines.len(),
            count <= i - first,
            count == count_true(lines@.subrange(first as int, i as int)),
        decreases last - i,
    {
        assert(lines@.subrange(first as int, i + 1).drop_last() =~= lines@.subrange(
            first as int,
            i as int,
        ));
        if lines[i] {
            count = count + 1;
        }
        i = i + 1;
    }
    if count == 0 {
        None
    } else {
        Some(count)
    }
}

} // verus!
