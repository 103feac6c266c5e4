//! Lines of a source text and which of them carry content.
//!
//! A line is a maximal run of characters without a line feed; a line feed at
//! the very end of the text ends the last line and starts no new one. A line
//! carries content when at least one of its characters is not white space.
//! Carriage returns are white space, so texts with either kind of line ending
//! measure alike.

use vstd::prelude::*;
use vstd::std_specs::iter::IteratorSpec;

verus! {

/// Whether `c` is white space: the code points that carry the Unicode
/// `White_Space` property.
pub open spec fn is_whitespace(c: char) -> bool {
    let n = c as u32;
    ||| 0x09 <= n <= 0x0D
    ||| n == 0x20
    ||| n == 0x85
    ||| n == 0xA0
    ||| n == 0x1680
    ||| 0x2000 <= n <= 0x200A
    ||| n == 0x2028
    ||| n == 0x2029
    ||| n == 0x202F
    ||| n == 0x205F
    ||| n == 0x3000
}

/// Decides whether a character is white space.
pub fn char_is_whitespace(c: char) -> (r: bool)
    ensures
        r == is_whitespace(c),
{
    let n: u32 = c as u32;
    (0x09 <= n && n <= 0x0D) || n == 0x20 || n == 0x85 || n == 0xA0 || n == 0x1680 || (0x2000 <= n
        && n <= 0x200A) || n == 0x2028 || n == 0x2029 || n == 0x202F || n == 0x205F || n == 0x3000
}

/// Index of the first line feed of `text`, or its length if it has none.
pub open spec fn first_newline(text: Seq<char>) -> int
    decreases text.len(),
{
    if text.len() == 0 || text[0] == '\n' {
        0
    } else {
        1 + first_newline(text.drop_first())
    }
}

/// The lines of `text`, without their line feeds.
pub open spec fn split_lines(text: Seq<char>) -> Seq<Seq<char>>
    decreases text.len(),
{
    let n = first_newline(text);
    if text.len() == 0 {
        Seq::empty()
    } else if 0 <= n < text.len() {
        seq![text.take(n)] + split_lines(text.skip(n + 1))
    } else {
        seq![text]
    }
}

/// Whether a line holds a character that is not white space.
pub open spec fn has_content(line: Seq<char>) -> bool {
    exists|i: int| 0 <= i < line.len() && !is_whitespace(#[trigger] line[i])
}

/// For each line of `text`, in order, whether it carries content.
pub open spec fn content_flags(text: Seq<char>) -> Seq<bool> {
    split_lines(text).map_values(|line: Seq<char>| has_content(line))
}

/// Number of `true` entries of `flags`.
pub open spec fn count_true(flags: Seq<bool>) -> nat
    decreases flags.len(),
{
    if flags.len() == 0 {
        0
    } else {
        count_true(flags.drop_last()) + if flags.last() {
            1nat
        } else {
            0nat
        }
    }
}

/// Number of lines of `text` that carry content.
pub open spec fn total_loc(text: Seq<char>) -> nat {
    count_true(content_flags(text))
}

/// The first line feed lies within the text or at its end, and nothing before
/// it is a line feed.
pub proof fn lemma_first_newline(text: Seq<char>)
    ensures
        0 <= first_newline(text) <= text.len(),
        first_newline(text) < text.len() ==> text[first_newline(text)] == '\n',
        forall|i: int| 0 <= i < first_newline(text) ==> text[i] != '\n',
    decreases text.len(),
{
    if text.len() == 0 || text[0] == '\n' {
    } else {
        let rest = text.drop_first();
        lemma_first_newline(rest);
        assert forall|i: int| 0 <= i < first_newline(text) implies text[i] != '\n' by {
            if i > 0 {
                assert(text[i] == rest[i - 1]);
            }
        }
    }
}

/// At most as many entries are `true` as there are entries.
pub proof fn lemma_count_true_bound(flags: Seq<bool>)
    ensures
        count_true(flags) <= flags.len(),
    decreases flags.len(),
{
    if flags.len() > 0 {
        lemma_count_true_bound(flags.drop_last());
    }
}

/// A line has content exactly if its first character is not white space or
/// the rest of the line has content.
proof fn lemma_has_content_first(line: Seq<char>)
    requires
        line.len() > 0,
    ensures
        has_content(line) == (!is_whitespace(line[0]) || has_content(line.drop_first())),
{
    let rest = line.drop_first();
    if has_content(line) {
        let i = choose|i: int| 0 <= i < line.len() && !is_whitespace(#[trigger] line[i]);
        if i > 0 {
            assert(rest[i - 1] == line[i]);
        }
    }
    if has_content(rest) {
        let i = choose|i: int| 0 <= i < rest.len() && !is_whitespace(#[trigger] rest[i]);
        assert(line[i + 1] == rest[i]);
    }
}

/// The flags that a scan from left to right still owes: `seen` says whether
/// the line being read already showed content, `open` whether it has any
/// character yet, and `rest` is what remains to be read.
spec fn scan_flags(seen: bool, open: bool, rest: Seq<char>) -> Seq<bool>
    decreases rest.len(),
{
    if rest.len() == 0 {
        if open {
            seq![seen]
        } else {
            Seq::empty()
        }
    } else if rest[0] == '\n' {
        seq![seen] + scan_flags(false, false, rest.drop_first())
    } else {
        scan_flags(seen || !is_whitespace(rest[0]), true, rest.drop_first())
    }
}

/// What the scan owes, said over the lines of `rest`.
spec fn owed_flags(seen: bool, open: bool, rest: Seq<char>) -> Seq<bool> {
    let n = first_newline(rest);
    if n < rest.len() {
        seq![seen || has_content(rest.take(n))] + content_flags(rest.skip(n + 1))
    } else if open || rest.len() > 0 {
        seq![seen || has_content(rest)]
    } else {
        Seq::empty()
    }
}

proof fn lemma_content_flags_owed(text: Seq<char>)
    ensures
        content_flags(text) == owed_flags(false, false, text),
{
    lemma_first_newline(text);
    let n = first_newline(text);
    let f = |line: Seq<char>| has_content(line);
    if text.len() == 0 {
        assert(content_flags(text) =~= Seq::<bool>::empty());
    } else if n < text.len() {
        let head = seq![text.take(n)];
        let tail = split_lines(text.skip(n + 1));
        assert((head + tail).map_values(f) =~= seq![has_content(text.take(n))] + tail.map_values(
            f,
        ));
    } else {
        assert(seq![text].map_values(f) =~= seq![has_content(text)]);
    }
}

proof fn lemma_scan_flags(seen: bool, open: bool, rest: Seq<char>)
    ensures
        scan_flags(seen, open, rest) == owed_flags(seen, open, rest),
    decreases rest.len(),
{
    lemma_first_newline(rest);
    if rest.len() == 0 {
        assert(!has_content(rest));
    } else {
        let tail = rest.drop_first();
        lemma_first_newline(tail);
        if rest[0] == '\n' {
            lemma_scan_flags(false, false, tail);
            lemma_content_flags_owed(tail);
            assert(rest.take(0).len() == 0);
            assert(!has_content(rest.take(0)));
            assert(rest.skip(1) =~= tail);
        } else {
            let now = seen || !is_whitespace(rest[0]);
            lemma_scan_flags(now, true, tail);
            let m = first_newline(tail);
            if m < tail.len() {
                assert(rest.take(m + 1).drop_first() =~= tail.take(m));
                lemma_has_content_first(rest.take(m + 1));
                assert(rest.skip(m + 2) =~= tail.skip(m + 1));
            } else {
                lemma_has_content_first(rest);
            }
        }
    }
}

/// Reads `source` once and says, for each of its lines, whether it carries
/// content.
pub fn content_lines(source: &str) -> (flags: Vec<bool>)
    ensures
        flags@ == content_flags(source@),
{
    let mut flags: Vec<bool> = Vec::new();
    let mut seen = false;
    let mut open = false;
    let mut it = source.chars();
    proof {
        lemma_scan_flags(false, false, source@);
        lemma_content_flags_owed(source@);
    }
    loop
        invariant
            it.obeys_prophetic_iter_laws(),
            it.decrease() is Some,
            content_flags(source@) == flags@ + scan_flags(seen, open, it.remaining()),
        ensures
            content_flags(source@) == flags@ + if open {
                seq![seen]
            } else {
                Seq::<bool>::empty()
            },
        decreases it.decrease()->0,
    {
        let next = it.next();
        match next {
            None => {
                break ;
            },
            Some(c) => {
                if c == '\n' {
                    flags.push(seen);
                    seen = false;
                    open = false;
                } else {
                    if !char_is_whitespace(c) {
                        seen = true;
                    }
                    open = true;
                }
            },
        }
    }
    if open {
        flags.push(seen);
    }
    flags
}

/// Counts the `true` entries of `flags`.
pub fn count_flags(flags: &Vec<bool>) -> (count: usize)
    ensures
        count == count_true(flags@),
{
    let mut count: usize = 0;
    let mut i: usize = 0;
    while i < flags.len()
        invariant
            i <= flags.len(),
            count <= i,
            count == count_true(flags@.take(i as int)),
        decreases flags.len() - i,
    {
        assert(flags@.take(i + 1).drop_last() =~= flags@.take(i as int));
        if flags[i] {
            count = count + 1;
        }
        i = i + 1;
    }
    assert(flags@.take(i as int) =~= flags@);
    count
}

/// Counts the lines of `source` that carry content.
pub fn count_content_lines(source: &str) -> (count: usize)
    ensures
        count == total_loc(source@),
{
    let flags = content_lines(source);
    count_flags(&flags)
}

/// `text` without the white space it begins with.
pub open spec fn trim_start(text: Seq<char>) -> Seq<char>
    decreases text.len(),
{
    if text.len() > 0 && is_whitespace(text[0]) {
        trim_start(text.drop_first())
    } else {
        text
    }
}

/// `text` without the white space it ends with.
pub open spec fn trim_end(text: Seq<char>) -> Seq<char>
    decreases text.len(),
{
    if text.len() > 0 && is_whitespace(text.last()) {
        trim_end(text.drop_last())
    } else {
        text
    }
}

/// `text` without the white space at its two ends.
pub open spec fn trimmed(text: Seq<char>) -> Seq<char> {
    trim_end(trim_start(text))
}

/// The text without the white space it begins with starts where the first
/// character stands that is not white space.
proof fn lemma_trim_start(text: Seq<char>, start: int)
    requires
        0 <= start <= text.len(),
        forall|k: int| 0 <= k < start ==> is_whitespace(#[trigger] text[k]),
        start < text.len() ==> !is_whitespace(text[start]),
    ensures
        trim_start(text) == text.skip(start),
    decreases text.len(),
{
    if start == 0 {
        assert(text.skip(0) =~= text);
    } else {
        let rest = text.drop_first();
        assert(is_whitespace(text[0]));
        assert forall|k: int| 0 <= k < start - 1 implies is_whitespace(#[trigger] rest[k]) by {
            assert(rest[k] == text[k + 1]);
        }
        lemma_trim_start(rest, start - 1);
        assert(rest.skip(start - 1) =~= text.skip(start));
    }
}

/// The text without the white space it ends with ends behind the last
/// character that is not white space.
proof fn lemma_trim_end(text: Seq<char>, end: int)
    requires
        0 <= end <= text.len(),
        forall|k: int| end <= k < text.len() ==> is_whitespace(#[trigger] text[k]),
        end > 0 ==> !is_whitespace(text[end - 1]),
    ensures
        trim_end(text) == text.take(end),
    decreases text.len(),
{
    if end == text.len() {
        assert(text.take(end) =~= text);
    } else {
        let front = text.drop_last();
        assert(is_whitespace(text.last()));
        assert forall|k: int| end <= k < front.len() implies is_whitespace(#[trigger] front[k]) by {
            assert(front[k] == text[k]);
        }
        lemma_trim_end(front, end);
        assert(front.take(end) =~= text.take(end));
    }
}

/// The part of `text` between the white space at its two ends.
pub fn trim(text: &str) -> (inner: &str)
    ensures
        inner@ == trimmed(text@),
{
    let len = text.unicode_len();
    let mut it = text.chars();
    let mut read: usize = 0;
    let mut content = false;
    let mut start: usize = 0;
    let mut end: usize = 0;
    loop
        invariant
            it.obeys_prophetic_iter_laws(),
            it.decrease() is Some,
            len == text@.len(),
            read <= len,
            it.remaining() == text@.skip(read as int),
            !content ==> start == 0 && end == 0 && forall|k: int|
                0 <= k < read ==> is_whitespace(#[trigger] text@[k]),
            content ==> {
                &&& start < end <= read
                &&& forall|k: int| 0 <= k < start ==> is_whitespace(#[trigger] text@[k])
                &&& !is_whitespace(text@[start as int])
                &&& !is_whitespace(text@[end - 1])
                &&& forall|k: int| end <= k < read ==> is_whitespace(#[trigger] text@[k])
            },
        ensures
            read == len,
            !content ==> start == 0 && end == 0 && forall|k: int|
                0 <= k < read ==> is_whitespace(#[trigger] text@[k]),
            content ==> {
                &&& start < end <= read
                &&& forall|k: int| 0 <= k < start ==> is_whitespace(#[trigger] text@[k])
                &&& !is_whitespace(text@[start as int])
                &&& !is_whitespace(text@[end - 1])
                &&& forall|k: int| end <= k < read ==> is_whitespace(#[trigger] text@[k])
            },
        decreases it.decrease()->0,
    {
        let next = it.next();
        match next {
            None => {
                break ;
            },
            Some(c) => {
                assert(text@[read as int] == c);
                assert(text@.skip(read as int).drop_first() =~= text@.skip(read + 1));
                if !char_is_whitespace(c) {
                    if !content {
                        content = true;
                        start = read;
                    }
                    end = read + 1;
                }
                read = read + 1;
            },
        }
    }
    proof {
        if content {
            lemma_trim_start(text@, start as int);
            let tail = text@.skip(start as int);
            assert forall|k: int| end - start <= k < tail.len() implies is_whitespace(
                #[trigger] tail[k],
            ) by {
                assert(tail[k] == text@[k + start]);
            }
            assert(tail[end - start - 1] == text@[end - 1]);
            lemma_trim_end(tail, end - start);
            assert(tail.take(end - start) =~= text@.subrange(start as int, end as int));
        } else {
            lemma_trim_start(text@, len as int);
            assert(text@.skip(len as int) =~= Seq::<char>::empty());
            assert(text@.subrange(0, 0) =~= Seq::<char>::empty());
        }
    }
    text.substring_char(start, end)
}

/// Calls `String::push`, which appends one character to the text.
#[verifier::external_body]
pub(crate) fn push_char(text: &mut String, c: char)
    ensures
        final(text)@ == old(text)@.push(c),
{
    text.push(c)
}

} // verus!
