//! The options of a run and the reading of numeric option values.

use vstd::prelude::*;
use vstd::std_specs::iter::IteratorSpec;
use vstd::string::StringExecFns;
use crate::language::Language;
use crate::offenders::OffenderFilter;
use crate::output::OutputFormat;

verus! {

/// The options of one run.
#[derive(Debug)]
pub struct Cli {
    /// Language to scan.
    pub lang: Language,
    /// Starting path to scan.
    pub path: String,
    /// Whether ignore files are honoured while walking.
    pub git_ignore_support: bool,
    /// Relative paths to leave out.
    pub exclude: Vec<String>,
    /// Patterns that a relative path must match to be scanned.
    pub include_path: Vec<String>,
    /// Patterns that a relative path must not match to be scanned.
    pub exclude_path: Vec<String>,
    /// Format of the report.
    pub output_format: OutputFormat,
    /// Whether the report is narrowed to what exceeds the limits.
    pub offenders_only: bool,
    /// Limit per file, for a narrowed report.
    pub offending_max_loc_per_file: Option<usize>,
    /// Limit per function, for a narrowed report.
    pub offending_max_loc_per_fn: Option<usize>,
}

impl Cli {
    /// Whether a narrowed report comes with both of its limits.
    pub open spec fn limits_given(&self) -> bool {
        self.offenders_only ==> self.offending_max_loc_per_file is Some
            && self.offending_max_loc_per_fn is Some
    }

    /// The filter for a narrowed report, or none for a full report.
    pub fn offender_filter(&self) -> (filter: Option<OffenderFilter>)
        requires
            self.limits_given(),
        ensures
            filter is Some <==> self.offenders_only,
            filter matches Some(f) ==> Some(f.max_loc_per_file) == self.offending_max_loc_per_file
                && Some(f.max_loc_per_fn) == self.offending_max_loc_per_fn,
    {
        if self.offenders_only {
            match (self.offending_max_loc_per_file, self.offending_max_loc_per_fn) {
                (Some(max_loc_per_file), Some(max_loc_per_fn)) => Some(
                    OffenderFilter::new(max_loc_per_file, max_loc_per_fn),
                ),
                _ => None,
            }
        } else {
            None
        }
    }
}

/// Whether `c` is one of the digits `0` to `9`.
pub open spec fn is_digit(c: char) -> bool {
    '0' <= c <= '9'
}

/// The number that the digits of `digits` write in base ten.
pub open spec fn decimal_value(digits: Seq<char>) -> nat
    decreases digits.len(),
{
    if digits.len() == 0 {
        0
    } else {
        decimal_value(digits.drop_last()) * 10 + (digits.last() as u32 - '0' as u32) as nat
    }
}

/// How many digits `text` begins with.
pub open spec fn digit_prefix_len(text: Seq<char>) -> nat
    decreases text.len(),
{
    if text.len() == 0 || !is_digit(text[0]) {
        0
    } else {
        1 + digit_prefix_len(text.drop_first())
    }
}

/// What reading a text as a positive number comes to.
pub enum Reading {
    /// The text is empty.
    Empty,
    /// The text holds something that is no digit, or no digit at all.
    InvalidDigit,
    /// The number does not fit the machine's word.
    TooLarge,
    /// The number is zero.
    Zero,
    /// The number.
    Value(usize),
}

/// Reads `text` as a positive number in base ten, with an optional `+` in
/// front. The text is read from the left: what is found first decides, a
/// number that has grown too large or a character that is no digit.
pub open spec fn reading(text: Seq<char>) -> Reading {
    let digits = if text.len() > 0 && text[0] == '+' {
        text.drop_first()
    } else {
        text
    };
    let run = digits.take(digit_prefix_len(digits) as int);
    if text.len() == 0 {
        Reading::Empty
    } else if decimal_value(run) > usize::MAX {
        Reading::TooLarge
    } else if run.len() < digits.len() || digits.len() == 0 {
        Reading::InvalidDigit
    } else if decimal_value(run) == 0 {
        Reading::Zero
    } else {
        Reading::Value(decimal_value(run) as usize)
    }
}

/// The message for a text that is no number: the text in quotes, then why.
pub open spec fn parse_failure(text: Seq<char>, reason: Seq<char>) -> Seq<char> {
    "failed to parse '"@ + text + "' as usize: "@ + reason
}

/// What `parse_positive_usize` returns for each reading.
pub open spec fn parsed(text: Seq<char>, result: Result<usize, String>) -> bool {
    match reading(text) {
        Reading::Value(n) => result == Ok::<usize, String>(n),
        Reading::Zero => result is Err && result->Err_0@ == "value must be greater than zero"@,
        Reading::Empty => result is Err && result->Err_0@ == parse_failure(
            text,
            "cannot parse integer from empty string"@,
        ),
        Reading::InvalidDigit => result is Err && result->Err_0@ == parse_failure(
            text,
            "invalid digit found in string"@,
        ),
        Reading::TooLarge => result is Err && result->Err_0@ == parse_failure(
            text,
            "number too large to fit in target type"@,
        ),
    }
}

proof fn lemma_digit_prefix_len(text: Seq<char>)
    ensures
        digit_prefix_len(text) <= text.len(),
        forall|i: int| 0 <= i < digit_prefix_len(text) ==> is_digit(#[trigger] text[i]),
        digit_prefix_len(text) < text.len() ==> !is_digit(text[digit_prefix_len(text) as int]),
    decreases text.len(),
{
    if text.len() == 0 || !is_digit(text[0]) {
    } else {
        let rest = text.drop_first();
        lemma_digit_prefix_len(rest);
        assert forall|i: int| 0 <= i < digit_prefix_len(text) implies is_digit(
            #[trigger] text[i],
        ) by {
            if i > 0 {
                assert(text[i] == rest[i - 1]);
            }
        }
    }
}

/// The run of digits at the front has length `count` if the first `count`
/// characters are digits and the next one, if there is one, is not.
proof fn lemma_digit_prefix_is(text: Seq<char>, count: int)
    requires
        0 <= count <= text.len(),
        forall|i: int| 0 <= i < count ==> is_digit(#[trigger] text[i]),
        count < text.len() ==> !is_digit(text[count]),
    ensures
        digit_prefix_len(text) == count,
{
    lemma_digit_prefix_len(text);
    let found = digit_prefix_len(text) as int;
    if found < count {
        assert(is_digit(text[found]));
    }
    if found > count {
        assert(is_digit(text[count]));
    }
}

/// More digits write no smaller a number.
proof fn lemma_decimal_value_grows(digits: Seq<char>, shorter: int)
    requires
        0 <= shorter <= digits.len(),
    ensures
        decimal_value(digits.take(shorter)) <= decimal_value(digits),
    decreases digits.len(),
{
    if shorter < digits.len() {
        lemma_decimal_value_grows(digits.drop_last(), shorter);
        assert(digits.drop_last().take(shorter) =~= digits.take(shorter));
    } else {
        assert(digits.take(shorter) =~= digits);
    }
}

/// Builds the message for a text that is no number.
fn parse_failure_message(value: &str, reason: &str) -> (message: String)
    ensures
        message@ == parse_failure(value@, reason@),
{
    let mut message = String::from_str("failed to parse '");
    message.append(value);
    message.append("' as usize: ");
    message.append(reason);
    message
}

/// Reads `value` as a number larger than zero.
pub fn parse_positive_usize(value: &str) -> (result: Result<usize, String>)
    ensures
        parsed(value@, result),
{
    let ghost digits = if value@.len() > 0 && value@[0] == '+' {
        value@.drop_first()
    } else {
        value@
    };
    let mut it = value.chars();
    let mut parsed: usize = 0;
    let mut first = true;
    let mut any_digit = false;
    let ghost mut read: int = 0;
    loop
        invariant
            it.obeys_prophetic_iter_laws(),
            it.decrease() is Some,
            digits == if value@.len() > 0 && value@[0] == '+' {
                value@.drop_first()
            } else {
                value@
            },
            first ==> it.remaining() == value@ && read == 0 && !any_digit && parsed == 0,
            !first ==> value@.len() > 0,
            0 <= read <= digits.len(),
            it.remaining() == if first {
                value@
            } else {
                digits.skip(read)
            },
            forall|i: int| 0 <= i < read ==> is_digit(#[trigger] digits[i]),
            parsed == decimal_value(digits.take(read)),
            any_digit == (read > 0),
        decreases it.decrease()->0,
    {
        let next = it.next();
        match next {
            None => {
                proof {
                    if !first {
                        lemma_digit_prefix_is(digits, read);
                        assert(digits.take(read) =~= digits);
                    }
                }
                if first {
                    return Err(
                        parse_failure_message(value, "cannot parse integer from empty string"),
                    );
                }
                if !any_digit {
                    return Err(parse_failure_message(value, "invalid digit found in string"));
                }
                if parsed == 0 {
                    return Err(String::from_str("value must be greater than zero"));
                }
                return Ok(parsed);
            },
            Some(c) => {
                if first && c == '+' {
                    first = false;
                    assert(digits.skip(0) =~= digits);
                } else {
                    proof {
                        if first {
                            assert(digits.skip(0) =~= digits);
                        }
                        assert(digits[read] == c);
                        assert(digits.skip(read).drop_first() =~= digits.skip(read + 1));
                        assert(digits.take(read + 1).drop_last() =~= digits.take(read));
                    }
                    first = false;
                    if !('0' <= c && c <= '9') {
                        proof {
                            lemma_digit_prefix_is(digits, read);
                        }
                        return Err(parse_failure_message(value, "invalid digit found in string"));
                    }
                    let digit: usize = (c as u32 - '0' as u32) as usize;
                    if parsed > (usize::MAX - digit) / 10 {
                        proof {
                            lemma_digit_prefix_len(digits);
                            let run = digits.take(digit_prefix_len(digits) as int);
                            if digit_prefix_len(digits) <= read {
                                assert(is_digit(digits[digit_prefix_len(digits) as int]));
                            }
                            lemma_decimal_value_grows(run, read + 1);
                            assert(run.take(read + 1) =~= digits.take(read + 1));
                        }
                        return Err(
                            parse_failure_message(value, "number too large to fit in target type"),
                        );
                    }
                    parsed = parsed * 10 + digit;
                    any_digit = true;
                    proof {
                        read = read + 1;
                    }
                }
            },
        }
    }
}

} // verus!
