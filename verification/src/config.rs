//! The Markdown size limit read from the configuration.

use std::num::ParseIntError;

use vstd::prelude::*;

verus! {

/// The default largest Markdown file, in bytes (5 MiB).
pub const DEFAULT_MAX_MARKDOWN_BYTES: u64 = 5242880;

/// Why a configured Markdown size limit was refused.
#[derive(Debug)]
pub enum MarkdownLimitError {
    /// The limit is not a decimal number that fits in `u64`.
    Invalid(ParseIntError),
    /// A limit of zero bytes.
    Zero,
}

/// `std::num::ParseIntError`, the reason a number did not parse.
#[verifier::external_type_specification]
#[verifier::external_body]
pub struct ExParseIntError(ParseIntError);

/// A decimal digit.
pub open spec fn is_digit(c: char) -> bool {
    '0' <= c && c <= '9'
}

/// The value of a string of decimal digits.
pub open spec fn digits_value(s: Seq<char>) -> int
    decreases s.len(),
{
    if s.len() == 0 {
        0
    } else {
        digits_value(s.drop_last()) * 10 + (s.last() as int - '0' as int)
    }
}

/// What `u64::from_str` accepts: an optional `+` and at least one decimal
/// digit, nothing else, with a value that fits in `u64`.
pub open spec fn u64_text_value(s: Seq<char>) -> Option<u64> {
    let digits = if s.len() > 0 && s[0] == '+' {
        s.drop_first()
    } else {
        s
    };
    if digits.len() > 0 && (forall|i: int| 0 <= i < digits.len() ==> is_digit(#[trigger] digits[i]))
        && digits_value(digits) <= u64::MAX {
        Some(digits_value(digits) as u64)
    } else {
        None
    }
}

/// Parses a decimal `u64` with `str::parse`.
#[verifier::external_body]
pub(crate) fn parse_u64(text: &str) -> (r: Result<u64, ParseIntError>)
    ensures
        match r {
            Ok(n) => u64_text_value(text@) == Some(n),
            Err(_) => u64_text_value(text@) is None,
        },
{
    text.parse()
}

/// The Markdown size limit: the default when none is configured; otherwise
/// the configured decimal number, which must not be zero.
pub fn parse_max_markdown_bytes(value: Option<&str>) -> (r: Result<u64, MarkdownLimitError>)
    ensures
        match value {
            None => r == Ok::<u64, MarkdownLimitError>(DEFAULT_MAX_MARKDOWN_BYTES),
            Some(text) => match u64_text_value(text@) {
                None => r matches Err(MarkdownLimitError::Invalid(_)),
                Some(0) => r matches Err(MarkdownLimitError::Zero),
                Some(n) => r == Ok::<u64, MarkdownLimitError>(n),
            },
        },
{
    let maximum = match value {
        Some(text) => match parse_u64(text) {
            Ok(n) => n,
            Err(e) => return Err(MarkdownLimitError::Invalid(e)),
        },
        None => DEFAULT_MAX_MARKDOWN_BYTES,
    };
    if maximum == 0 {
        return Err(MarkdownLimitError::Zero);
    }
    Ok(maximum)
}

} // verus!
