//! Validation of search requests.

use vstd::prelude::*;

use crate::config::{parse_u64, u64_text_value};
use crate::domain::path::{
    canonical_path_error, first_segment_error, segment_error, CanonicalPath, PathError, PathErrorView,
};
use crate::domain::search::SearchQuery;
use crate::text::{byte_len_exceeds, byte_len, chars_of, string_from_chars, trim_whitespace, trim_ws};

verus! {

/// Results per page when the request names no limit.
pub const DEFAULT_SEARCH_LIMIT: u32 = 20;

/// The largest number of results a request may ask for.
pub const MAX_SEARCH_LIMIT: u32 = 100;

/// The longest query text, in UTF-8 bytes after trimming.
pub const MAX_SEARCH_QUERY_BYTES: usize = 512;

/// Why a search request was refused.
#[derive(Debug)]
pub enum SearchRequestError {
    /// The query text is missing, blank, or longer than allowed.
    InvalidQuery,
    /// The path prefix breaks a path rule.
    InvalidPath(PathError),
    /// The limit is not a whole number from 1 to the maximum.
    InvalidLimit,
}

/// The limit a request asks for: the default when absent, otherwise a
/// decimal number from 1 to the maximum.
pub open spec fn search_limit_spec(limit: Option<Seq<char>>) -> Option<u32> {
    match limit {
        None => Some(DEFAULT_SEARCH_LIMIT),
        Some(text) => match u64_text_value(text) {
            Some(n) => if 1 <= n && n <= MAX_SEARCH_LIMIT {
                Some(n as u32)
            } else {
                None
            },
            None => None,
        },
    }
}

proof fn lemma_segment_errors_need_no_extension(segments: Seq<Seq<char>>)
    ensures
        first_segment_error(segments) matches Some(e) ==> !(e is MarkdownExtensionRequired),
    decreases segments.len(),
{
    if segments.len() > 0 && segment_error(segments[0]) is None {
        lemma_segment_errors_need_no_extension(segments.drop_first());
    }
}

/// A path prefix is only ever refused for breaking a canonical path rule,
/// never for a missing `.md` extension, so every refused search request is
/// answered as a bad request.
pub proof fn lemma_refused_prefix_is_bad_request(prefix: Seq<char>)
    ensures
        canonical_path_error(prefix) matches Some(e) ==> !(e is MarkdownExtensionRequired),
{
    lemma_segment_errors_need_no_extension(crate::text::split_seq(prefix, '/'));
}

/// A request without a limit gets 20 results; a given limit that reads as a
/// decimal number from 1 to 100 is kept as it is, and any other is refused.
pub proof fn lemma_given_limit_is_kept(text: Seq<char>)
    ensures
        search_limit_spec(None) == Some(20u32),
        match u64_text_value(text) {
            Some(n) => if 1 <= n <= 100 {
                search_limit_spec(Some(text)) matches Some(limit) && limit as int == n
            } else {
                search_limit_spec(Some(text)) is None
            },
            None => search_limit_spec(Some(text)) is None,
        },
{
}

/// Validates a search request: the trimmed query must be non-empty and at
/// most 512 bytes; an empty path prefix means none, any other must be a
/// canonical path; the limit must be valid. The checks run in that order.
pub fn validate_search_query(
    query: Option<&str>,
    path_prefix: Option<&str>,
    limit: Option<&str>,
) -> (r: Result<SearchQuery, SearchRequestError>)
    ensures
        match query {
            None => r matches Err(SearchRequestError::InvalidQuery),
            Some(q) => if trim_ws(q@).len() == 0 || byte_len(trim_ws(q@)) > MAX_SEARCH_QUERY_BYTES {
                r matches Err(SearchRequestError::InvalidQuery)
            } else {
                match path_prefix {
                    Some(p) if p@.len() > 0 && canonical_path_error(p@) is Some => r matches Err(
                        SearchRequestError::InvalidPath(e),
                    ) && Some(e@) == canonical_path_error(p@),
                    _ => match search_limit_spec(
                        match limit {
                            Some(l) => Some(l@),
                            None => None,
                        },
                    ) {
                        None => r matches Err(SearchRequestError::InvalidLimit),
                        Some(n) => r matches Ok(sq) && sq.text@ == trim_ws(q@) && sq.limit == n && match path_prefix {
                            Some(p) if p@.len() > 0 => sq.path_prefix matches Some(pp) && pp@ == p@,
                            _ => sq.path_prefix is None,
                        },
                    },
                }
            },
        },
{
    let text = match query {
        Some(q) => {
            let chars = chars_of(q);
            let trimmed = trim_whitespace(chars.as_slice());
            if trimmed.len() == 0 || byte_len_exceeds(trimmed.as_slice(), MAX_SEARCH_QUERY_BYTES) {
                return Err(SearchRequestError::InvalidQuery);
            }
            string_from_chars(trimmed.as_slice())
        },
        None => return Err(SearchRequestError::InvalidQuery),
    };
    let prefix = match path_prefix {
        Some(p) => {
            if p.is_empty() {
                None
            } else {
                match CanonicalPath::parse(p) {
                    Ok(path) => Some(path),
                    Err(e) => return Err(SearchRequestError::InvalidPath(e)),
                }
            }
        },
        None => None,
    };
    let limit = match limit {
        Some(l) => match parse_u64(l) {
            Ok(n) => {
                if 1 <= n && n <= MAX_SEARCH_LIMIT as u64 {
                    n as u32
                } else {
                    return Err(SearchRequestError::InvalidLimit);
                }
            },
            Err(_) => return Err(SearchRequestError::InvalidLimit),
        },
        None => DEFAULT_SEARCH_LIMIT,
    };
    Ok(SearchQuery { text, path_prefix: prefix, limit })
}

} // verus!
