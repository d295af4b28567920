//! Lexically canonical, Vault-relative paths.
//!
//! A `CanonicalPath` is a UTF-8 relative path with exactly one lexical form:
//! no empty, `.`, `..` or hidden segments, `/` as the only separator, no
//! percent sign, NUL or control character, and bounded byte lengths. The
//! filesystem is never consulted here; containment and symlink checks belong
//! to the Vault adapter.

use vstd::prelude::*;

use crate::text::{
    byte_len, byte_len_exceeds, chars_of, str_len, contains_char, ends_with, ends_with_chars, is_ascii_alpha, is_control,
    join_seq, lemma_join_split, lemma_split_shape, split_chars, split_seq, string_from_chars,
};

verus! {

/// Maximum number of bytes of a whole path.
pub const MAX_PATH_BYTES: usize = 1024;

/// Maximum number of bytes of one path segment (a file or directory name).
pub const MAX_SEGMENT_BYTES: usize = 255;

/// Why a raw string is not an acceptable path.
#[derive(Clone, Debug, PartialEq, Eq)]
pub enum PathError {
    EmptyPath,
    AbsolutePath,
    WindowsSeparator,
    AmbiguousPercentEncoding,
    NulCharacter,
    ControlCharacter,
    PathTooLong { actual: usize, maximum: usize },
    EmptySegment,
    CurrentDirectorySegment,
    ParentDirectorySegment,
    HiddenSegment(String),
    SegmentTooLong { actual: usize, maximum: usize },
    MarkdownExtensionRequired,
}

/// The mathematical form of a `PathError`: the hidden segment as characters.
pub enum PathErrorView {
    EmptyPath,
    AbsolutePath,
    WindowsSeparator,
    AmbiguousPercentEncoding,
    NulCharacter,
    ControlCharacter,
    PathTooLong { actual: int, maximum: int },
    EmptySegment,
    CurrentDirectorySegment,
    ParentDirectorySegment,
    HiddenSegment(Seq<char>),
    SegmentTooLong { actual: int, maximum: int },
    MarkdownExtensionRequired,
}

impl View for PathError {
    type V = PathErrorView;

    open spec fn view(&self) -> PathErrorView {
        match self {
            PathError::EmptyPath => PathErrorView::EmptyPath,
            PathError::AbsolutePath => PathErrorView::AbsolutePath,
            PathError::WindowsSeparator => PathErrorView::WindowsSeparator,
            PathError::AmbiguousPercentEncoding => PathErrorView::AmbiguousPercentEncoding,
            PathError::NulCharacter => PathErrorView::NulCharacter,
            PathError::ControlCharacter => PathErrorView::ControlCharacter,
            PathError::PathTooLong { actual, maximum } => PathErrorView::PathTooLong {
                actual: *actual as int,
                maximum: *maximum as int,
            },
            PathError::EmptySegment => PathErrorView::EmptySegment,
            PathError::CurrentDirectorySegment => PathErrorView::CurrentDirectorySegment,
            PathError::ParentDirectorySegment => PathErrorView::ParentDirectorySegment,
            PathError::HiddenSegment(segment) => PathErrorView::HiddenSegment(segment@),
            PathError::SegmentTooLong { actual, maximum } => PathErrorView::SegmentTooLong {
                actual: *actual as int,
                maximum: *maximum as int,
            },
            PathError::MarkdownExtensionRequired => PathErrorView::MarkdownExtensionRequired,
        }
    }
}

/// A path that starts like `C:` with an ASCII drive letter.
pub open spec fn has_windows_drive_prefix(s: Seq<char>) -> bool {
    s.len() >= 2 && is_ascii_alpha(s[0]) && s[1] == ':'
}

/// The first rule of the whole path that `s` breaks, in the order the rules are checked.
pub open spec fn whole_path_error(s: Seq<char>) -> Option<PathErrorView> {
    if s.len() == 0 {
        Some(PathErrorView::EmptyPath)
    } else if s[0] == '/' || has_windows_drive_prefix(s) {
        Some(PathErrorView::AbsolutePath)
    } else if s.contains('\\') {
        Some(PathErrorView::WindowsSeparator)
    } else if s.contains('%') {
        Some(PathErrorView::AmbiguousPercentEncoding)
    } else if s.contains('\0') {
        Some(PathErrorView::NulCharacter)
    } else if exists|i: int| 0 <= i < s.len() && is_control(#[trigger] s[i]) {
        Some(PathErrorView::ControlCharacter)
    } else if byte_len(s) > MAX_PATH_BYTES {
        Some(
            PathErrorView::PathTooLong {
                actual: str_len(s) as int,
                maximum: MAX_PATH_BYTES as int,
            },
        )
    } else {
        None
    }
}

/// The first rule that one segment breaks.
pub open spec fn segment_error(segment: Seq<char>) -> Option<PathErrorView> {
    if segment.len() == 0 {
        Some(PathErrorView::EmptySegment)
    } else if segment == seq!['.'] {
        Some(PathErrorView::CurrentDirectorySegment)
    } else if segment == seq!['.', '.'] {
        Some(PathErrorView::ParentDirectorySegment)
    } else if segment[0] == '.' {
        Some(PathErrorView::HiddenSegment(segment))
    } else if byte_len(segment) > MAX_SEGMENT_BYTES {
        Some(
            PathErrorView::SegmentTooLong {
                actual: str_len(segment) as int,
                maximum: MAX_SEGMENT_BYTES as int,
            },
        )
    } else {
        None
    }
}

/// The error of the first segment, in order, that breaks a rule.
pub open spec fn first_segment_error(segments: Seq<Seq<char>>) -> Option<PathErrorView>
    decreases segments.len(),
{
    if segments.len() == 0 {
        None
    } else {
        match segment_error(segments[0]) {
            Some(e) => Some(e),
            None => first_segment_error(segments.drop_first()),
        }
    }
}

/// Why `s` is not a canonical path, if it is not one: whole-path rules first,
/// then the `/`-separated segments from left to right.
pub open spec fn canonical_path_error(s: Seq<char>) -> Option<PathErrorView> {
    match whole_path_error(s) {
        Some(e) => Some(e),
        None => first_segment_error(split_seq(s, '/')),
    }
}

/// `s` is a canonical path.
pub open spec fn is_canonical_path(s: Seq<char>) -> bool {
    canonical_path_error(s) is None
}

/// Why `s` is not a Markdown path, if it is not one.
pub open spec fn markdown_path_error(s: Seq<char>) -> Option<PathErrorView> {
    match canonical_path_error(s) {
        Some(e) => Some(e),
        None => if ends_with(s, seq!['.', 'm', 'd']) {
            None
        } else {
            Some(PathErrorView::MarkdownExtensionRequired)
        },
    }
}

/// `s` is a canonical path to a lowercase `.md` file.
pub open spec fn is_markdown_path(s: Seq<char>) -> bool {
    markdown_path_error(s) is None
}

/// A validated relative path; its value never breaks a path rule.
#[derive(Debug, PartialEq, Eq, Hash)]
pub struct CanonicalPath(String);

impl View for CanonicalPath {
    type V = Seq<char>;

    closed spec fn view(&self) -> Seq<char> {
        self.0@
    }
}

impl CanonicalPath {
    #[verifier::type_invariant]
    spec fn well_formed(self) -> bool {
        is_canonical_path(self.0@)
    }

    /// Validates `raw` and keeps it as a path.
    pub fn parse(raw: &str) -> (result: Result<CanonicalPath, PathError>)
        ensures
            match result {
                Ok(path) => is_canonical_path(raw@) && path@ == raw@,
                Err(e) => canonical_path_error(raw@) == Some(e@),
            },
    {
        let chars = chars_of(raw);
        match validate_whole_path(raw, &chars) {
            Ok(()) => {},
            Err(e) => {
                return Err(e);
            },
        }
        let segments = split_chars(&chars, '/');
        assert(split_seq(raw@, '/').skip(0) == split_seq(raw@, '/'));
        let mut i: usize = 0;
        while i < segments.len()
            invariant
                whole_path_error(raw@) is None,
                i <= segments@.len(),
                segments@.len() == split_seq(raw@, '/').len(),
                forall|k: int|
                    0 <= k < segments@.len() ==> #[trigger] segments@[k]@ == split_seq(
                        raw@,
                        '/',
                    )[k],
                first_segment_error(split_seq(raw@, '/')) == first_segment_error(
                    split_seq(raw@, '/').skip(i as int),
                ),
            decreases segments@.len() - i,
        {
            let ghost rest = split_seq(raw@, '/').skip(i as int);
            assert(rest.drop_first() == split_seq(raw@, '/').skip(i + 1));
            assert(rest[0] == segments@[i as int]@);
            match validate_segment(&segments[i]) {
                Ok(()) => {
                    assert(first_segment_error(rest) == first_segment_error(rest.drop_first()));
                },
                Err(e) => {
                    assert(first_segment_error(rest) == Some(e@));
                    return Err(e);
                },
            }
            i = i + 1;
        }
        assert(split_seq(raw@, '/').skip(i as int).len() == 0);
        Ok(CanonicalPath(raw.to_owned()))
    }

    /// The path as a string slice.
    pub fn as_str(&self) -> (s: &str)
        ensures
            s@ == self@,
    {
        self.0.as_str()
    }

    /// The `/`-separated segments, in order.
    pub fn segments(&self) -> (segments: Vec<String>)
        ensures
            segments@.len() == split_seq(self@, '/').len(),
            forall|i: int|
                0 <= i < segments@.len() ==> #[trigger] segments@[i]@ == split_seq(self@, '/')[i],
    {
        let chars = chars_of(self.0.as_str());
        let pieces = split_chars(&chars, '/');
        let mut segments: Vec<String> = Vec::new();
        let mut i: usize = 0;
        while i < pieces.len()
            invariant
                i <= pieces@.len(),
                segments@.len() == i,
                forall|k: int| 0 <= k < i ==> #[trigger] segments@[k]@ == pieces@[k]@,
            decreases pieces@.len() - i,
        {
            segments.push(string_from_chars(pieces[i].as_slice()));
            i = i + 1;
        }
        segments
    }

}

impl Clone for CanonicalPath {
    /// A copy of the path.
    fn clone(&self) -> (copy: CanonicalPath)
        ensures
            copy@ == self@,
    {
        proof {
            use_type_invariant(self);
        }
        CanonicalPath(self.0.clone())
    }
}

/// A validated path to a file whose name ends with lowercase `.md`.
#[derive(Debug, PartialEq, Eq, Hash)]
pub struct MarkdownPath(CanonicalPath);

impl View for MarkdownPath {
    type V = Seq<char>;

    closed spec fn view(&self) -> Seq<char> {
        self.0@
    }
}

impl MarkdownPath {
    #[verifier::type_invariant]
    spec fn well_formed(self) -> bool {
        is_markdown_path(self.0@)
    }

    /// Validates `raw` as a canonical path whose file name ends with lowercase `.md`.
    pub fn parse(raw: &str) -> (result: Result<MarkdownPath, PathError>)
        ensures
            match result {
                Ok(path) => is_markdown_path(raw@) && path@ == raw@,
                Err(e) => markdown_path_error(raw@) == Some(e@),
            },
    {
        let path = match CanonicalPath::parse(raw) {
            Ok(path) => path,
            Err(e) => {
                return Err(e);
            },
        };
        let chars = chars_of(raw);
        let extension = ['.', 'm', 'd'];
        assert(extension@ == seq!['.', 'm', 'd']);
        if !ends_with_chars(&chars, &extension) {
            return Err(PathError::MarkdownExtensionRequired);
        }
        Ok(MarkdownPath(path))
    }

    /// The path as a canonical path.
    pub fn as_canonical(&self) -> (path: &CanonicalPath)
        ensures
            path@ == self@,
    {
        &self.0
    }

    /// The path as a string slice.
    pub fn as_str(&self) -> (s: &str)
        ensures
            s@ == self@,
    {
        self.0.as_str()
    }

}

impl Clone for MarkdownPath {
    /// A copy of the path.
    fn clone(&self) -> (copy: MarkdownPath)
        ensures
            copy@ == self@,
    {
        proof {
            use_type_invariant(self);
        }
        MarkdownPath(self.0.clone())
    }
}

fn validate_whole_path(raw: &str, chars: &Vec<char>) -> (result: Result<(), PathError>)
    requires
        chars@ == raw@,
    ensures
        match result {
            Ok(()) => whole_path_error(raw@) is None,
            Err(e) => whole_path_error(raw@) == Some(e@),
        },
{
    if chars.len() == 0 {
        return Err(PathError::EmptyPath);
    }
    if chars[0] == '/' || has_drive_prefix(chars) {
        return Err(PathError::AbsolutePath);
    }
    if contains_char(chars, '\\') {
        return Err(PathError::WindowsSeparator);
    }
    if contains_char(chars, '%') {
        return Err(PathError::AmbiguousPercentEncoding);
    }
    if contains_char(chars, '\0') {
        return Err(PathError::NulCharacter);
    }
    if any_control(chars) {
        return Err(PathError::ControlCharacter);
    }
    if byte_len_exceeds(chars.as_slice(), MAX_PATH_BYTES) {
        return Err(PathError::PathTooLong { actual: raw.len(), maximum: MAX_PATH_BYTES });
    }
    Ok(())
}

fn validate_segment(segment: &Vec<char>) -> (result: Result<(), PathError>)
    ensures
        match result {
            Ok(()) => segment_error(segment@) is None,
            Err(e) => segment_error(segment@) == Some(e@),
        },
{
    if segment.len() == 0 {
        return Err(PathError::EmptySegment);
    }
    if segment.len() == 1 && segment[0] == '.' {
        assert(segment@ == seq!['.']);
        return Err(PathError::CurrentDirectorySegment);
    }
    if segment.len() == 2 && segment[0] == '.' && segment[1] == '.' {
        assert(segment@ == seq!['.', '.']);
        return Err(PathError::ParentDirectorySegment);
    }
    if segment[0] == '.' {
        return Err(PathError::HiddenSegment(string_from_chars(segment.as_slice())));
    }
    if byte_len_exceeds(segment.as_slice(), MAX_SEGMENT_BYTES) {
        let text = string_from_chars(segment.as_slice());
        return Err(
            PathError::SegmentTooLong { actual: text.as_str().len(), maximum: MAX_SEGMENT_BYTES },
        );
    }
    Ok(())
}

fn has_drive_prefix(chars: &Vec<char>) -> (b: bool)
    ensures
        b == has_windows_drive_prefix(chars@),
{
    chars.len() >= 2 && is_ascii_alpha_char(chars[0]) && chars[1] == ':'
}

/// `char::is_ascii_alphabetic`.
pub fn is_ascii_alpha_char(c: char) -> (b: bool)
    ensures
        b == is_ascii_alpha(c),
{
    ('a' <= c && c <= 'z') || ('A' <= c && c <= 'Z')
}

/// `char::is_control`: general category Cc.
pub fn is_control_char(c: char) -> (b: bool)
    ensures
        b == is_control(c),
{
    c <= '\u{1F}' || ('\u{7F}' <= c && c <= '\u{9F}')
}

fn any_control(chars: &Vec<char>) -> (b: bool)
    ensures
        b == exists|i: int| 0 <= i < chars@.len() && is_control(#[trigger] chars@[i]),
{
    let mut i: usize = 0;
    while i < chars.len()
        invariant
            i <= chars@.len(),
            forall|j: int| 0 <= j < i ==> !is_control(#[trigger] chars@[j]),
        decreases chars@.len() - i,
    {
        if is_control_char(chars[i]) {
            return true;
        }
        i = i + 1;
    }
    false
}

/// A canonical path joins back from its segments, and none of them is empty
/// or names `.` or `..`.
pub proof fn lemma_canonical_segments(path: Seq<char>)
    requires
        is_canonical_path(path),
    ensures
        join_seq(split_seq(path, '/'), '/') == path,
        forall|i: int|
            0 <= i < split_seq(path, '/').len() ==> {
                let segment = #[trigger] split_seq(path, '/')[i];
                &&& segment.len() > 0
                &&& segment[0] != '.'
                &&& !segment.contains('/')
            },
{
    lemma_join_split(path, '/');
    lemma_split_shape(path, '/');
    lemma_first_segment_error_none(split_seq(path, '/'));
    assert forall|i: int| 0 <= i < split_seq(path, '/').len() implies {
        let segment = #[trigger] split_seq(path, '/')[i];
        &&& segment.len() > 0
        &&& segment[0] != '.'
        &&& !segment.contains('/')
    } by {
        let segment = split_seq(path, '/')[i];
        assert(segment_error(segment) is None);
        if segment.contains('/') {
            let j = choose|j: int| 0 <= j < segment.len() && segment[j] == '/';
            assert(split_seq(path, '/')[i][j] != '/');
        }
    }
}

/// Every Markdown path is a canonical path whose text ends with `.md`.
pub proof fn lemma_markdown_path_is_canonical(s: Seq<char>)
    requires
        is_markdown_path(s),
    ensures
        is_canonical_path(s),
        ends_with(s, seq!['.', 'm', 'd']),
{
}

proof fn lemma_first_segment_error_none(segments: Seq<Seq<char>>)
    requires
        first_segment_error(segments) is None,
    ensures
        forall|i: int| 0 <= i < segments.len() ==> #[trigger] segment_error(segments[i]) is None,
    decreases segments.len(),
{
    if segments.len() > 0 {
        lemma_first_segment_error_none(segments.drop_first());
        assert forall|i: int| 0 <= i < segments.len() implies #[trigger] segment_error(
            segments[i],
        ) is None by {
            if i > 0 {
                assert(segments[i] == segments.drop_first()[i - 1]);
            }
        }
    }
}

} // verus!
