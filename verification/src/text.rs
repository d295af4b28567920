//! Character-level helpers over `str` and `String` values, with their
//! mathematical counterparts over `Seq<char>`.

use vstd::prelude::*;
use vstd::std_specs::iter::IteratorSpec;
use vstd::utf8::{char_is_scalar, encode_scalar, encode_utf8};

verus! {

/// Number of bytes in the UTF-8 encoding of a character sequence.
pub open spec fn byte_len(s: Seq<char>) -> int {
    encode_utf8(s).len() as int
}

/// Number of bytes of one character in UTF-8.
pub open spec fn char_width(c: char) -> int {
    encode_scalar(c as u32).len() as int
}

/// What `str::len` returns for a string with these characters.
pub open spec fn str_len(s: Seq<char>) -> usize {
    encode_utf8(s).len() as usize
}

/// The encoding of a concatenation is the concatenation of the encodings.
pub proof fn lemma_encode_concat(a: Seq<char>, b: Seq<char>)
    ensures
        encode_utf8(a + b) == encode_utf8(a) + encode_utf8(b),
    decreases a.len(),
{
    if a.len() > 0 {
        lemma_encode_concat(a.drop_first(), b);
        assert((a + b).drop_first() == a.drop_first() + b);
    } else {
        assert(a + b == b);
    }
}

/// Appending a character adds its width to the byte length.
pub proof fn lemma_byte_len_push(s: Seq<char>, c: char)
    ensures
        byte_len(s.push(c)) == byte_len(s) + char_width(c),
{
    lemma_encode_concat(s, seq![c]);
    assert(s.push(c) == s + seq![c]);
    assert(seq![c].drop_first() == Seq::<char>::empty());
    assert(encode_utf8(Seq::<char>::empty()) == Seq::<u8>::empty());
    assert(encode_utf8(seq![c]) == encode_scalar(c as u32) + encode_utf8(Seq::<char>::empty()));
    assert(encode_utf8(seq![c]) == encode_scalar(c as u32));
}

/// The byte length of a character in UTF-8.
pub fn char_width_of(c: char) -> (w: usize)
    ensures
        w == char_width(c),
        1 <= w <= 4,
{
    proof {
        char_is_scalar(c);
    }
    if c <= '\u{7F}' {
        1
    } else if c <= '\u{7FF}' {
        2
    } else if c <= '\u{FFFF}' {
        3
    } else {
        4
    }
}

/// Whether the UTF-8 encoding of `chars` is longer than `limit` bytes.
pub fn byte_len_exceeds(chars: &[char], limit: usize) -> (b: bool)
    requires
        limit <= 4096,
    ensures
        b == (byte_len(chars@) > limit),
{
    let mut total: usize = 0;
    let mut i: usize = 0;
    while i < chars.len()
        invariant
            limit <= 4096,
            i <= chars@.len(),
            total == byte_len(chars@.take(i as int)),
            total <= limit,
        decreases chars@.len() - i,
    {
        proof {
            lemma_byte_len_push(chars@.take(i as int), chars@[i as int]);
            assert(chars@.take(i + 1) == chars@.take(i as int).push(chars@[i as int]));
        }
        total = total + char_width_of(chars[i]);
        i = i + 1;
        if total > limit {
            proof {
                lemma_byte_len_prefix(chars@, i as int);
            }
            return true;
        }
    }
    assert(chars@.take(chars@.len() as int) == chars@);
    false
}

/// A prefix is never longer in bytes than the whole.
pub proof fn lemma_byte_len_prefix(s: Seq<char>, i: int)
    requires
        0 <= i <= s.len(),
    ensures
        byte_len(s.take(i)) <= byte_len(s),
{
    lemma_encode_concat(s.take(i), s.skip(i));
    assert(s.take(i) + s.skip(i) == s);
}

/// `s` ends with `suffix`.
pub open spec fn ends_with(s: Seq<char>, suffix: Seq<char>) -> bool {
    suffix.len() <= s.len() && s.subrange(s.len() - suffix.len(), s.len() as int) == suffix
}

/// `s` starts with `prefix`.
pub open spec fn starts_with(s: Seq<char>, prefix: Seq<char>) -> bool {
    prefix.len() <= s.len() && s.subrange(0, prefix.len() as int) == prefix
}

/// ASCII letter, as `char::is_ascii_alphabetic` defines it.
pub open spec fn is_ascii_alpha(c: char) -> bool {
    ('a' <= c && c <= 'z') || ('A' <= c && c <= 'Z')
}

/// Unicode general category Cc, which is what `char::is_control` tests.
pub open spec fn is_control(c: char) -> bool {
    (c as u32) <= 0x1F || (0x7F <= (c as u32) && (c as u32) <= 0x9F)
}

/// Splits `s` at every occurrence of `sep`, keeping empty pieces, as
/// `str::split` with a single-character pattern does.
pub open spec fn split_seq(s: Seq<char>, sep: char) -> Seq<Seq<char>>
    decreases s.len(),
{
    if s.len() == 0 {
        seq![Seq::<char>::empty()]
    } else {
        let prev = split_seq(s.drop_last(), sep);
        if s.last() == sep {
            prev.push(Seq::<char>::empty())
        } else {
            prev.update(prev.len() - 1, prev.last().push(s.last()))
        }
    }
}

/// Joins pieces with `sep` between consecutive pieces.
pub open spec fn join_seq(pieces: Seq<Seq<char>>, sep: char) -> Seq<char>
    decreases pieces.len(),
{
    if pieces.len() == 0 {
        Seq::<char>::empty()
    } else if pieces.len() == 1 {
        pieces[0]
    } else {
        join_seq(pieces.drop_last(), sep).push(sep) + pieces.last()
    }
}

/// Splitting always yields at least one piece, and no piece holds the separator.
pub proof fn lemma_split_shape(s: Seq<char>, sep: char)
    ensures
        split_seq(s, sep).len() >= 1,
        forall|i: int, j: int|
            0 <= i < split_seq(s, sep).len() && 0 <= j < split_seq(s, sep)[i].len()
                ==> split_seq(s, sep)[i][j] != sep,
    decreases s.len(),
{
    if s.len() > 0 {
        lemma_split_shape(s.drop_last(), sep);
    }
}

/// The first piece of a split is the text before the first separator, or the
/// whole text when it holds none; a text with a separator splits into at
/// least two pieces.
pub proof fn lemma_split_first(s: Seq<char>, sep: char, k: int)
    requires
        0 <= k <= s.len(),
        forall|i: int| 0 <= i < k ==> s[i] != sep,
        k == s.len() || s[k] == sep,
    ensures
        split_seq(s, sep)[0] == s.take(k),
        k == s.len() ==> split_seq(s, sep).len() == 1,
        k < s.len() ==> split_seq(s, sep).len() >= 2,
    decreases s.len(),
{
    if s.len() > 0 {
        let t = s.drop_last();
        lemma_split_shape(t, sep);
        if k == s.len() {
            lemma_split_first(t, sep, t.len() as int);
            assert(t.take(t.len() as int) == t);
            assert(s == t.push(s.last()));
        } else if k == t.len() {
            lemma_split_first(t, sep, k);
            assert(t.take(k) == t);
            assert(s.take(k) == t);
        } else {
            lemma_split_first(t, sep, k);
            assert(t.take(k) == s.take(k));
        }
    }
}

/// Joining the pieces of a split with the same separator gives back the input.
pub proof fn lemma_join_split(s: Seq<char>, sep: char)
    ensures
        join_seq(split_seq(s, sep), sep) == s,
    decreases s.len(),
{
    if s.len() > 0 {
        let prev = split_seq(s.drop_last(), sep);
        lemma_join_split(s.drop_last(), sep);
        lemma_split_shape(s.drop_last(), sep);
        if s.last() == sep {
            let cur = prev.push(Seq::<char>::empty());
            assert(cur.drop_last() == prev);
            assert(join_seq(cur, sep) == join_seq(prev, sep).push(sep) + Seq::<char>::empty());
            assert(s == s.drop_last().push(sep));
        } else {
            let cur = prev.update(prev.len() - 1, prev.last().push(s.last()));
            if prev.len() == 1 {
                assert(cur[0] == prev[0].push(s.last()));
                assert(s == s.drop_last().push(s.last()));
            } else {
                assert(cur.drop_last() == prev.drop_last());
                assert(join_seq(cur, sep) == join_seq(prev.drop_last(), sep).push(sep)
                    + prev.last().push(s.last()));
                assert(join_seq(prev, sep) == join_seq(prev.drop_last(), sep).push(sep)
                    + prev.last());
                assert(s == s.drop_last().push(s.last()));
                assert(join_seq(cur, sep) == join_seq(prev, sep).push(s.last()));
            }
        }
    }
}

/// The Unicode `White_Space` property, which `char::is_whitespace` tests.
pub open spec fn is_white_space(c: char) -> bool {
    let u = c as u32;
    (0x09 <= u && u <= 0x0D) || u == 0x20 || u == 0x85 || u == 0xA0 || u == 0x1680 || (0x2000 <= u
        && u <= 0x200A) || u == 0x2028 || u == 0x2029 || u == 0x202F || u == 0x205F || u == 0x3000
}

/// `char::is_whitespace`.
pub fn is_white_space_char(c: char) -> (b: bool)
    ensures
        b == is_white_space(c),
{
    ('\u{09}' <= c && c <= '\u{0D}') || c == ' ' || c == '\u{85}' || c == '\u{A0}' || c
        == '\u{1680}' || ('\u{2000}' <= c && c <= '\u{200A}') || c == '\u{2028}' || c == '\u{2029}'
        || c == '\u{202F}' || c == '\u{205F}' || c == '\u{3000}'
}

/// Which characters a trim removes: whitespace, or one given character.
pub enum TrimSet {
    Whitespace,
    Char(char),
}

/// `c` belongs to the trim set.
pub open spec fn in_trim_set(set: TrimSet, c: char) -> bool {
    match set {
        TrimSet::Whitespace => is_white_space(c),
        TrimSet::Char(x) => c == x,
    }
}

/// `s` without its leading characters from `set`.
pub open spec fn trim_start_set(s: Seq<char>, set: TrimSet) -> Seq<char>
    decreases s.len(),
{
    if s.len() > 0 && in_trim_set(set, s[0]) {
        trim_start_set(s.drop_first(), set)
    } else {
        s
    }
}

/// `s` without its trailing characters from `set`.
pub open spec fn trim_end_set(s: Seq<char>, set: TrimSet) -> Seq<char>
    decreases s.len(),
{
    if s.len() > 0 && in_trim_set(set, s.last()) {
        trim_end_set(s.drop_last(), set)
    } else {
        s
    }
}

/// `str::trim`: no leading or trailing whitespace.
pub open spec fn trim_ws(s: Seq<char>) -> Seq<char> {
    trim_end_set(trim_start_set(s, TrimSet::Whitespace), TrimSet::Whitespace)
}

fn in_set(set: &TrimSet, c: char) -> (b: bool)
    ensures
        b == in_trim_set(*set, c),
{
    match set {
        TrimSet::Whitespace => is_white_space_char(c),
        TrimSet::Char(x) => c == *x,
    }
}

/// Removes the leading characters of `set`.
pub fn trim_start(v: &[char], set: &TrimSet) -> (r: Vec<char>)
    ensures
        r@ == trim_start_set(v@, *set),
{
    let mut i: usize = 0;
    assert(v@.skip(0) == v@);
    while i < v.len() && in_set(set, v[i])
        invariant
            i <= v@.len(),
            trim_start_set(v@, *set) == trim_start_set(v@.skip(i as int), *set),
        decreases v@.len() - i,
    {
        assert(v@.skip(i as int).drop_first() == v@.skip(i + 1));
        i = i + 1;
    }
    let r = slice_to_vec(v, i, v.len());
    assert(r@ == v@.skip(i as int));
    r
}

/// Removes the trailing characters of `set`.
pub fn trim_end(v: &[char], set: &TrimSet) -> (r: Vec<char>)
    ensures
        r@ == trim_end_set(v@, *set),
{
    let mut j: usize = v.len();
    assert(v@.take(v@.len() as int) == v@);
    while j > 0 && in_set(set, v[j - 1])
        invariant
            j <= v@.len(),
            trim_end_set(v@, *set) == trim_end_set(v@.take(j as int), *set),
        decreases j,
    {
        assert(v@.take(j as int).drop_last() == v@.take(j - 1));
        j = j - 1;
    }
    let r = slice_to_vec(v, 0, j);
    assert(r@ == v@.take(j as int));
    r
}

/// `str::trim`.
pub fn trim_whitespace(v: &[char]) -> (r: Vec<char>)
    ensures
        r@ == trim_ws(v@),
{
    let start = trim_start(v, &TrimSet::Whitespace);
    trim_end(start.as_slice(), &TrimSet::Whitespace)
}

/// Copies `v[start..end]`.
pub fn slice_to_vec(v: &[char], start: usize, end: usize) -> (r: Vec<char>)
    requires
        start <= end <= v@.len(),
    ensures
        r@ == v@.subrange(start as int, end as int),
{
    let mut r: Vec<char> = Vec::new();
    let mut i = start;
    while i < end
        invariant
            start <= i <= end <= v@.len(),
            r@ == v@.subrange(start as int, i as int),
        decreases end - i,
    {
        r.push(v[i]);
        i = i + 1;
    }
    r
}

/// Position of the first `first` immediately followed by `second`, at or after `from`.
pub open spec fn find_pair_from(s: Seq<char>, first: char, second: char, from: int) -> Option<int>
    decreases s.len() - from,
{
    if from < 0 || from + 1 >= s.len() {
        None
    } else if s[from] == first && s[from + 1] == second {
        Some(from)
    } else {
        find_pair_from(s, first, second, from + 1)
    }
}

/// Position of the first `c` at or after `from`.
pub open spec fn find_char_from(s: Seq<char>, c: char, from: int) -> Option<int>
    decreases s.len() - from,
{
    if from < 0 || from >= s.len() {
        None
    } else if s[from] == c {
        Some(from)
    } else {
        find_char_from(s, c, from + 1)
    }
}

/// A found position lies in range.
pub proof fn lemma_find_pair_bounds(s: Seq<char>, first: char, second: char, from: int)
    ensures
        find_pair_from(s, first, second, from) matches Some(k) ==> from <= k && k + 1 < s.len()
            && s[k] == first && s[k + 1] == second,
    decreases s.len() - from,
{
    if !(from < 0 || from + 1 >= s.len()) && !(s[from] == first && s[from + 1] == second) {
        lemma_find_pair_bounds(s, first, second, from + 1);
    }
}

/// A found position lies in range.
pub proof fn lemma_find_char_bounds(s: Seq<char>, c: char, from: int)
    ensures
        find_char_from(s, c, from) matches Some(k) ==> from <= k < s.len() && s[k] == c,
    decreases s.len() - from,
{
    if !(from < 0 || from >= s.len()) && s[from] != c {
        lemma_find_char_bounds(s, c, from + 1);
    }
}

/// Finds the first `first` immediately followed by `second`, at or after `from`.
pub fn find_pair(v: &[char], first: char, second: char, from: usize) -> (r: Option<usize>)
    requires
        from <= v@.len(),
    ensures
        r == (match find_pair_from(v@, first, second, from as int) {
            Some(k) => Some(k as usize),
            None => None::<usize>,
        }),
        r matches Some(k) ==> from <= k && k + 1 < v@.len() && find_pair_from(
            v@,
            first,
            second,
            from as int,
        ) == Some(k as int),
        r is None ==> find_pair_from(v@, first, second, from as int) is None,
{
    proof {
        lemma_find_pair_bounds(v@, first, second, from as int);
    }
    let mut i = from;
    while v.len() - i > 1
        invariant
            from <= i <= v@.len(),
            find_pair_from(v@, first, second, from as int) == find_pair_from(
                v@,
                first,
                second,
                i as int,
            ),
        decreases v@.len() - i,
    {
        if v[i] == first && v[i + 1] == second {
            return Some(i);
        }
        i = i + 1;
    }
    None
}

/// Finds the first `c` at or after `from`.
pub fn find_char(v: &[char], c: char, from: usize) -> (r: Option<usize>)
    requires
        from <= v@.len(),
    ensures
        r == (match find_char_from(v@, c, from as int) {
            Some(k) => Some(k as usize),
            None => None::<usize>,
        }),
        r matches Some(k) ==> from <= k < v@.len() && find_char_from(v@, c, from as int) == Some(
            k as int,
        ),
        r is None ==> find_char_from(v@, c, from as int) is None,
{
    proof {
        lemma_find_char_bounds(v@, c, from as int);
    }
    let mut i = from;
    while i < v.len()
        invariant
            from <= i <= v@.len(),
            find_char_from(v@, c, from as int) == find_char_from(v@, c, i as int),
        decreases v@.len() - i,
    {
        if v[i] == c {
            return Some(i);
        }
        i = i + 1;
    }
    None
}

/// `str::to_lowercase`: the full Unicode lowercase mapping of a string.
pub uninterp spec fn lowercase(s: Seq<char>) -> Seq<char>;

/// Lowercases a string with `str::to_lowercase`.
#[verifier::external_body]
pub(crate) fn to_lowercase(s: &str) -> (r: String)
    ensures
        r@ == lowercase(s@),
{
    s.to_lowercase()
}

/// `char::is_alphanumeric`: the Unicode `Alphabetic` or `Numeric` property.
pub uninterp spec fn alphanumeric(c: char) -> bool;

/// ASCII letters and digits.
pub open spec fn is_ascii_alnum(c: char) -> bool {
    is_ascii_alpha(c) || ('0' <= c && c <= '9')
}

/// Tests a character with `char::is_alphanumeric`. On ASCII characters the
/// property holds exactly of letters and digits.
#[verifier::external_body]
pub(crate) fn is_alphanumeric(c: char) -> (b: bool)
    ensures
        b == alphanumeric(c),
        (c as u32) < 0x80 ==> (b == is_ascii_alnum(c)),
{
    c.is_alphanumeric()
}

/// Collects the characters of a string slice, in order.
pub fn chars_of(s: &str) -> (v: Vec<char>)
    ensures
        v@ == s@,
{
    let mut v: Vec<char> = Vec::new();
    for c in iter: s.chars()
        invariant
            v@ == iter.seq().take(iter.index() as int),
    {
        v.push(c);
    }
    v
}

/// Appends one character to a string (`String::push`).
#[verifier::external_body]
pub(crate) fn push_char(s: &mut String, c: char)
    ensures
        final(s)@ == old(s)@.push(c),
{
    s.push(c);
}

/// Appends a string slice to a string (`String::push_str`).
#[verifier::external_body]
pub(crate) fn push_str(s: &mut String, t: &str)
    ensures
        final(s)@ == old(s)@ + t@,
{
    s.push_str(t);
}

/// Builds a string from a slice of characters.
pub fn string_from_chars(v: &[char]) -> (s: String)
    ensures
        s@ == v@,
{
    let mut s = String::new();
    let mut i: usize = 0;
    while i < v.len()
        invariant
            i <= v@.len(),
            s@ == v@.take(i as int),
        decreases v@.len() - i,
    {
        push_char(&mut s, v[i]);
        i = i + 1;
        assert(v@.take(i as int) == v@.take((i - 1) as int).push(v@[i - 1]));
    }
    assert(v@.take(v@.len() as int) == v@);
    s
}

/// Whether a character slice holds `c`.
pub fn contains_char(v: &[char], c: char) -> (b: bool)
    ensures
        b == v@.contains(c),
{
    let mut i: usize = 0;
    while i < v.len()
        invariant
            i <= v@.len(),
            forall|j: int| 0 <= j < i ==> v@[j] != c,
        decreases v@.len() - i,
    {
        if v[i] == c {
            assert(v@[i as int] == c);
            return true;
        }
        i = i + 1;
    }
    false
}

/// Whether `v` ends with the characters of `suffix`.
pub fn ends_with_chars(v: &[char], suffix: &[char]) -> (b: bool)
    ensures
        b == ends_with(v@, suffix@),
{
    if suffix.len() > v.len() {
        return false;
    }
    let n = v.len();
    let offset = n - suffix.len();
    let mut i: usize = 0;
    while i < suffix.len()
        invariant
            n == v@.len(),
            offset + suffix@.len() == v@.len(),
            i <= suffix@.len(),
            forall|j: int| 0 <= j < i ==> v@[offset + j] == suffix@[j],
        decreases suffix@.len() - i,
    {
        assert(offset + i < v@.len());
        if v[offset + i] != suffix[i] {
            assert(v@.subrange(offset as int, v@.len() as int)[i as int] != suffix@[i as int]);
            return false;
        }
        i = i + 1;
    }
    assert(v@.subrange(offset as int, v@.len() as int) =~= suffix@);
    true
}

/// Splits a character slice at every `sep`, keeping empty pieces.
pub fn split_chars(v: &[char], sep: char) -> (pieces: Vec<Vec<char>>)
    ensures
        pieces@.len() == split_seq(v@, sep).len(),
        forall|i: int| 0 <= i < pieces@.len() ==> #[trigger] pieces@[i]@ == split_seq(v@, sep)[i],
{
    let mut done: Vec<Vec<char>> = Vec::new();
    let mut current: Vec<char> = Vec::new();
    let mut i: usize = 0;
    while i < v.len()
        invariant
            i <= v@.len(),
            done@.len() + 1 == split_seq(v@.take(i as int), sep).len(),
            forall|k: int| 0 <= k < done@.len() ==> #[trigger] done@[k]@ == split_seq(
                v@.take(i as int),
                sep,
            )[k],
            current@ == split_seq(v@.take(i as int), sep).last(),
        decreases v@.len() - i,
    {
        let ghost before = v@.take(i as int);
        assert(v@.take((i + 1) as int).drop_last() == before);
        assert(v@.take((i + 1) as int).last() == v@[i as int]);
        proof {
            lemma_split_shape(before, sep);
        }
        if v[i] == sep {
            done.push(current);
            current = Vec::new();
        } else {
            current.push(v[i]);
        }
        i = i + 1;
    }
    assert(v@.take(v@.len() as int) == v@);
    done.push(current);
    done
}

} // verus!
