//! Turns a UTF-8 Markdown snapshot into the projection the search index keeps.
//!
//! The parser never touches the filesystem or the index, and malformed
//! frontmatter is a diagnosis, not an error: poorer search metadata never
//! blocks a file operation.

use pulldown_cmark::{Event, Options, Parser, Tag, TagEnd};
use vstd::prelude::*;

use crate::domain::document::MarkdownDocument;
use crate::domain::path::{is_markdown_path, lemma_canonical_segments, lemma_markdown_path_is_canonical};
use crate::domain::projection::{
    FrontmatterStatus, LinkView, MarkdownProjection, ProjectionLink, ProjectionLinkKind,
};
use crate::infrastructure::yaml_metadata::{
    parse_yaml_metadata, push_tags, yaml_load, yaml_metadata_spec, yaml_tree_of,
    FrontmatterMetadata,
};
use crate::text::{
    alphanumeric, byte_len, chars_of, char_width, char_width_of, find_char, find_char_from, find_pair, find_pair_from, is_alphanumeric,
    lemma_byte_len_push, lemma_find_char_bounds, lemma_find_pair_bounds, lowercase, slice_to_vec, string_from_chars,
    push_char, push_str, str_len, to_lowercase, trim_end, trim_end_set, trim_start, trim_start_set, trim_whitespace, trim_ws,
    split_seq, TrimSet,
};

verus! {

/// The characters of each string, in order.
pub open spec fn strings_view(v: Seq<String>) -> Seq<Seq<char>> {
    v.map_values(|s: String| s@)
}

/// Each link as its kind and target characters.
pub open spec fn links_view(v: Seq<ProjectionLink>) -> Seq<LinkView> {
    v.map_values(|l: ProjectionLink| l@)
}

// ----- tags -----

/// A tag as it is stored: trimmed, without leading `#` or trailing `/`, lowercased.
pub open spec fn normalize_tag(value: Seq<char>) -> Seq<char> {
    lowercase(
        trim_end_set(trim_start_set(trim_ws(value), TrimSet::Char('#')), TrimSet::Char('/')),
    )
}

/// A tag as a projection holds it: non-empty, and the lowercase form of
/// some text.
pub open spec fn is_stored_tag(t: Seq<char>) -> bool {
    t.len() > 0 && exists|s: Seq<char>| #[trigger] lowercase(s) == t
}

/// Adds the normalized tag unless it is empty or already present.
pub open spec fn push_tag_spec(tags: Seq<Seq<char>>, value: Seq<char>) -> Seq<Seq<char>> {
    let normalized = normalize_tag(value);
    if normalized.len() > 0 && !tags.contains(normalized) {
        tags.push(normalized)
    } else {
        tags
    }
}

/// A character that may continue an inline tag.
pub open spec fn is_tag_char(c: char) -> bool {
    alphanumeric(c) || c == '_' || c == '-' || c == '/'
}

/// A `#` at `i` may start a tag: it is first, or follows neither an
/// alphanumeric character nor `_`.
pub open spec fn has_tag_boundary(text: Seq<char>, i: int) -> bool {
    i == 0 || !(alphanumeric(text[i - 1]) || text[i - 1] == '_')
}

/// The first position at or after `j` that does not continue a tag.
pub open spec fn tag_end(text: Seq<char>, j: int) -> int
    decreases text.len() - j,
{
    if j < 0 || j >= text.len() {
        text.len() as int
    } else if !is_tag_char(text[j]) {
        j
    } else {
        tag_end(text, j + 1)
    }
}

/// Inline `#tags` of `text` from position `i` on, added to `tags` in order.
pub open spec fn inline_tags_from(text: Seq<char>, i: int, tags: Seq<Seq<char>>) -> Seq<
    Seq<char>,
>
    decreases text.len() - i,
{
    if i < 0 || i >= text.len() {
        tags
    } else {
        let next = if text[i] == '#' && has_tag_boundary(text, i) && i + 1 < tag_end(
            text,
            i + 1,
        ) {
            push_tag_spec(tags, text.subrange(i + 1, tag_end(text, i + 1)))
        } else {
            tags
        };
        inline_tags_from(text, i + 1, next)
    }
}

proof fn lemma_tag_runs_to(text: Seq<char>, j: int, e: int)
    requires
        0 <= j <= e <= text.len(),
        forall|k: int| j <= k < e ==> alphanumeric(#[trigger] text[k]) || text[k] == '_' || text[k] == '-'
            || text[k] == '/',
        e < text.len() ==> !(alphanumeric(text[e]) || text[e] == '_' || text[e] == '-' || text[e] == '/'),
    ensures
        tag_end(text, j) == e,
    decreases e - j,
{
    if j < e {
        lemma_tag_runs_to(text, j + 1, e);
    }
}

proof fn lemma_no_hash_no_tags(text: Seq<char>, i: int, tags: Seq<Seq<char>>)
    requires
        0 <= i,
        forall|k: int| i <= k < text.len() ==> #[trigger] text[k] != '#',
    ensures
        inline_tags_from(text, i, tags) == tags,
    decreases text.len() - i,
{
    if i < text.len() {
        lemma_no_hash_no_tags(text, i + 1, tags);
    }
}

/// An inline tag runs through every alphanumeric character and every `_`,
/// `-` and `/` after its `#`: a text that is `#` followed by such characters
/// adds exactly the tag made of all of them.
pub proof fn lemma_tag_takes_every_tag_character(word: Seq<char>, tags: Seq<Seq<char>>)
    requires
        word.len() > 0,
        forall|k: int| 0 <= k < word.len() ==> (alphanumeric(#[trigger] word[k]) || word[k] == '_' || word[k]
            == '-' || word[k] == '/') && word[k] != '#',
    ensures
        inline_tags_from(seq!['#'] + word, 0, tags) == push_tag_spec(tags, word),
{
    let text = seq!['#'] + word;
    assert forall|k: int| 1 <= k < text.len() implies alphanumeric(#[trigger] text[k]) || text[k] == '_'
        || text[k] == '-' || text[k] == '/' by {
        assert(text[k] == word[k - 1]);
    }
    lemma_tag_runs_to(text, 1, text.len() as int);
    assert(text.subrange(1, text.len() as int) =~= word);
    assert forall|k: int| 1 <= k < text.len() implies #[trigger] text[k] != '#' by {
        assert(text[k] == word[k - 1]);
    }
    lemma_no_hash_no_tags(text, 1, push_tag_spec(tags, word));
}

/// An inline tag ends at the first character that is neither alphanumeric
/// nor `_`, `-` or `/`: the text `#`, such characters, then another
/// character, adds exactly the tag made of the characters before it.
pub proof fn lemma_tag_stops_at_other_character(word: Seq<char>, stop: char, tags: Seq<Seq<char>>)
    requires
        word.len() > 0,
        forall|k: int| 0 <= k < word.len() ==> (alphanumeric(#[trigger] word[k]) || word[k] == '_' || word[k]
            == '-' || word[k] == '/') && word[k] != '#',
        !(alphanumeric(stop) || stop == '_' || stop == '-' || stop == '/'),
        stop != '#',
    ensures
        inline_tags_from(seq!['#'] + word + seq![stop], 0, tags) == push_tag_spec(tags, word),
{
    let text = seq!['#'] + word + seq![stop];
    let e: int = (word.len() + 1) as int;
    assert forall|k: int| 1 <= k < e implies alphanumeric(#[trigger] text[k]) || text[k] == '_'
        || text[k] == '-' || text[k] == '/' by {
        assert(text[k] == word[k - 1]);
    }
    assert(text[e] == stop);
    lemma_tag_runs_to(text, 1, e);
    assert(text.subrange(1, e) =~= word);
    assert forall|k: int| 1 <= k < text.len() implies #[trigger] text[k] != '#' by {
        if k < e {
            assert(text[k] == word[k - 1]);
        }
    }
    lemma_no_hash_no_tags(text, 1, push_tag_spec(tags, word));
}

proof fn lemma_tag_end_bounds(text: Seq<char>, j: int)
    requires
        0 <= j <= text.len(),
    ensures
        j <= tag_end(text, j) <= text.len(),
    decreases text.len() - j,
{
    if j < text.len() && is_tag_char(text[j]) {
        lemma_tag_end_bounds(text, j + 1);
    }
}

fn contains_string(v: &Vec<String>, s: &String) -> (b: bool)
    ensures
        b == strings_view(v@).contains(s@),
{
    let mut i: usize = 0;
    while i < v.len()
        invariant
            i <= v@.len(),
            forall|j: int| 0 <= j < i ==> v@[j]@ != s@,
        decreases v@.len() - i,
    {
        if v[i] == *s {
            assert(strings_view(v@)[i as int] == s@);
            return true;
        }
        i = i + 1;
    }
    proof {
        if strings_view(v@).contains(s@) {
            let j = choose|j: int| 0 <= j < v@.len() && strings_view(v@)[j] == s@;
            assert(v@[j]@ == s@);
        }
    }
    false
}

/// Normalizes `value` as a tag and adds it unless it is empty or already present.
pub fn push_tag(tags: &mut Vec<String>, value: &[char])
    ensures
        strings_view(final(tags)@) == push_tag_spec(strings_view(old(tags)@), value@),
{
    let trimmed = trim_whitespace(value);
    let without_hash = trim_start(trimmed.as_slice(), &TrimSet::Char('#'));
    let without_slash = trim_end(without_hash.as_slice(), &TrimSet::Char('/'));
    let text = string_from_chars(without_slash.as_slice());
    let normalized = to_lowercase(text.as_str());
    if !normalized.as_str().is_empty() && !contains_string(tags, &normalized) {
        tags.push(normalized);
        assert(strings_view(tags@) == strings_view(old(tags)@).push(normalized@));
    }
}

fn is_tag_character(c: char) -> (b: bool)
    ensures
        b == is_tag_char(c),
{
    is_alphanumeric(c) || c == '_' || c == '-' || c == '/'
}

fn tag_boundary(text: &[char], i: usize) -> (b: bool)
    requires
        i < text@.len(),
    ensures
        b == has_tag_boundary(text@, i as int),
{
    i == 0 || !(is_alphanumeric(text[i - 1]) || text[i - 1] == '_')
}

fn find_tag_end(text: &[char], j: usize) -> (end: usize)
    requires
        j <= text@.len(),
    ensures
        end == tag_end(text@, j as int),
        j <= end <= text@.len(),
{
    proof {
        lemma_tag_end_bounds(text@, j as int);
    }
    let mut k = j;
    while k < text.len() && is_tag_character(text[k])
        invariant
            j <= k <= text@.len(),
            tag_end(text@, j as int) == tag_end(text@, k as int),
        decreases text@.len() - k,
    {
        k = k + 1;
    }
    k
}

/// Adds the inline `#tags` of `text` to `tags`, in order of appearance.
pub fn extract_inline_tags(text: &[char], tags: &mut Vec<String>)
    ensures
        strings_view(final(tags)@) == inline_tags_from(text@, 0, strings_view(old(tags)@)),
{
    let mut i: usize = 0;
    while i < text.len()
        invariant
            i <= text@.len(),
            inline_tags_from(text@, 0, strings_view(old(tags)@)) == inline_tags_from(
                text@,
                i as int,
                strings_view(tags@),
            ),
        decreases text@.len() - i,
    {
        if text[i] == '#' && tag_boundary(text, i) {
            let end = find_tag_end(text, i + 1);
            if i + 1 < end {
                let value = slice_to_vec(text, i + 1, end);
                push_tag(tags, value.as_slice());
            }
        }
        i = i + 1;
    }
}

/// `tags` followed by each of `values` that it does not hold yet.
pub open spec fn append_unique_spec(tags: Seq<Seq<char>>, values: Seq<Seq<char>>) -> Seq<
    Seq<char>,
>
    decreases values.len(),
{
    if values.len() == 0 {
        tags
    } else {
        let next = if tags.contains(values[0]) {
            tags
        } else {
            tags.push(values[0])
        };
        append_unique_spec(next, values.drop_first())
    }
}

/// Appends each value that `target` does not hold yet, in order.
pub fn append_unique(target: &mut Vec<String>, values: Vec<String>)
    ensures
        strings_view(final(target)@) == append_unique_spec(
            strings_view(old(target)@),
            strings_view(values@),
        ),
{
    let mut i: usize = 0;
    assert(strings_view(values@).skip(0) == strings_view(values@));
    while i < values.len()
        invariant
            i <= values@.len(),
            append_unique_spec(strings_view(old(target)@), strings_view(values@))
                == append_unique_spec(strings_view(target@), strings_view(values@).skip(i as int)),
        decreases values@.len() - i,
    {
        let value = values[i].clone();
        assert(strings_view(values@).skip(i as int).drop_first() == strings_view(values@).skip(
            i + 1,
        ));
        assert(strings_view(values@).skip(i as int)[0] == value@);
        let ghost before = target@;
        if !contains_string(target, &value) {
            target.push(value);
            assert(strings_view(target@) == strings_view(before).push(value@));
        }
        i = i + 1;
    }
    assert(strings_view(values@).skip(i as int) == Seq::<Seq<char>>::empty());
}

// ----- links -----

/// Adds a link with the trimmed target unless the target is empty or the
/// same link is already present.
pub open spec fn push_link_spec(links: Seq<LinkView>, kind: ProjectionLinkKind, target: Seq<char>) -> Seq<LinkView> {
    let trimmed = trim_ws(target);
    if trimmed.len() == 0 || links.contains((kind, trimmed)) {
        links
    } else {
        links.push((kind, trimmed))
    }
}

fn contains_link(links: &Vec<ProjectionLink>, link: &ProjectionLink) -> (b: bool)
    ensures
        b == links_view(links@).contains(link@),
{
    let mut i: usize = 0;
    while i < links.len()
        invariant
            i <= links@.len(),
            forall|j: int| 0 <= j < i ==> links@[j]@ != link@,
        decreases links@.len() - i,
    {
        if links[i].kind == link.kind && links[i].target == link.target {
            assert(links_view(links@)[i as int] == link@);
            return true;
        }
        i = i + 1;
    }
    proof {
        if links_view(links@).contains(link@) {
            let j = choose|j: int| 0 <= j < links@.len() && links_view(links@)[j] == link@;
            assert(links@[j]@ == link@);
        }
    }
    false
}

/// Adds a link to `target` (trimmed) unless it is empty or already present.
pub fn push_link(links: &mut Vec<ProjectionLink>, kind: ProjectionLinkKind, target: &[char])
    ensures
        links_view(final(links)@) == push_link_spec(links_view(old(links)@), kind, target@),
{
    let trimmed = trim_whitespace(target);
    if trimmed.len() == 0 {
        return;
    }
    let link = ProjectionLink { kind, target: string_from_chars(trimmed.as_slice()) };
    if !contains_link(links, &link) {
        links.push(link);
        assert(links_view(links@) == links_view(old(links)@).push(link@));
    }
}

/// The wiki link kind: `![[...]]` embeds, `[[...]]` links.
pub open spec fn wiki_kind(embedded: bool) -> ProjectionLinkKind {
    if embedded {
        ProjectionLinkKind::WikiEmbed
    } else {
        ProjectionLinkKind::Wiki
    }
}

/// The target part of a wiki link body: what precedes the first `|`.
pub open spec fn wiki_target(inner: Seq<char>) -> Seq<char> {
    match find_char_from(inner, '|', 0) {
        Some(bar) => inner.take(bar),
        None => inner,
    }
}

/// Wiki links of `text` found from position `from` on, added to `links` in order.
pub open spec fn wiki_links_from(text: Seq<char>, from: int, links: Seq<LinkView>) -> Seq<LinkView>
    decreases text.len() - from,
{
    if from < 0 || from > text.len() {
        links
    } else {
        match find_pair_from(text, '[', '[', from) {
            None => links,
            Some(opening) => {
                let embedded = opening > from && text[opening - 1] == '!';
                match find_pair_from(text, ']', ']', opening + 2) {
                    None => links,
                    Some(closing) => if from < closing + 2 <= text.len() {
                        let inner = text.subrange(opening + 2, closing);
                        wiki_links_from(
                            text,
                            closing + 2,
                            push_link_spec(links, wiki_kind(embedded), wiki_target(inner)),
                        )
                    } else {
                        links
                    },
                }
            },
        }
    }
}

/// Adds the `[[target|label]]` and `![[target]]` links of `text` to `links`.
pub fn extract_wiki_links(text: &[char], links: &mut Vec<ProjectionLink>)
    ensures
        links_view(final(links)@) == wiki_links_from(text@, 0, links_view(old(links)@)),
{
    let mut from: usize = 0;
    loop
        invariant
            from <= text@.len(),
            wiki_links_from(text@, 0, links_view(old(links)@)) == wiki_links_from(
                text@,
                from as int,
                links_view(links@),
            ),
        decreases text@.len() - from,
    {
        let ghost current = links_view(links@);
        let opening = match find_pair(text, '[', '[', from) {
            Some(opening) => opening,
            None => {
                assert(wiki_links_from(text@, from as int, current) == current);
                return;
            },
        };
        let embedded = opening > from && text[opening - 1] == '!';
        let closing = match find_pair(text, ']', ']', opening + 2) {
            Some(closing) => closing,
            None => {
                assert(wiki_links_from(text@, from as int, current) == current);
                return;
            },
        };
        assert(from < closing + 2 <= text@.len());
        let inner = slice_to_vec(text, opening + 2, closing);
        let kind = if embedded {
            ProjectionLinkKind::WikiEmbed
        } else {
            ProjectionLinkKind::Wiki
        };
        let target = match find_char(inner.as_slice(), '|', 0) {
            Some(bar) => slice_to_vec(inner.as_slice(), 0, bar),
            None => inner,
        };
        push_link(links, kind, target.as_slice());
        assert(wiki_links_from(text@, from as int, current) == wiki_links_from(
            text@,
            closing + 2,
            push_link_spec(
                current,
                wiki_kind(embedded),
                wiki_target(text@.subrange(opening + 2, closing as int)),
            ),
        ));
        let n = text.len();
        assert(closing + 2 <= n);
        from = closing + 2;
    }
}

// ----- frontmatter -----

/// Where the YAML source of a frontmatter block starts: after an opening
/// `---` line ended by `\n` or `\r\n`.
pub open spec fn frontmatter_open(content: Seq<char>) -> Option<int> {
    if content.len() >= 4 && content.take(4) == seq!['-', '-', '-', '\n'] {
        Some(4)
    } else if content.len() >= 5 && content.take(5) == seq!['-', '-', '-', '\r', '\n'] {
        Some(5)
    } else {
        None
    }
}

/// Where the line that starts at `p` ends (exclusive of its `\n`), and where the next line starts.
pub open spec fn line_bounds(content: Seq<char>, p: int) -> (int, int) {
    match find_char_from(content, '\n', p) {
        Some(k) => (k, k + 1),
        None => (content.len() as int, content.len() as int),
    }
}

/// The text of a line without its `\n` and one trailing `\r`.
pub open spec fn line_text(content: Seq<char>, p: int, end: int) -> Seq<char> {
    let line = content.subrange(p, end);
    if line.len() > 0 && line.last() == '\r' {
        line.drop_last()
    } else {
        line
    }
}

/// A line that closes a frontmatter block: `---` or `...`.
pub open spec fn is_closing_line(line: Seq<char>) -> bool {
    line == seq!['-', '-', '-'] || line == seq!['.', '.', '.']
}

/// The first closing line at or after `p`: its start and the start of the next line.
pub open spec fn closing_line_from(content: Seq<char>, p: int) -> Option<(int, int)>
    decreases content.len() - p,
{
    if p < 0 || p >= content.len() {
        None
    } else {
        let (end, next) = line_bounds(content, p);
        if next <= p || next > content.len() {
            None
        } else if is_closing_line(line_text(content, p, end)) {
            Some((p, next))
        } else {
            closing_line_from(content, next)
        }
    }
}

/// A frontmatter block: the YAML source range and where the body starts.
pub struct FrontmatterBounds {
    pub source_start: usize,
    pub source_end: usize,
    pub body_start: usize,
}

/// The frontmatter of `content`, as (source start, source end, body start).
pub open spec fn frontmatter_spec(content: Seq<char>) -> Option<(int, int, int)> {
    match frontmatter_open(content) {
        None => None,
        Some(start) => match closing_line_from(content, start) {
            None => None,
            Some((line, next)) => Some((start, line, next)),
        },
    }
}

proof fn lemma_closing_line_bounds(content: Seq<char>, p: int)
    ensures
        closing_line_from(content, p) matches Some((line, next)) ==> p <= line < next
            <= content.len(),
    decreases content.len() - p,
{
    lemma_find_char_bounds(content, '\n', p);
    if !(p < 0 || p >= content.len()) {
        let (end, next) = line_bounds(content, p);
        if next > p && !is_closing_line(line_text(content, p, end)) {
            lemma_closing_line_bounds(content, next);
        }
    }
}

fn starts_with_chars(v: &[char], prefix: &[char]) -> (b: bool)
    ensures
        b == (prefix@.len() <= v@.len() && v@.take(prefix@.len() as int) == prefix@),
{
    if prefix.len() > v.len() {
        return false;
    }
    let mut i: usize = 0;
    while i < prefix.len()
        invariant
            prefix@.len() <= v@.len(),
            i <= prefix@.len(),
            forall|j: int| 0 <= j < i ==> v@[j] == prefix@[j],
        decreases prefix@.len() - i,
    {
        if v[i] != prefix[i] {
            assert(v@.take(prefix@.len() as int)[i as int] != prefix@[i as int]);
            return false;
        }
        i = i + 1;
    }
    assert(v@.take(prefix@.len() as int) =~= prefix@);
    true
}

fn is_closing(line: &[char]) -> (b: bool)
    ensures
        b == is_closing_line(line@),
{
    let dashes = ['-', '-', '-'];
    let dots = ['.', '.', '.'];
    let is_dashes = line.len() == 3 && line[0] == '-' && line[1] == '-' && line[2] == '-';
    let is_dots = line.len() == 3 && line[0] == '.' && line[1] == '.' && line[2] == '.';
    proof {
        if line@.len() == 3 {
            assert(is_dashes ==> line@ =~= seq!['-', '-', '-']);
            assert(is_dots ==> line@ =~= seq!['.', '.', '.']);
        }
        if line@ == seq!['-', '-', '-'] {
            assert(line@[0] == '-' && line@[1] == '-' && line@[2] == '-');
        }
        if line@ == seq!['.', '.', '.'] {
            assert(line@[0] == '.' && line@[1] == '.' && line@[2] == '.');
        }
    }
    is_dashes || is_dots
}

/// Finds the frontmatter block at the start of `content`, if it has a closed one.
pub fn parse_frontmatter(content: &[char]) -> (r: Option<FrontmatterBounds>)
    ensures
        match r {
            Some(b) => frontmatter_spec(content@) == Some(
                (b.source_start as int, b.source_end as int, b.body_start as int),
            ),
            None => frontmatter_spec(content@) is None,
        },
        r matches Some(b) ==> b.source_start <= b.source_end < b.body_start <= content@.len(),
{
    let open_lf = ['-', '-', '-', '\n'];
    let open_crlf = ['-', '-', '-', '\r', '\n'];
    let start: usize = if starts_with_chars(content, &open_lf) {
        assert(open_lf@ == seq!['-', '-', '-', '\n']);
        4
    } else if starts_with_chars(content, &open_crlf) {
        assert(open_crlf@ == seq!['-', '-', '-', '\r', '\n']);
        assert(open_lf@ == seq!['-', '-', '-', '\n']);
        5
    } else {
        assert(open_crlf@ == seq!['-', '-', '-', '\r', '\n']);
        assert(open_lf@ == seq!['-', '-', '-', '\n']);
        return None;
    };
    let mut p = start;
    proof {
        lemma_closing_line_bounds(content@, start as int);
    }
    while p < content.len()
        invariant
            start <= p <= content@.len(),
            frontmatter_spec(content@) == (match closing_line_from(content@, p as int) {
                None => None,
                Some((line, next)) => Some((start as int, line, next)),
            }),
        decreases content@.len() - p,
    {
        proof {
            lemma_closing_line_bounds(content@, p as int);
            lemma_find_char_bounds(content@, '\n', p as int);
        }
        let (end, next) = match find_char(content, '\n', p) {
            Some(k) => (k, k + 1),
            None => (content.len(), content.len()),
        };
        let mut line = slice_to_vec(content, p, end);
        if line.len() > 0 && line[line.len() - 1] == '\r' {
            line.pop();
        }
        if is_closing(line.as_slice()) {
            return Some(FrontmatterBounds { source_start: start, source_end: p, body_start: next });
        }
        p = next;
    }
    None
}

/// Whether `content` opens like a frontmatter block: it is `---`, or starts
/// with a `---` line.
pub open spec fn starts_with_frontmatter_delimiter_spec(content: Seq<char>) -> bool {
    content == seq!['-', '-', '-'] || frontmatter_open(content) is Some
}

/// Whether `content` opens like a frontmatter block.
pub fn starts_with_frontmatter_delimiter(content: &[char]) -> (b: bool)
    ensures
        b == starts_with_frontmatter_delimiter_spec(content@),
{
    let open_lf = ['-', '-', '-', '\n'];
    let open_crlf = ['-', '-', '-', '\r', '\n'];
    assert(open_lf@ == seq!['-', '-', '-', '\n']);
    assert(open_crlf@ == seq!['-', '-', '-', '\r', '\n']);
    is_closing_dashes(content) || starts_with_chars(content, &open_lf) || starts_with_chars(
        content,
        &open_crlf,
    )
}

fn is_closing_dashes(line: &[char]) -> (b: bool)
    ensures
        b == (line@ == seq!['-', '-', '-']),
{
    let b = line.len() == 3 && line[0] == '-' && line[1] == '-' && line[2] == '-';
    proof {
        if line@.len() == 3 {
            assert(b ==> line@ =~= seq!['-', '-', '-']);
        }
        if line@ == seq!['-', '-', '-'] {
            assert(line@[0] == '-' && line@[1] == '-' && line@[2] == '-');
        }
    }
    b
}

// ----- title -----

/// The title a file name gives: the last path segment without `.md`, or the
/// whole path when the last segment does not end with `.md`.
pub open spec fn filename_title_spec(path: Seq<char>) -> Seq<char> {
    let name = match last_slash(path) {
        Some(k) => path.subrange(k + 1, path.len() as int),
        None => path,
    };
    if crate::text::ends_with(name, seq!['.', 'm', 'd']) {
        name.take(name.len() - 3)
    } else {
        path
    }
}

/// Position of the last `/`.
pub open spec fn last_slash(s: Seq<char>) -> Option<int>
    decreases s.len(),
{
    if s.len() == 0 {
        None
    } else if s.last() == '/' {
        Some(s.len() - 1)
    } else {
        last_slash(s.drop_last())
    }
}

proof fn lemma_last_slash_bounds(s: Seq<char>)
    ensures
        last_slash(s) matches Some(k) ==> 0 <= k < s.len(),
    decreases s.len(),
{
    if s.len() > 0 && s.last() != '/' {
        lemma_last_slash_bounds(s.drop_last());
        assert(s.drop_last().len() < s.len());
    }
}

/// The title that the file name of `path` gives.
pub fn filename_title(path: &[char]) -> (title: Vec<char>)
    ensures
        title@ == filename_title_spec(path@),
{
    proof {
        lemma_last_slash_bounds(path@);
    }
    let mut j = path.len();
    assert(path@.take(path@.len() as int) == path@);
    while j > 0 && path[j - 1] != '/'
        invariant
            j <= path@.len(),
            last_slash(path@) == last_slash(path@.take(j as int)),
        decreases j,
    {
        assert(path@.take(j as int).drop_last() == path@.take(j - 1));
        j = j - 1;
    }
    proof {
        assert(path@.take(path@.len() as int) == path@);
    }
    let name = if j == 0 {
        slice_to_vec(path, 0, path.len())
    } else {
        assert(path@.take(j as int).last() == '/');
        slice_to_vec(path, j, path.len())
    };
    assert(j == 0 ==> last_slash(path@.take(0)) is None);
    let suffix = ['.', 'm', 'd'];
    assert(suffix@ == seq!['.', 'm', 'd']);
    if crate::text::ends_with_chars(name.as_slice(), &suffix) {
        slice_to_vec(name.as_slice(), 0, name.len() - 3)
    } else {
        slice_to_vec(path, 0, path.len())
    }
}

// ----- Markdown events -----

/// `pulldown_cmark::Event`, carried through opaquely; the classification
/// functions below read it.
#[verifier::external_type_specification]
#[verifier::external_body]
pub struct ExMarkdownParserEvent<'a>(Event<'a>);

/// What the projection needs to know of one parser event.
#[derive(Debug)]
pub enum MarkdownEventKind {
    StartHeading(u8),
    EndHeading(u8),
    StartCodeBlock,
    EndCodeBlock,
    StartLink(String),
    StartImage(String),
    EndLink,
    EndImage,
    Text(String),
    Code(String),
    Html,
    InlineHtml,
    SoftBreak,
    HardBreak,
    Other,
}

/// One parser event with the byte range of the source text it came from.
#[derive(Debug)]
pub struct MarkdownEvent {
    pub kind: MarkdownEventKind,
    pub start: usize,
    pub end: usize,
}

/// The events and source byte ranges that `pulldown_cmark` yields for a body
/// with tables, strikethrough, task lists and footnotes enabled.
pub uninterp spec fn markdown_parse(body: Seq<char>) -> Seq<(Event<'static>, usize, usize)>;

/// How a `Start` event is classified (`None` for other events).
pub uninterp spec fn start_tag_of(event: Event<'static>) -> Option<MarkdownEventKind>;

/// How an `End` event is classified (`None` for other events).
pub uninterp spec fn end_tag_of(event: Event<'static>) -> Option<MarkdownEventKind>;

/// How a leaf event (text, code, HTML, line break) is classified.
pub uninterp spec fn leaf_event_of(event: Event<'static>) -> MarkdownEventKind;

/// Runs `pulldown_cmark::Parser::new_ext(..).into_offset_iter()` over `body`
/// with tables, strikethrough, task lists and footnotes enabled, and keeps each
/// event (made `'static`) with its source byte range. The events are those the
/// crate yields for that text; nothing more is stated of them.
#[verifier::external_body]
fn parse_markdown_events(body: &str) -> (events: Vec<(Event<'static>, usize, usize)>)
    ensures
        events@ == markdown_parse(body@),
{
    let options = Options::ENABLE_TABLES | Options::ENABLE_STRIKETHROUGH
        | Options::ENABLE_TASKLISTS | Options::ENABLE_FOOTNOTES;
    let mut events = Vec::new();
    for (event, range) in Parser::new_ext(body, options).into_offset_iter() {
        events.push((event.into_static(), range.start, range.end));
    }
    events
}

/// Reads a `pulldown_cmark` `Start` event: heading level, code block, link or
/// image destination; other tags are `Other`, other events `None`.
#[verifier::external_body]
fn start_tag(event: &Event<'static>) -> (kind: Option<MarkdownEventKind>)
    ensures
        kind == start_tag_of(*event),
{
    match event {
        Event::Start(Tag::Heading { level, .. }) => Some(MarkdownEventKind::StartHeading(*level as u8)),
        Event::Start(Tag::CodeBlock(_)) => Some(MarkdownEventKind::StartCodeBlock),
        Event::Start(Tag::Link { dest_url, .. }) => Some(MarkdownEventKind::StartLink(dest_url.to_string())),
        Event::Start(Tag::Image { dest_url, .. }) => Some(MarkdownEventKind::StartImage(dest_url.to_string())),
        Event::Start(_) => Some(MarkdownEventKind::Other),
        _ => None,
    }
}

/// Reads a `pulldown_cmark` `End` event: heading level, code block, link or
/// image; other tags are `Other`, other events `None`.
#[verifier::external_body]
fn end_tag(event: &Event<'static>) -> (kind: Option<MarkdownEventKind>)
    ensures
        kind == end_tag_of(*event),
{
    match event {
        Event::End(TagEnd::Heading(level)) => Some(MarkdownEventKind::EndHeading(*level as u8)),
        Event::End(TagEnd::CodeBlock) => Some(MarkdownEventKind::EndCodeBlock),
        Event::End(TagEnd::Link) => Some(MarkdownEventKind::EndLink),
        Event::End(TagEnd::Image) => Some(MarkdownEventKind::EndImage),
        Event::End(_) => Some(MarkdownEventKind::Other),
        _ => None,
    }
}

/// Reads a `pulldown_cmark` leaf event: text, inline code, HTML, inline HTML
/// and the two line breaks; anything else is `Other`.
#[verifier::external_body]
fn leaf_event(event: &Event<'static>) -> (kind: MarkdownEventKind)
    ensures
        kind == leaf_event_of(*event),
{
    match event {
        Event::Text(text) => MarkdownEventKind::Text(text.to_string()),
        Event::Code(text) => MarkdownEventKind::Code(text.to_string()),
        Event::Html(_) => MarkdownEventKind::Html,
        Event::InlineHtml(_) => MarkdownEventKind::InlineHtml,
        Event::SoftBreak => MarkdownEventKind::SoftBreak,
        Event::HardBreak => MarkdownEventKind::HardBreak,
        _ => MarkdownEventKind::Other,
    }
}

/// The classification of one parser event.
pub open spec fn classify_spec(event: Event<'static>) -> MarkdownEventKind {
    match start_tag_of(event) {
        Some(kind) => kind,
        None => match end_tag_of(event) {
            Some(kind) => kind,
            None => leaf_event_of(event),
        },
    }
}

/// The classified events of a body, in parser order.
pub open spec fn markdown_event_stream(body: Seq<char>) -> Seq<MarkdownEvent> {
    markdown_parse(body).map_values(
        |e: (Event<'static>, usize, usize)| MarkdownEvent { kind: classify_spec(e.0), start: e.1, end: e.2 },
    )
}

/// Parses `body` and classifies its events.
pub fn markdown_events(body: &str) -> (events: Vec<MarkdownEvent>)
    ensures
        events@ == markdown_event_stream(body@),
{
    let parsed = parse_markdown_events(body);
    let mut events: Vec<MarkdownEvent> = Vec::new();
    let mut i: usize = 0;
    while i < parsed.len()
        invariant
            i <= parsed@.len(),
            parsed@ == markdown_parse(body@),
            events@ == markdown_event_stream(body@).take(i as int),
        decreases parsed@.len() - i,
    {
        let (event, start, end) = &parsed[i];
        let kind = match start_tag(event) {
            Some(kind) => kind,
            None => match end_tag(event) {
                Some(kind) => kind,
                None => leaf_event(event),
            },
        };
        events.push(MarkdownEvent { kind, start: *start, end: *end });
        assert(markdown_event_stream(body@).take(i + 1) == markdown_event_stream(body@).take(
            i as int,
        ).push(markdown_event_stream(body@)[i as int]));
        i = i + 1;
    }
    assert(markdown_event_stream(body@).take(i as int) == markdown_event_stream(body@));
    events
}

// ----- scanning the events -----

/// The scan over the events, as mathematical values.
pub struct ScanState {
    /// Text collected for the first level-one heading while inside it.
    pub heading: Option<Seq<char>>,
    pub first_h1: Option<Seq<char>>,
    pub tags: Seq<Seq<char>>,
    pub links: Seq<LinkView>,
    pub in_code_block: bool,
    pub in_link_or_image: bool,
    pub code_block_start: Option<int>,
    /// Byte ranges where wiki links are not looked for: code and HTML.
    pub excluded: Seq<(int, int)>,
}

/// The state before the first event.
pub open spec fn scan_initial() -> ScanState {
    ScanState {
        heading: None,
        first_h1: None,
        tags: Seq::empty(),
        links: Seq::empty(),
        in_code_block: false,
        in_link_or_image: false,
        code_block_start: None,
        excluded: Seq::empty(),
    }
}

/// Appends text to the heading being collected, if one is.
pub open spec fn heading_append(heading: Option<Seq<char>>, text: Seq<char>) -> Option<Seq<char>> {
    match heading {
        Some(h) => Some(h + text),
        None => None,
    }
}

/// What one event does to the scan.
pub open spec fn scan_step(st: ScanState, e: MarkdownEvent) -> ScanState {
    match e.kind {
        MarkdownEventKind::StartHeading(level) => if level == 1 && st.first_h1 is None {
            ScanState { heading: Some(Seq::empty()), ..st }
        } else {
            st
        },
        MarkdownEventKind::EndHeading(level) => if level == 1 {
            match st.heading {
                Some(h) => ScanState {
                    heading: None,
                    first_h1: if trim_ws(h).len() > 0 {
                        Some(trim_ws(h))
                    } else {
                        st.first_h1
                    },
                    ..st
                },
                None => st,
            }
        } else {
            st
        },
        MarkdownEventKind::StartCodeBlock => ScanState {
            in_code_block: true,
            code_block_start: Some(e.start as int),
            ..st
        },
        MarkdownEventKind::EndCodeBlock => match st.code_block_start {
            Some(start) => ScanState {
                in_code_block: false,
                code_block_start: None,
                excluded: st.excluded.push((start, e.end as int)),
                ..st
            },
            None => ScanState { in_code_block: false, ..st },
        },
        MarkdownEventKind::StartLink(dest) => if !st.in_code_block {
            ScanState {
                in_link_or_image: true,
                links: push_link_spec(st.links, ProjectionLinkKind::Markdown, dest@),
                ..st
            }
        } else {
            st
        },
        MarkdownEventKind::StartImage(dest) => if !st.in_code_block {
            ScanState {
                in_link_or_image: true,
                links: push_link_spec(st.links, ProjectionLinkKind::MarkdownImage, dest@),
                ..st
            }
        } else {
            st
        },
        MarkdownEventKind::EndLink => ScanState { in_link_or_image: false, ..st },
        MarkdownEventKind::EndImage => ScanState { in_link_or_image: false, ..st },
        MarkdownEventKind::Text(text) => if !st.in_code_block {
            ScanState {
                heading: heading_append(st.heading, text@),
                tags: if !st.in_link_or_image {
                    inline_tags_from(text@, 0, st.tags)
                } else {
                    st.tags
                },
                ..st
            }
        } else {
            st
        },
        MarkdownEventKind::Code(text) => ScanState {
            heading: heading_append(st.heading, text@),
            excluded: st.excluded.push((e.start as int, e.end as int)),
            ..st
        },
        MarkdownEventKind::Html => ScanState {
            excluded: st.excluded.push((e.start as int, e.end as int)),
            ..st
        },
        MarkdownEventKind::InlineHtml => ScanState {
            excluded: st.excluded.push((e.start as int, e.end as int)),
            ..st
        },
        MarkdownEventKind::SoftBreak => ScanState {
            heading: heading_append(st.heading, seq![' ']),
            ..st
        },
        MarkdownEventKind::HardBreak => ScanState {
            heading: heading_append(st.heading, seq![' ']),
            ..st
        },
        MarkdownEventKind::Other => st,
    }
}

/// The scan after all `events`, in order.
pub open spec fn scan_events(events: Seq<MarkdownEvent>) -> ScanState
    decreases events.len(),
{
    if events.len() == 0 {
        scan_initial()
    } else {
        scan_step(scan_events(events.drop_last()), events.last())
    }
}

/// The number of characters of `s` that start before byte `offset`, searched from `k`.
pub open spec fn char_index_from(s: Seq<char>, offset: int, k: int) -> int
    decreases s.len() - k,
{
    if k < 0 || k >= s.len() {
        s.len() as int
    } else if byte_len(s.take(k)) >= offset {
        k
    } else {
        char_index_from(s, offset, k + 1)
    }
}

/// The character position of a byte offset (the end when it lies beyond).
pub open spec fn char_index(s: Seq<char>, offset: int) -> int {
    char_index_from(s, offset, 0)
}

/// The characters between two byte offsets.
pub open spec fn byte_segment(s: Seq<char>, from: int, to: int) -> Seq<char> {
    let a = char_index(s, from);
    let b = char_index(s, to);
    if a <= b {
        s.subrange(a, b)
    } else {
        Seq::empty()
    }
}

/// Wiki links of the body outside the excluded byte ranges, from byte `cursor` on.
pub open spec fn source_links(body: Seq<char>, excluded: Seq<(int, int)>, cursor: int, links: Seq<LinkView>) -> Seq<LinkView>
    decreases excluded.len(),
{
    if excluded.len() == 0 {
        if cursor < str_len(body) {
            wiki_links_from(byte_segment(body, cursor, str_len(body) as int), 0, links)
        } else {
            links
        }
    } else {
        let (start, end) = excluded[0];
        let next = if cursor < start {
            wiki_links_from(byte_segment(body, cursor, start), 0, links)
        } else {
            links
        };
        source_links(body, excluded.drop_first(), if cursor >= end { cursor } else { end }, next)
    }
}

/// What the Markdown body gives the projection: the first level-one heading,
/// the inline tags and the links.
pub struct MarkdownMetadata {
    pub first_h1: Option<String>,
    pub tags: Vec<String>,
    pub links: Vec<ProjectionLink>,
}

/// The metadata that a scan of `events` gives for `body`: the first
/// level-one heading and the tags of the scan, and its links followed by the
/// wiki links of the source outside the excluded ranges.
pub open spec fn events_metadata_spec(body: Seq<char>, events: Seq<MarkdownEvent>) -> (Option<Seq<char>>, Seq<Seq<char>>, Seq<LinkView>) {
    let st = scan_events(events);
    (st.first_h1, st.tags, source_links(body, st.excluded, 0, st.links))
}

/// The metadata of a body, as mathematical values.
pub open spec fn markdown_metadata_spec(body: Seq<char>) -> (Option<Seq<char>>, Seq<Seq<char>>, Seq<LinkView>) {
    events_metadata_spec(body, markdown_event_stream(body))
}

/// The scan state held in executable values.
struct MarkdownScan {
    heading: Option<String>,
    first_h1: Option<String>,
    tags: Vec<String>,
    links: Vec<ProjectionLink>,
    in_code_block: bool,
    in_link_or_image: bool,
    code_block_start: Option<usize>,
    excluded: Vec<(usize, usize)>,
}

/// The characters of an optional string.
pub open spec fn option_string_view(o: Option<String>) -> Option<Seq<char>> {
    match o {
        Some(s) => Some(s@),
        None => None,
    }
}

spec fn ranges_view(v: Seq<(usize, usize)>) -> Seq<(int, int)> {
    v.map_values(|r: (usize, usize)| (r.0 as int, r.1 as int))
}

impl MarkdownScan {
    fn new() -> (scan: Self)
        ensures
            scan.state() == scan_initial(),
    {
        let scan = MarkdownScan {
            heading: None,
            first_h1: None,
            tags: Vec::new(),
            links: Vec::new(),
            in_code_block: false,
            in_link_or_image: false,
            code_block_start: None,
            excluded: Vec::new(),
        };
        assert(strings_view(scan.tags@) =~= Seq::<Seq<char>>::empty());
        assert(links_view(scan.links@) =~= Seq::<LinkView>::empty());
        assert(ranges_view(scan.excluded@) =~= Seq::<(int, int)>::empty());
        scan
    }

    spec fn state(&self) -> ScanState {
        ScanState {
            heading: option_string_view(self.heading),
            first_h1: option_string_view(self.first_h1),
            tags: strings_view(self.tags@),
            links: links_view(self.links@),
            in_code_block: self.in_code_block,
            in_link_or_image: self.in_link_or_image,
            code_block_start: match self.code_block_start {
                Some(s) => Some(s as int),
                None => None,
            },
            excluded: ranges_view(self.excluded@),
        }
    }

    fn push_excluded(&mut self, start: usize, end: usize)
        ensures
            final(self).state() == (ScanState {
                excluded: old(self).state().excluded.push((start as int, end as int)),
                ..old(self).state()
            }),
    {
        self.excluded.push((start, end));
        assert(ranges_view(self.excluded@) == ranges_view(old(self).excluded@).push(
            (start as int, end as int),
        ));
    }

    fn append_heading(&mut self, text: &str)
        ensures
            final(self).state() == (ScanState {
                heading: heading_append(old(self).state().heading, text@),
                ..old(self).state()
            }),
    {
        match self.heading.as_mut() {
            Some(heading) => push_str(heading, text),
            None => {},
        }
    }

    fn step(&mut self, event: &MarkdownEvent)
        ensures
            final(self).state() == scan_step(old(self).state(), *event),
    {
        match &event.kind {
            MarkdownEventKind::StartHeading(level) => {
                if *level == 1 && self.first_h1.is_none() {
                    let empty = String::new();
                    assert(empty@ =~= Seq::<char>::empty());
                    self.heading = Some(empty);
                }
            },
            MarkdownEventKind::EndHeading(level) => {
                if *level == 1 {
                    match self.heading.take() {
                        Some(value) => {
                            let chars = chars_of(value.as_str());
                            let trimmed = trim_whitespace(chars.as_slice());
                            if trimmed.len() > 0 {
                                self.first_h1 = Some(string_from_chars(trimmed.as_slice()));
                            }
                        },
                        None => {},
                    }
                }
            },
            MarkdownEventKind::StartCodeBlock => {
                self.in_code_block = true;
                self.code_block_start = Some(event.start);
            },
            MarkdownEventKind::EndCodeBlock => {
                self.in_code_block = false;
                match self.code_block_start.take() {
                    Some(start) => self.push_excluded(start, event.end),
                    None => {},
                }
            },
            MarkdownEventKind::StartLink(dest) => {
                if !self.in_code_block {
                    self.in_link_or_image = true;
                    let target = chars_of(dest.as_str());
                    push_link(&mut self.links, ProjectionLinkKind::Markdown, target.as_slice());
                }
            },
            MarkdownEventKind::StartImage(dest) => {
                if !self.in_code_block {
                    self.in_link_or_image = true;
                    let target = chars_of(dest.as_str());
                    push_link(&mut self.links, ProjectionLinkKind::MarkdownImage, target.as_slice());
                }
            },
            MarkdownEventKind::EndLink => {
                self.in_link_or_image = false;
            },
            MarkdownEventKind::EndImage => {
                self.in_link_or_image = false;
            },
            MarkdownEventKind::Text(text) => {
                if !self.in_code_block {
                    self.append_heading(text.as_str());
                    if !self.in_link_or_image {
                        let chars = chars_of(text.as_str());
                        extract_inline_tags(chars.as_slice(), &mut self.tags);
                    }
                }
            },
            MarkdownEventKind::Code(text) => {
                self.push_excluded(event.start, event.end);
                self.append_heading(text.as_str());
            },
            MarkdownEventKind::Html => {
                self.push_excluded(event.start, event.end);
            },
            MarkdownEventKind::InlineHtml => {
                self.push_excluded(event.start, event.end);
            },
            MarkdownEventKind::SoftBreak => {
                proof {
                    reveal_strlit(" ");
                    assert(" "@ =~= seq![' ']);
                }
                self.append_heading(" ");
            },
            MarkdownEventKind::HardBreak => {
                proof {
                    reveal_strlit(" ");
                    assert(" "@ =~= seq![' ']);
                }
                self.append_heading(" ");
            },
            MarkdownEventKind::Other => {},
        }
    }
}

/// The character position of a byte offset of the text, as `char_index` says.
fn char_index_of(chars: &[char], offset: usize) -> (k: usize)
    ensures
        k == char_index(chars@, offset as int),
        k <= chars@.len(),
{
    let mut k: usize = 0;
    let mut acc: u128 = 0;
    while k < chars.len() && acc < offset as u128
        invariant
            k <= chars@.len(),
            acc == byte_len(chars@.take(k as int)),
            char_index(chars@, offset as int) == char_index_from(chars@, offset as int, k as int),
        decreases chars@.len() - k,
    {
        proof {
            lemma_byte_len_push(chars@.take(k as int), chars@[k as int]);
            assert(chars@.take(k + 1) == chars@.take(k as int).push(chars@[k as int]));
        }
        acc = acc + char_width_of(chars[k]) as u128;
        k = k + 1;
    }
    k
}

/// The characters between two byte offsets of the text.
fn byte_segment_of(chars: &[char], from: usize, to: usize) -> (r: Vec<char>)
    ensures
        r@ == byte_segment(chars@, from as int, to as int),
{
    let a = char_index_of(chars, from);
    let b = char_index_of(chars, to);
    if a <= b {
        slice_to_vec(chars, a, b)
    } else {
        Vec::new()
    }
}

/// Adds the wiki links of the body text that lies outside the excluded byte
/// ranges, walking the ranges in order with a cursor.
fn extract_source_links(
    body: &[char],
    body_len: usize,
    excluded: &Vec<(usize, usize)>,
    links: &mut Vec<ProjectionLink>,
)
    requires
        body_len == str_len(body@),
    ensures
        links_view(final(links)@) == source_links(
            body@,
            ranges_view(excluded@),
            0,
            links_view(old(links)@),
        ),
{
    let mut cursor: usize = 0;
    let mut i: usize = 0;
    assert(ranges_view(excluded@).skip(0) == ranges_view(excluded@));
    while i < excluded.len()
        invariant
            i <= excluded@.len(),
            body_len == str_len(body@),
            source_links(body@, ranges_view(excluded@), 0, links_view(old(links)@))
                == source_links(
                body@,
                ranges_view(excluded@).skip(i as int),
                cursor as int,
                links_view(links@),
            ),
        decreases excluded@.len() - i,
    {
        let (start, end) = excluded[i];
        let ghost rest = ranges_view(excluded@).skip(i as int);
        assert(rest[0] == (start as int, end as int));
        assert(rest.drop_first() == ranges_view(excluded@).skip(i + 1));
        if cursor < start {
            let segment = byte_segment_of(body, cursor, start);
            extract_wiki_links(segment.as_slice(), links);
        }
        if cursor < end {
            cursor = end;
        }
        i = i + 1;
    }
    assert(ranges_view(excluded@).skip(i as int) =~= Seq::<(int, int)>::empty());
    if cursor < body_len {
        let segment = byte_segment_of(body, cursor, body_len);
        extract_wiki_links(segment.as_slice(), links);
    }
}

/// Scans the classified events of `body`: the first level-one heading, the
/// inline tags outside code and link text, the Markdown links and images, and
/// the wiki links of the source outside code and HTML.
pub fn scan_markdown_events(body: &str, events: &Vec<MarkdownEvent>) -> (m: MarkdownMetadata)
    ensures
        (option_string_view(m.first_h1), strings_view(m.tags@), links_view(m.links@))
            == events_metadata_spec(body@, events@),
{
    let mut scan = MarkdownScan::new();
    let mut i: usize = 0;
    while i < events.len()
        invariant
            i <= events@.len(),
            scan.state() == scan_events(events@.take(i as int)),
        decreases events@.len() - i,
    {
        assert(events@.take(i + 1).drop_last() == events@.take(i as int));
        scan.step(&events[i]);
        i = i + 1;
    }
    assert(events@.take(i as int) == events@);
    let chars = chars_of(body);
    let MarkdownScan { first_h1, tags, mut links, excluded, .. } = scan;
    extract_source_links(chars.as_slice(), body.len(), &excluded, &mut links);
    MarkdownMetadata { first_h1, tags, links }
}

/// Reads the first level-one heading, the inline tags and the links of a
/// Markdown body. Tags inside code and link text are skipped; wiki links are
/// looked for in the source text outside code and HTML.
pub fn parse_markdown(body: &str) -> (m: MarkdownMetadata)
    ensures
        (option_string_view(m.first_h1), strings_view(m.tags@), links_view(m.links@))
            == markdown_metadata_spec(body@),
{
    let events = markdown_events(body);
    scan_markdown_events(body, &events)
}

// ----- the projection -----

/// The frontmatter metadata of a document's content, when it has a closed
/// frontmatter block that reads as metadata.
pub open spec fn content_metadata(content: Seq<char>) -> Option<(Option<Seq<char>>, Seq<Seq<char>>, Seq<char>)> {
    match frontmatter_spec(content) {
        Some((start, end, _)) => yaml_metadata_spec(content.subrange(start, end)),
        None => None,
    }
}

/// The frontmatter diagnosis: `Parsed` when a closed block reads as
/// metadata; `Malformed` when a block opens but is unclosed or does not read;
/// `Absent` otherwise.
pub open spec fn frontmatter_status_spec(content: Seq<char>) -> FrontmatterStatus {
    match frontmatter_spec(content) {
        None => if starts_with_frontmatter_delimiter_spec(content) {
            FrontmatterStatus::Malformed
        } else {
            FrontmatterStatus::Absent
        },
        Some(_) => if content_metadata(content) is Some {
            FrontmatterStatus::Parsed
        } else {
            FrontmatterStatus::Malformed
        },
    }
}

/// The searchable body: what follows a parsed frontmatter block, or the
/// whole content.
pub open spec fn projection_body(content: Seq<char>) -> Seq<char> {
    match frontmatter_spec(content) {
        Some((_, _, body_start)) => if frontmatter_status_spec(content)
            == FrontmatterStatus::Parsed {
            content.subrange(body_start, content.len() as int)
        } else {
            content
        },
        None => content,
    }
}

/// Frontmatter tags first, then the inline tags of the body not already present.
pub open spec fn projection_tags(content: Seq<char>) -> Seq<Seq<char>> {
    let frontmatter_tags = match content_metadata(content) {
        Some(m) => m.1,
        None => Seq::empty(),
    };
    append_unique_spec(frontmatter_tags, markdown_metadata_spec(projection_body(content)).1)
}

/// The title: the frontmatter title, else the first level-one heading of
/// the body, else the file name.
pub open spec fn projection_title(path: Seq<char>, content: Seq<char>) -> Seq<char> {
    match content_metadata(content) {
        Some((Some(title), _, _)) => title,
        _ => match markdown_metadata_spec(projection_body(content)).0 {
            Some(heading) => heading,
            None => filename_title_spec(path),
        },
    }
}

/// The frontmatter as JSON text, when it was parsed.
pub open spec fn projection_json(content: Seq<char>) -> Option<Seq<char>> {
    match content_metadata(content) {
        Some(m) => Some(m.2),
        None => None,
    }
}

/// Derives search projections from Markdown snapshots. It reads no file and
/// no index, and malformed frontmatter is reported in the projection, never
/// as an error.
#[derive(Clone, Copy, Debug, Default)]
pub struct MarkdownProjectionParser;

impl MarkdownProjectionParser {
    /// The projection of a document.
    pub fn parse(document: &MarkdownDocument) -> (p: MarkdownProjection)
        ensures
            p.path@ == document.path@,
            p.title@ == projection_title(document.path@, document.content@),
            p.body@ == projection_body(document.content@),
            strings_view(p.tags@) == projection_tags(document.content@),
            links_view(p.links@) == markdown_metadata_spec(projection_body(document.content@)).2,
            p.content_hash@ == document.hash@,
            option_string_view(p.frontmatter_json) == projection_json(document.content@),
            p.frontmatter_status == frontmatter_status_spec(document.content@),
    {
        let content = chars_of(document.content.as_str());
        let bounds = parse_frontmatter(content.as_slice());
        let metadata: Option<FrontmatterMetadata> = match &bounds {
            Some(b) => {
                let source_chars = slice_to_vec(content.as_slice(), b.source_start, b.source_end);
                let source = string_from_chars(source_chars.as_slice());
                parse_yaml_metadata(source.as_str())
            },
            None => None,
        };
        let status = match (&bounds, &metadata) {
            (None, _) => if starts_with_frontmatter_delimiter(content.as_slice()) {
                FrontmatterStatus::Malformed
            } else {
                FrontmatterStatus::Absent
            },
            (Some(_), Some(_)) => FrontmatterStatus::Parsed,
            (Some(_), None) => FrontmatterStatus::Malformed,
        };
        let body: String = match &bounds {
            Some(b) => if matches!(status, FrontmatterStatus::Parsed) {
                let body_chars = slice_to_vec(content.as_slice(), b.body_start, content.len());
                string_from_chars(body_chars.as_slice())
            } else {
                document.content.clone()
            },
            None => document.content.clone(),
        };
        let markdown = parse_markdown(body.as_str());
        let MarkdownMetadata { first_h1, tags: inline_tags, links } = markdown;
        let (frontmatter_title, mut tags, json) = match metadata {
            Some(m) => (m.title, m.tags, Some(m.json)),
            None => (None, Vec::new(), None),
        };
        assert(metadata is None ==> strings_view(tags@) =~= Seq::<Seq<char>>::empty());
        append_unique(&mut tags, inline_tags);
        let title = match frontmatter_title {
            Some(t) => t,
            None => match first_h1 {
                Some(h) => h,
                None => {
                    let path_chars = chars_of(document.path.as_str());
                    let name = filename_title(path_chars.as_slice());
                    string_from_chars(name.as_slice())
                },
            },
        };
        MarkdownProjection {
            path: document.path.clone(),
            title,
            body,
            tags,
            links,
            content_hash: document.hash.clone(),
            frontmatter_json: json,
            frontmatter_status: status,
        }
    }
}

// ----- laws -----

proof fn lemma_push_tag_distinct(tags: Seq<Seq<char>>, value: Seq<char>)
    requires
        tags.no_duplicates(),
        forall|i: int| 0 <= i < tags.len() ==> is_stored_tag(#[trigger] tags[i]),
    ensures
        push_tag_spec(tags, value).no_duplicates(),
        forall|i: int| 0 <= i < push_tag_spec(tags, value).len() ==> is_stored_tag(#[trigger] push_tag_spec(tags, value)[i]),
{
    let normalized = normalize_tag(value);
    if normalized.len() > 0 && !tags.contains(normalized) {
        let source = trim_end_set(trim_start_set(trim_ws(value), TrimSet::Char('#')), TrimSet::Char('/'));
        assert(lowercase(source) == normalized);
        assert(is_stored_tag(normalized));
        let r = tags.push(normalized);
        assert forall|i: int, j: int| 0 <= i < r.len() && 0 <= j < r.len() && i != j implies r[i] != r[j] by {
            if i == tags.len() as int {
                assert(r[j] == tags[j]);
            } else if j == tags.len() as int {
                assert(r[i] == tags[i]);
            }
        }
    }
}

proof fn lemma_inline_tags_distinct(text: Seq<char>, i: int, tags: Seq<Seq<char>>)
    requires
        tags.no_duplicates(),
        forall|k: int| 0 <= k < tags.len() ==> is_stored_tag(#[trigger] tags[k]),
    ensures
        inline_tags_from(text, i, tags).no_duplicates(),
        forall|k: int| 0 <= k < inline_tags_from(text, i, tags).len() ==> is_stored_tag(#[trigger] inline_tags_from(text, i, tags)[k]),
    decreases text.len() - i,
{
    if !(i < 0 || i >= text.len()) {
        let next = if text[i] == '#' && has_tag_boundary(text, i) && i + 1 < tag_end(text, i + 1) {
            lemma_push_tag_distinct(tags, text.subrange(i + 1, tag_end(text, i + 1)));
            push_tag_spec(tags, text.subrange(i + 1, tag_end(text, i + 1)))
        } else {
            tags
        };
        lemma_inline_tags_distinct(text, i + 1, next);
    }
}

proof fn lemma_push_tags_distinct(tags: Seq<Seq<char>>, values: Seq<Seq<char>>)
    requires
        tags.no_duplicates(),
        forall|k: int| 0 <= k < tags.len() ==> is_stored_tag(#[trigger] tags[k]),
    ensures
        push_tags(tags, values).no_duplicates(),
        forall|k: int| 0 <= k < push_tags(tags, values).len() ==> is_stored_tag(#[trigger] push_tags(tags, values)[k]),
    decreases values.len(),
{
    if values.len() > 0 {
        lemma_push_tags_distinct(tags, values.drop_last());
        lemma_push_tag_distinct(push_tags(tags, values.drop_last()), values.last());
    }
}

proof fn lemma_append_unique_distinct(tags: Seq<Seq<char>>, values: Seq<Seq<char>>)
    requires
        tags.no_duplicates(),
        forall|k: int| 0 <= k < tags.len() ==> is_stored_tag(#[trigger] tags[k]),
        forall|k: int| 0 <= k < values.len() ==> is_stored_tag(#[trigger] values[k]),
    ensures
        append_unique_spec(tags, values).no_duplicates(),
        forall|k: int| 0 <= k < append_unique_spec(tags, values).len() ==> is_stored_tag(#[trigger] append_unique_spec(tags, values)[k]),
    decreases values.len(),
{
    if values.len() > 0 {
        let next = if tags.contains(values[0]) {
            tags
        } else {
            let r = tags.push(values[0]);
            assert forall|i: int, j: int| 0 <= i < r.len() && 0 <= j < r.len() && i != j implies r[i] != r[j] by {
                if i == tags.len() as int {
                    assert(r[j] == tags[j]);
                } else if j == tags.len() as int {
                    assert(r[i] == tags[i]);
                }
            }
            r
        };
        assert forall|k: int| 0 <= k < values.drop_first().len() implies is_stored_tag(#[trigger] values.drop_first()[k]) by {
            assert(values.drop_first()[k] == values[k + 1]);
        }
        lemma_append_unique_distinct(next, values.drop_first());
    }
}

proof fn lemma_push_link_distinct(links: Seq<LinkView>, kind: ProjectionLinkKind, target: Seq<char>)
    requires
        links.no_duplicates(),
    ensures
        push_link_spec(links, kind, target).no_duplicates(),
{
    let trimmed = trim_ws(target);
    if !(trimmed.len() == 0 || links.contains((kind, trimmed))) {
        let r = links.push((kind, trimmed));
        assert forall|i: int, j: int| 0 <= i < r.len() && 0 <= j < r.len() && i != j implies r[i] != r[j] by {
            if i == links.len() as int {
                assert(r[j] == links[j]);
            } else if j == links.len() as int {
                assert(r[i] == links[i]);
            }
        }
    }
}

proof fn lemma_wiki_links_distinct(text: Seq<char>, from: int, links: Seq<LinkView>)
    requires
        links.no_duplicates(),
    ensures
        wiki_links_from(text, from, links).no_duplicates(),
    decreases text.len() - from,
{
    if !(from < 0 || from > text.len()) {
        match find_pair_from(text, '[', '[', from) {
            None => {},
            Some(opening) => {
                let embedded = opening > from && text[opening - 1] == '!';
                match find_pair_from(text, ']', ']', opening + 2) {
                    None => {},
                    Some(closing) => {
                        if from < closing + 2 <= text.len() {
                            let inner = text.subrange(opening + 2, closing);
                            lemma_push_link_distinct(links, wiki_kind(embedded), wiki_target(inner));
                            lemma_wiki_links_distinct(
                                text,
                                closing + 2,
                                push_link_spec(links, wiki_kind(embedded), wiki_target(inner)),
                            );
                        }
                    },
                }
            },
        }
    }
}

proof fn lemma_source_links_distinct(body: Seq<char>, excluded: Seq<(int, int)>, cursor: int, links: Seq<LinkView>)
    requires
        links.no_duplicates(),
    ensures
        source_links(body, excluded, cursor, links).no_duplicates(),
    decreases excluded.len(),
{
    if excluded.len() == 0 {
        if cursor < str_len(body) {
            lemma_wiki_links_distinct(byte_segment(body, cursor, str_len(body) as int), 0, links);
        }
    } else {
        let (start, end) = excluded[0];
        let next = if cursor < start {
            lemma_wiki_links_distinct(byte_segment(body, cursor, start), 0, links);
            wiki_links_from(byte_segment(body, cursor, start), 0, links)
        } else {
            links
        };
        lemma_source_links_distinct(body, excluded.drop_first(), if cursor >= end { cursor } else { end }, next);
    }
}

proof fn lemma_scan_distinct(events: Seq<MarkdownEvent>)
    ensures
        scan_events(events).tags.no_duplicates(),
        forall|k: int| 0 <= k < scan_events(events).tags.len() ==> is_stored_tag(#[trigger] scan_events(events).tags[k]),
        scan_events(events).links.no_duplicates(),
    decreases events.len(),
{
    if events.len() > 0 {
        lemma_scan_distinct(events.drop_last());
        let st = scan_events(events.drop_last());
        let e = events.last();
        match e.kind {
            MarkdownEventKind::StartLink(dest) => {
                lemma_push_link_distinct(st.links, ProjectionLinkKind::Markdown, dest@);
            },
            MarkdownEventKind::StartImage(dest) => {
                lemma_push_link_distinct(st.links, ProjectionLinkKind::MarkdownImage, dest@);
            },
            MarkdownEventKind::Text(text) => {
                lemma_inline_tags_distinct(text@, 0, st.tags);
            },
            _ => {},
        }
    }
}

/// The tags of a projection are non-empty, each is the lowercase form of
/// its source text, and none occurs twice.
pub proof fn lemma_projection_tags_distinct(content: Seq<char>)
    ensures
        projection_tags(content).no_duplicates(),
        forall|k: int| 0 <= k < projection_tags(content).len() ==> is_stored_tag(#[trigger] projection_tags(content)[k]),
{
    let body = projection_body(content);
    lemma_scan_distinct(markdown_event_stream(body));
    let frontmatter_tags = match content_metadata(content) {
        Some(m) => m.1,
        None => Seq::empty(),
    };
    match frontmatter_spec(content) {
        Some((start, end, _)) => {
            let source = content.subrange(start, end);
            if trim_ws(source).len() != 0 {
                match yaml_load(source) {
                    Some(docs) => {
                        if docs.len() == 1 {
                            let root = yaml_tree_of(docs[0]);
                            match root {
                                crate::infrastructure::yaml_metadata::YamlTree::Hash(entries) => {
                                    lemma_push_tags_distinct(
                                        Seq::empty(),
                                        crate::infrastructure::yaml_metadata::tag_values_spec(
                                            crate::infrastructure::yaml_metadata::yaml_lookup(entries@, "tags"@),
                                        ),
                                    );
                                },
                                _ => {},
                            }
                        }
                    },
                    None => {},
                }
            }
        },
        None => {},
    }
    lemma_append_unique_distinct(frontmatter_tags, markdown_metadata_spec(body).1);
}

proof fn lemma_scan_heading_nonempty(events: Seq<MarkdownEvent>)
    ensures
        scan_events(events).first_h1 matches Some(h) ==> h.len() > 0,
    decreases events.len(),
{
    if events.len() > 0 {
        lemma_scan_heading_nonempty(events.drop_last());
    }
}

proof fn lemma_last_segment(s: Seq<char>)
    ensures
        split_seq(s, '/').last() == match last_slash(s) {
            Some(k) => s.subrange(k + 1, s.len() as int),
            None => s,
        },
    decreases s.len(),
{
    crate::text::lemma_split_shape(s, '/');
    if s.len() > 0 {
        lemma_last_segment(s.drop_last());
        crate::text::lemma_split_shape(s.drop_last(), '/');
        lemma_last_slash_bounds(s.drop_last());
        if s.last() != '/' {
            match last_slash(s.drop_last()) {
                Some(k) => {
                    assert(s.drop_last().subrange(k + 1, s.len() - 1).push(s.last()) =~= s.subrange(
                        k + 1,
                        s.len() as int,
                    ));
                },
                None => {
                    assert(s.drop_last().push(s.last()) =~= s);
                },
            }
        } else {
            assert(s.subrange(s.len() as int, s.len() as int) =~= Seq::<char>::empty());
        }
    }
}

/// Every projection of a document at a Markdown path has a non-empty title:
/// a frontmatter title and a heading count only when they are not blank, and
/// the file name of a Markdown path keeps at least one character before `.md`.
pub proof fn lemma_projection_title_nonempty(path: Seq<char>, content: Seq<char>)
    requires
        is_markdown_path(path),
    ensures
        projection_title(path, content).len() > 0,
{
    lemma_scan_heading_nonempty(markdown_event_stream(projection_body(content)));
    lemma_markdown_path_is_canonical(path);
    lemma_canonical_segments(path);
    crate::text::lemma_split_shape(path, '/');
    lemma_last_segment(path);
    lemma_last_slash_bounds(path);
    let segments = split_seq(path, '/');
    let name = segments.last();
    assert(name == segments[segments.len() - 1]);
    assert(name.len() > 0 && name[0] != '.');
    if crate::text::ends_with(name, seq!['.', 'm', 'd']) {
        if name.len() == 3 {
            assert(name.subrange(0, 3)[0] == '.');
        }
        assert(name.take(name.len() - 3).len() > 0);
    }
}

/// The links of a projection never repeat a (kind, target) pair.
pub proof fn lemma_projection_links_distinct(content: Seq<char>)
    ensures
        markdown_metadata_spec(projection_body(content)).2.no_duplicates(),
{
    let body = projection_body(content);
    let st = scan_events(markdown_event_stream(body));
    lemma_scan_distinct(markdown_event_stream(body));
    lemma_source_links_distinct(body, st.excluded, 0, st.links);
}

/// Without a parsed frontmatter block the searchable body is the whole
/// content; with one, the body is what follows the block, so the content is
/// the block followed by the body.
pub proof fn lemma_projection_body(content: Seq<char>)
    ensures
        frontmatter_status_spec(content) != FrontmatterStatus::Parsed ==> projection_body(content) == content,
        frontmatter_status_spec(content) == FrontmatterStatus::Parsed ==> (exists|k: int| 0 < k <= content.len() && content.subrange(k, content.len() as int) == projection_body(content)),
{
    if frontmatter_status_spec(content) == FrontmatterStatus::Parsed {
        match frontmatter_spec(content) {
            Some((start, line, next)) => {
                lemma_closing_line_bounds(content, start);
                assert(content.subrange(next, content.len() as int) == projection_body(content));
            },
            None => {},
        }
    }
}

} // verus!
