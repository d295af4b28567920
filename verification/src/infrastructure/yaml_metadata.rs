//! Frontmatter metadata: the YAML mapping at the top of a note, read as a
//! title, a tag list and a JSON object.

use serde_json::{Map as JsonMap, Number, Value};
use vstd::prelude::*;
use yaml_rust2::{Yaml, YamlLoader};

use crate::infrastructure::markdown_projection::{push_tag, push_tag_spec, strings_view};
use crate::text::{chars_of, split_chars, split_seq, trim_whitespace, trim_ws};

verus! {

/// `yaml_rust2::Yaml`, carried opaquely between the loader and `yaml_tree`.
#[verifier::external_type_specification]
#[verifier::external_body]
pub struct ExYaml(Yaml);

/// `serde_json::Value`, carried opaquely to the serializer.
#[verifier::external_type_specification]
#[verifier::external_body]
pub struct ExJsonValue(Value);

/// `serde_json::Number`, the JSON number that a YAML real becomes.
#[verifier::external_type_specification]
#[verifier::external_body]
pub struct ExJsonNumber(Number);

/// A YAML node, variant for variant as `yaml_rust2` loads it; hash entries in
/// insertion order.
#[derive(Debug)]
pub enum YamlTree {
    Real(String),
    Integer(i64),
    Str(String),
    Boolean(bool),
    Array(Vec<YamlTree>),
    Hash(Vec<(YamlTree, YamlTree)>),
    Alias(usize),
    Null,
    BadValue,
}

/// A JSON value built from YAML; object entries in YAML order.
#[derive(Debug)]
pub enum JsonTree {
    Null,
    Bool(bool),
    Integer(i64),
    Float(Number),
    Str(String),
    Array(Vec<JsonTree>),
    Object(Vec<(String, JsonTree)>),
}

/// A JSON value as a mathematical value.
pub enum JsonView {
    Null,
    Bool(bool),
    Integer(i64),
    Float(Number),
    Str(Seq<char>),
    Array(Seq<JsonView>),
    Object(Seq<(Seq<char>, JsonView)>),
}

/// The view of a JSON value.
pub open spec fn json_view(j: JsonTree) -> JsonView
    decreases j,
{
    match j {
        JsonTree::Null => JsonView::Null,
        JsonTree::Bool(b) => JsonView::Bool(b),
        JsonTree::Integer(n) => JsonView::Integer(n),
        JsonTree::Float(n) => JsonView::Float(n),
        JsonTree::Str(s) => JsonView::Str(s@),
        JsonTree::Array(items) => JsonView::Array(json_items_view(items@)),
        JsonTree::Object(entries) => JsonView::Object(json_entries_view(entries@)),
    }
}

/// The views of a sequence of JSON values.
pub open spec fn json_items_view(items: Seq<JsonTree>) -> Seq<JsonView>
    decreases items,
{
    if items.len() == 0 {
        Seq::empty()
    } else {
        json_items_view(items.drop_last()).push(json_view(items.last()))
    }
}

/// The views of a sequence of JSON object entries.
pub open spec fn json_entries_view(entries: Seq<(String, JsonTree)>) -> Seq<(Seq<char>, JsonView)>
    decreases entries,
{
    if entries.len() == 0 {
        Seq::empty()
    } else {
        json_entries_view(entries.drop_last()).push(
            (entries.last().0@, json_view(entries.last().1)),
        )
    }
}

/// What `text.parse::<f64>()` followed by `Number::from_f64` gives: a number
/// for text that reads as a finite float, `None` otherwise.
pub uninterp spec fn json_float_of(text: Seq<char>) -> Option<Number>;

/// The JSON form of a YAML node: reals that read as finite floats become
/// numbers and other reals strings; hashes need string keys; aliases and bad
/// values have none.
pub open spec fn yaml_json(y: YamlTree) -> Option<JsonView>
    decreases y,
{
    match y {
        YamlTree::Real(t) => Some(
            match json_float_of(t@) {
                Some(n) => JsonView::Float(n),
                None => JsonView::Str(t@),
            },
        ),
        YamlTree::Integer(n) => Some(JsonView::Integer(n)),
        YamlTree::Str(s) => Some(JsonView::Str(s@)),
        YamlTree::Boolean(b) => Some(JsonView::Bool(b)),
        YamlTree::Array(items) => match yaml_items_json(items@) {
            Some(v) => Some(JsonView::Array(v)),
            None => None,
        },
        YamlTree::Hash(entries) => match yaml_entries_json(entries@) {
            Some(v) => Some(JsonView::Object(v)),
            None => None,
        },
        YamlTree::Null => Some(JsonView::Null),
        YamlTree::Alias(_) => None,
        YamlTree::BadValue => None,
    }
}

/// The JSON forms of a sequence of YAML nodes, if each has one.
pub open spec fn yaml_items_json(items: Seq<YamlTree>) -> Option<Seq<JsonView>>
    decreases items,
{
    if items.len() == 0 {
        Some(Seq::empty())
    } else {
        match (yaml_items_json(items.drop_last()), yaml_json(items.last())) {
            (Some(rest), Some(v)) => Some(rest.push(v)),
            _ => None,
        }
    }
}

/// The JSON object entries of YAML hash entries, if every key is a string
/// and every value has a JSON form.
pub open spec fn yaml_entries_json(entries: Seq<(YamlTree, YamlTree)>) -> Option<
    Seq<(Seq<char>, JsonView)>,
>
    decreases entries,
{
    if entries.len() == 0 {
        Some(Seq::empty())
    } else {
        match (yaml_entries_json(entries.drop_last()), entries.last().0, yaml_json(entries.last().1)) {
            (Some(rest), YamlTree::Str(k), Some(v)) => Some(rest.push((k@, v))),
            _ => None,
        }
    }
}

proof fn lemma_items_prefix_fails(items: Seq<YamlTree>, i: int)
    requires
        0 <= i <= items.len(),
        yaml_items_json(items.take(i)) is None,
    ensures
        yaml_items_json(items) is None,
    decreases items.len() - i,
{
    if i < items.len() {
        assert(items.take(i + 1).drop_last() == items.take(i));
        lemma_items_prefix_fails(items, i + 1);
    } else {
        assert(items.take(i) == items);
    }
}

proof fn lemma_entries_prefix_fails(entries: Seq<(YamlTree, YamlTree)>, i: int)
    requires
        0 <= i <= entries.len(),
        yaml_entries_json(entries.take(i)) is None,
    ensures
        yaml_entries_json(entries) is None,
    decreases entries.len() - i,
{
    if i < entries.len() {
        assert(entries.take(i + 1).drop_last() == entries.take(i));
        lemma_entries_prefix_fails(entries, i + 1);
    } else {
        assert(entries.take(i) == entries);
    }
}

/// Reads a YAML real as a JSON number with `str::parse` and
/// `serde_json::Number::from_f64`; `None` where the text is no float or the
/// float is not finite.
#[verifier::external_body]
fn json_float(text: &str) -> (n: Option<Number>)
    ensures
        n == json_float_of(text@),
{
    text.parse().ok().and_then(Number::from_f64)
}

/// Converts a YAML node to JSON, as `yaml_json` says.
pub fn yaml_to_json(y: &YamlTree) -> (r: Option<JsonTree>)
    ensures
        match r {
            Some(j) => yaml_json(*y) == Some(json_view(j)),
            None => yaml_json(*y) is None,
        },
    decreases y,
{
    match y {
        YamlTree::Real(t) => match json_float(t.as_str()) {
            Some(n) => Some(JsonTree::Float(n)),
            None => Some(JsonTree::Str(t.clone())),
        },
        YamlTree::Integer(n) => Some(JsonTree::Integer(*n)),
        YamlTree::Str(s) => Some(JsonTree::Str(s.clone())),
        YamlTree::Boolean(b) => Some(JsonTree::Bool(*b)),
        YamlTree::Array(items) => {
            let mut out: Vec<JsonTree> = Vec::new();
            let mut i: usize = 0;
            while i < items.len()
                invariant
                    i <= items@.len(),
                    *y == YamlTree::Array(*items),
                    yaml_items_json(items@.take(i as int)) == Some(json_items_view(out@)),
                decreases items@.len() - i,
            {
                assert(items@.take(i + 1).drop_last() == items@.take(i as int));
                assert(decreases_to!(*y => *items));
                assert(decreases_to!(*items => items@));
                assert(decreases_to!(items@ => items@[i as int]));
                match yaml_to_json(&items[i]) {
                    Some(v) => {
                        let ghost before = out@;
                        out.push(v);
                        assert(out@.drop_last() == before);
                    },
                    None => {
                        proof {
                            lemma_items_prefix_fails(items@, i + 1);
                        }
                        return None;
                    },
                }
                i = i + 1;
            }
            assert(items@.take(i as int) == items@);
            Some(JsonTree::Array(out))
        },
        YamlTree::Hash(entries) => {
            let mut out: Vec<(String, JsonTree)> = Vec::new();
            let mut i: usize = 0;
            while i < entries.len()
                invariant
                    i <= entries@.len(),
                    *y == YamlTree::Hash(*entries),
                    yaml_entries_json(entries@.take(i as int)) == Some(json_entries_view(out@)),
                decreases entries@.len() - i,
            {
                assert(entries@.take(i + 1).drop_last() == entries@.take(i as int));
                assert(decreases_to!(*y => *entries));
                assert(decreases_to!(*entries => entries@));
                assert(decreases_to!(entries@ => entries@[i as int]));
                assert(decreases_to!(entries@[i as int] => entries@[i as int].1));
                let (key, value) = &entries[i];
                let converted = yaml_to_json(value);
                match (key, converted) {
                    (YamlTree::Str(k), Some(v)) => {
                        let ghost before = out@;
                        out.push((k.clone(), v));
                        assert(out@.drop_last() == before);
                    },
                    _ => {
                        proof {
                            lemma_entries_prefix_fails(entries@, i + 1);
                        }
                        return None;
                    },
                }
                i = i + 1;
            }
            assert(entries@.take(i as int) == entries@);
            Some(JsonTree::Object(out))
        },
        YamlTree::Null => Some(JsonTree::Null),
        YamlTree::Alias(_) => None,
        YamlTree::BadValue => None,
    }
}

// ----- loading and serializing -----

/// What `YamlLoader::load_from_str` loads from a source: its documents, or
/// `None` where it reports a scan error.
pub uninterp spec fn yaml_load(source: Seq<char>) -> Option<Seq<Yaml>>;

/// What a loaded YAML node holds, written as a `YamlTree`.
pub uninterp spec fn yaml_tree_of(value: Yaml) -> YamlTree;

/// The `serde_json::Value` built from a JSON view.
pub uninterp spec fn json_value_of(value: JsonView) -> Value;

/// What `serde_json::to_string` writes for a value, or `None` where it fails.
pub uninterp spec fn json_text_of(value: Value) -> Option<Seq<char>>;

/// Loads the YAML documents of `source` with `YamlLoader::load_from_str`;
/// `None` where the loader reports an error.
#[verifier::external_body]
fn load_yaml(source: &str) -> (docs: Option<Vec<Yaml>>)
    ensures
        match docs {
            Some(v) => yaml_load(source@) == Some(v@),
            None => yaml_load(source@) is None,
        },
{
    YamlLoader::load_from_str(source).ok()
}

/// Copies a `yaml_rust2::Yaml` node into a `YamlTree`, variant for variant,
/// hash entries in the map's order.
#[verifier::external_body]
fn yaml_tree(value: &Yaml) -> (tree: YamlTree)
    ensures
        tree == yaml_tree_of(*value),
{
    match value {
        Yaml::Real(text) => YamlTree::Real(text.clone()),
        Yaml::Integer(n) => YamlTree::Integer(*n),
        Yaml::String(text) => YamlTree::Str(text.clone()),
        Yaml::Boolean(b) => YamlTree::Boolean(*b),
        Yaml::Array(items) => YamlTree::Array(items.iter().map(yaml_tree).collect()),
        Yaml::Hash(entries) => YamlTree::Hash(entries.iter().map(|(k, v)| (yaml_tree(k), yaml_tree(v))).collect()),
        Yaml::Alias(n) => YamlTree::Alias(*n),
        Yaml::Null => YamlTree::Null,
        Yaml::BadValue => YamlTree::BadValue,
    }
}

/// Copies a `JsonTree` into a `serde_json::Value`, variant for variant;
/// object entries are inserted into the `serde_json::Map` in order.
#[verifier::external_body]
fn json_value(value: &JsonTree) -> (v: Value)
    ensures
        v == json_value_of(json_view(*value)),
{
    match value {
        JsonTree::Null => Value::Null,
        JsonTree::Bool(b) => Value::Bool(*b),
        JsonTree::Integer(n) => Value::Number(Number::from(*n)),
        JsonTree::Float(n) => Value::Number(n.clone()),
        JsonTree::Str(text) => Value::String(text.clone()),
        JsonTree::Array(items) => Value::Array(items.iter().map(json_value).collect()),
        JsonTree::Object(entries) => Value::Object(entries.iter().map(|(k, v)| (k.clone(), json_value(v))).collect::<JsonMap<String, Value>>()),
    }
}

/// Serializes a value with `serde_json::to_string`; `None` where it fails.
#[verifier::external_body]
fn json_text(value: &Value) -> (text: Option<String>)
    ensures
        match text {
            Some(t) => json_text_of(*value) == Some(t@),
            None => json_text_of(*value) is None,
        },
{
    serde_json::to_string(value).ok()
}

// ----- the metadata -----

/// The characters of each piece.
pub open spec fn char_vecs_view(v: Seq<Vec<char>>) -> Seq<Seq<char>> {
    v.map_values(|p: Vec<char>| p@)
}

/// The value of the first hash entry whose key is the string `key`.
pub open spec fn yaml_lookup(entries: Seq<(YamlTree, YamlTree)>, key: Seq<char>) -> Option<YamlTree>
    decreases entries.len(),
{
    if entries.len() == 0 {
        None
    } else if entries[0].0 matches YamlTree::Str(k) && k@ == key {
        Some(entries[0].1)
    } else {
        yaml_lookup(entries.drop_first(), key)
    }
}

/// The string items of a YAML sequence, in order.
pub open spec fn yaml_string_items(items: Seq<YamlTree>) -> Seq<Seq<char>>
    decreases items.len(),
{
    if items.len() == 0 {
        Seq::empty()
    } else {
        let rest = yaml_string_items(items.drop_last());
        match items.last() {
            YamlTree::Str(s) => rest.push(s@),
            _ => rest,
        }
    }
}

/// The raw tag values of a `tags` entry: the comma-separated parts of a
/// string, or the string items of a sequence.
pub open spec fn tag_values_spec(value: Option<YamlTree>) -> Seq<Seq<char>> {
    match value {
        Some(YamlTree::Str(s)) => split_seq(s@, ','),
        Some(YamlTree::Array(items)) => yaml_string_items(items@),
        _ => Seq::empty(),
    }
}

/// Adds each value in order as a normalized tag.
pub open spec fn push_tags(tags: Seq<Seq<char>>, values: Seq<Seq<char>>) -> Seq<Seq<char>>
    decreases values.len(),
{
    if values.len() == 0 {
        tags
    } else {
        push_tag_spec(push_tags(tags, values.drop_last()), values.last())
    }
}

/// The title of a `title` entry: a string, trimmed, when not blank.
pub open spec fn title_spec(value: Option<YamlTree>) -> Option<Seq<char>> {
    match value {
        Some(YamlTree::Str(s)) => if trim_ws(s@).len() > 0 {
            Some(trim_ws(s@))
        } else {
            None
        },
        _ => None,
    }
}

/// Title, tags and JSON text of a frontmatter block.
pub struct FrontmatterMetadata {
    pub title: Option<String>,
    pub tags: Vec<String>,
    pub json: String,
}

/// The metadata as mathematical values.
pub open spec fn metadata_view(m: FrontmatterMetadata) -> (Option<Seq<char>>, Seq<Seq<char>>, Seq<char>) {
    (
        match m.title {
            Some(t) => Some(t@),
            None => None,
        },
        strings_view(m.tags@),
        m.json@,
    )
}

/// The metadata of a YAML root node: it must be a mapping whose JSON form
/// exists and serializes.
pub open spec fn root_metadata(root: YamlTree) -> Option<(Option<Seq<char>>, Seq<Seq<char>>, Seq<char>)> {
    match root {
        YamlTree::Hash(entries) => match yaml_json(root) {
            None => None,
            Some(j) => match json_text_of(json_value_of(j)) {
                None => None,
                Some(text) => Some(
                    (
                        title_spec(yaml_lookup(entries@, "title"@)),
                        push_tags(Seq::empty(), tag_values_spec(yaml_lookup(entries@, "tags"@))),
                        text,
                    ),
                ),
            },
        },
        _ => None,
    }
}

/// The metadata of a frontmatter source: a blank source has no title, no
/// tags and the JSON object `{}`; otherwise it must load as exactly one YAML
/// document whose root gives metadata.
pub open spec fn yaml_metadata_spec(source: Seq<char>) -> Option<(Option<Seq<char>>, Seq<Seq<char>>, Seq<char>)> {
    if trim_ws(source).len() == 0 {
        Some((None, Seq::empty(), "{}"@))
    } else {
        match yaml_load(source) {
            Some(docs) => if docs.len() == 1 {
                root_metadata(yaml_tree_of(docs[0]))
            } else {
                None
            },
            None => None,
        }
    }
}

fn lookup<'a>(entries: &'a Vec<(YamlTree, YamlTree)>, key: &String) -> (r: Option<&'a YamlTree>)
    ensures
        match r {
            Some(v) => yaml_lookup(entries@, key@) == Some(*v),
            None => yaml_lookup(entries@, key@) is None,
        },
{
    let mut i: usize = 0;
    assert(entries@.skip(0) == entries@);
    while i < entries.len()
        invariant
            i <= entries@.len(),
            yaml_lookup(entries@, key@) == yaml_lookup(entries@.skip(i as int), key@),
        decreases entries@.len() - i,
    {
        assert(entries@.skip(i as int)[0] == entries@[i as int]);
        assert(entries@.skip(i as int).drop_first() == entries@.skip(i + 1));
        let (k, v) = &entries[i];
        match k {
            YamlTree::Str(text) => {
                if *text == *key {
                    return Some(v);
                }
            },
            _ => {},
        }
        i = i + 1;
    }
    None
}

fn tag_values(value: Option<&YamlTree>) -> (values: Vec<Vec<char>>)
    ensures
        char_vecs_view(values@) == tag_values_spec(
            match value {
                Some(v) => Some(*v),
                None => None,
            },
        ),
{
    match value {
        Some(YamlTree::Str(s)) => {
            let chars = chars_of(s.as_str());
            let pieces = split_chars(chars.as_slice(), ',');
            assert(char_vecs_view(pieces@) =~= split_seq(s@, ','));
            pieces
        },
        Some(YamlTree::Array(items)) => {
            let mut out: Vec<Vec<char>> = Vec::new();
            let mut i: usize = 0;
            while i < items.len()
                invariant
                    i <= items@.len(),
                    char_vecs_view(out@) == yaml_string_items(items@.take(i as int)),
                decreases items@.len() - i,
            {
                assert(items@.take(i + 1).drop_last() == items@.take(i as int));
                match &items[i] {
                    YamlTree::Str(t) => {
                        let ghost before = out@;
                        out.push(chars_of(t.as_str()));
                        assert(char_vecs_view(out@) == char_vecs_view(before).push(t@));
                    },
                    _ => {},
                }
                i = i + 1;
            }
            assert(items@.take(i as int) == items@);
            out
        },
        _ => Vec::new(),
    }
}

fn frontmatter_tags(value: Option<&YamlTree>) -> (tags: Vec<String>)
    ensures
        strings_view(tags@) == push_tags(
            Seq::empty(),
            tag_values_spec(
                match value {
                    Some(v) => Some(*v),
                    None => None,
                },
            ),
        ),
{
    let values = tag_values(value);
    let mut tags: Vec<String> = Vec::new();
    let mut i: usize = 0;
    assert(strings_view(tags@) =~= Seq::<Seq<char>>::empty());
    while i < values.len()
        invariant
            i <= values@.len(),
            strings_view(tags@) == push_tags(Seq::empty(), char_vecs_view(values@).take(i as int)),
        decreases values@.len() - i,
    {
        assert(char_vecs_view(values@).take(i + 1).drop_last() == char_vecs_view(values@).take(
            i as int,
        ));
        assert(char_vecs_view(values@)[i as int] == values@[i as int]@);
        push_tag(&mut tags, values[i].as_slice());
        i = i + 1;
    }
    assert(char_vecs_view(values@).take(i as int) == char_vecs_view(values@));
    tags
}

fn frontmatter_title(value: Option<&YamlTree>) -> (title: Option<String>)
    ensures
        match title {
            Some(t) => title_spec(
                match value {
                    Some(v) => Some(*v),
                    None => None,
                },
            ) == Some(t@),
            None => title_spec(
                match value {
                    Some(v) => Some(*v),
                    None => None,
                },
            ) is None,
        },
{
    match value {
        Some(YamlTree::Str(s)) => {
            let chars = chars_of(s.as_str());
            let trimmed = trim_whitespace(chars.as_slice());
            if trimmed.len() > 0 {
                Some(crate::text::string_from_chars(trimmed.as_slice()))
            } else {
                None
            }
        },
        _ => None,
    }
}

/// The metadata of a loaded YAML root node, as `root_metadata` says.
pub fn metadata_from_root(root: &YamlTree) -> (m: Option<FrontmatterMetadata>)
    ensures
        match m {
            Some(m) => root_metadata(*root) == Some(metadata_view(m)),
            None => root_metadata(*root) is None,
        },
{
    match root {
        YamlTree::Hash(entries) => {
            let json = match yaml_to_json(root) {
                Some(j) => j,
                None => return None,
            };
            let value = json_value(&json);
            let text = match json_text(&value) {
                Some(t) => t,
                None => return None,
            };
            let title_key = "title".to_owned();
            let tags_key = "tags".to_owned();
            let title = frontmatter_title(lookup(entries, &title_key));
            let tags = frontmatter_tags(lookup(entries, &tags_key));
            Some(FrontmatterMetadata { title, tags, json: text })
        },
        _ => None,
    }
}

/// Reads the metadata of a frontmatter source, as `yaml_metadata_spec` says.
pub fn parse_yaml_metadata(source: &str) -> (m: Option<FrontmatterMetadata>)
    ensures
        match m {
            Some(m) => yaml_metadata_spec(source@) == Some(metadata_view(m)),
            None => yaml_metadata_spec(source@) is None,
        },
{
    let chars = chars_of(source);
    let trimmed = trim_whitespace(chars.as_slice());
    if trimmed.len() == 0 {
        let m = FrontmatterMetadata { title: None, tags: Vec::new(), json: "{}".to_owned() };
        assert(strings_view(m.tags@) =~= Seq::<Seq<char>>::empty());
        return Some(m);
    }
    let docs = match load_yaml(source) {
        Some(d) => d,
        None => return None,
    };
    if docs.len() != 1 {
        return None;
    }
    let root = yaml_tree(&docs[0]);
    metadata_from_root(&root)
}

} // verus!
