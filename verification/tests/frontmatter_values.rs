use std::time::SystemTime;

use knowledgeos_backend::domain::document::MarkdownDocument;
use knowledgeos_backend::domain::path::MarkdownPath;
use knowledgeos_backend::domain::projection::FrontmatterStatus;
use knowledgeos_backend::infrastructure::markdown_projection::{
    filename_title, parse_markdown, MarkdownProjectionParser,
};
use knowledgeos_backend::infrastructure::yaml_metadata::parse_yaml_metadata;

fn document(path: &str, content: &str) -> MarkdownDocument {
    MarkdownDocument {
        path: MarkdownPath::parse(path).expect("test Markdown path must be valid"),
        content: content.to_owned(),
        hash: format!("sha256:{}", "0".repeat(64)),
        size: content.len() as u64,
        modified_at: SystemTime::UNIX_EPOCH,
    }
}

fn json(text: &str) -> serde_json::Value {
    serde_json::from_str(text).expect("test JSON must be valid")
}

#[test]
fn frontmatter_scalars_become_json_values() {
    let metadata = parse_yaml_metadata(
        "ratio: 1.50\ncount: 3\nflag: true\nnothing: ~\nlist: [a, 1]\nnested:\n  k: v\n",
    )
    .expect("mapping frontmatter should be metadata");
    assert_eq!(
        json(&metadata.json),
        json(r#"{"ratio": 1.5, "count": 3, "flag": true, "nothing": null, "list": ["a", 1], "nested": {"k": "v"}}"#)
    );
    assert_eq!(metadata.title, None);
    assert!(metadata.tags.is_empty());
}

#[test]
fn reals_without_a_finite_json_number_stay_text() {
    let metadata = parse_yaml_metadata("huge: 1e400\nendless: .inf\n")
        .expect("mapping frontmatter should be metadata");
    assert_eq!(json(&metadata.json), json(r#"{"huge": "1e400", "endless": ".inf"}"#));
}

#[test]
fn blank_frontmatter_is_an_empty_object() {
    let metadata = parse_yaml_metadata(" \n\t\n").expect("blank frontmatter should be metadata");
    assert_eq!(metadata.json, "{}");
    assert_eq!(metadata.title, None);
}

#[test]
fn titles_are_trimmed_and_blank_titles_fall_back() {
    let titled = parse_yaml_metadata("title: '  Plan  '\n").expect("metadata");
    assert_eq!(titled.title.as_deref(), Some("Plan"));
    let blank = MarkdownProjectionParser::parse(&document(
        "notes/blank.md",
        "---\ntitle: '   '\n---\n# Heading\n",
    ));
    assert_eq!(blank.frontmatter_status, FrontmatterStatus::Parsed);
    assert_eq!(blank.title, "Heading");
}

#[test]
fn tag_lists_keep_only_strings() {
    let metadata = parse_yaml_metadata("tags: [Alpha, 1, '#beta/', alpha]\n").expect("metadata");
    assert_eq!(metadata.tags, ["alpha", "beta"]);
}

#[test]
fn non_mapping_roots_and_scan_errors_are_not_metadata() {
    assert!(parse_yaml_metadata("- a\n- b\n").is_none());
    assert!(parse_yaml_metadata("plain text").is_none());
    assert!(parse_yaml_metadata("a: [1, 2\n").is_none());
}

#[test]
fn markdown_metadata_reads_heading_tags_and_links() {
    let metadata = parse_markdown("# First  \n\n# Second\n#tag [link](target.md) `[[code]]` [[Wiki|Label]]");
    assert_eq!(metadata.first_h1.as_deref(), Some("First"));
    assert_eq!(metadata.tags, ["tag"]);
    let targets: Vec<&str> = metadata.links.iter().map(|link| link.target.as_str()).collect();
    assert_eq!(targets, ["target.md", "Wiki"]);
}

#[test]
fn file_names_without_the_extension_become_titles() {
    let title: String = filename_title(&"notes/daily/2026-01-01.md".chars().collect::<Vec<_>>())
        .into_iter()
        .collect();
    assert_eq!(title, "2026-01-01");
    let plain: String = filename_title(&"readme".chars().collect::<Vec<_>>()).into_iter().collect();
    assert_eq!(plain, "readme");
}
