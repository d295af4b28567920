use std::time::SystemTime;

use knowledgeos_backend::domain::document::MarkdownDocument;
use knowledgeos_backend::domain::path::MarkdownPath;
use knowledgeos_backend::domain::projection::{
    FrontmatterStatus, ProjectionLink, ProjectionLinkKind,
};
use knowledgeos_backend::infrastructure::markdown_projection::MarkdownProjectionParser;

fn document(path: &str, content: &str) -> MarkdownDocument {
    MarkdownDocument {
        path: MarkdownPath::parse(path).expect("test Markdown path must be valid"),
        content: content.to_owned(),
        hash: format!("sha256:{}", "a".repeat(64)),
        size: content.len() as u64,
        modified_at: SystemTime::UNIX_EPOCH,
    }
}

#[test]
fn extracts_frontmatter_projection_and_removes_it_from_body() {
    let source =
        "---\ntitle: 검색 설계\ntags:\n  - Search\n  - 한글\nstatus: draft\n---\n\n본문";
    let projection = MarkdownProjectionParser::parse(&document("notes/search.md", source));

    assert_eq!(projection.title, "검색 설계");
    assert_eq!(projection.body, "\n본문");
    assert_eq!(projection.tags, ["search", "한글"]);
    assert_eq!(projection.frontmatter_status, FrontmatterStatus::Parsed);
    let expected: serde_json::Value = serde_json::from_str(
        r#"{"title": "검색 설계", "tags": ["Search", "한글"], "status": "draft"}"#,
    )
    .expect("expected JSON should be valid");
    assert_eq!(
        serde_json::from_str::<serde_json::Value>(
            projection
                .frontmatter_json
                .as_deref()
                .expect("frontmatter JSON should exist")
        )
        .expect("frontmatter JSON should be valid"),
        expected
    );
    assert_eq!(
        projection.content_hash,
        format!("sha256:{}", "a".repeat(64))
    );
}

#[test]
fn falls_back_from_frontmatter_title_to_first_h1_then_filename() {
    let heading = MarkdownProjectionParser::parse(&document(
        "notes/fallback.md",
        "## 먼저\n# **실제** `제목`\n본문",
    ));
    let filename =
        MarkdownProjectionParser::parse(&document("notes/파일 제목.md", "제목 없는 본문"));

    assert_eq!(heading.title, "실제 제목");
    assert_eq!(filename.title, "파일 제목");
}

#[test]
fn malformed_frontmatter_keeps_complete_raw_body_and_fallback_metadata() {
    let source = "---\ntitle: [broken\n---\n# 안전한 제목\n본문 #fallback";
    let projection = MarkdownProjectionParser::parse(&document("broken.md", source));

    assert_eq!(projection.frontmatter_status, FrontmatterStatus::Malformed);
    assert_eq!(projection.frontmatter_json, None);
    assert_eq!(projection.body, source);
    assert_eq!(projection.title, "안전한 제목");
    assert_eq!(projection.tags, ["fallback"]);
}

#[test]
fn unclosed_frontmatter_is_malformed_without_losing_content() {
    let source = "---\ntitle: 끝나지 않음\n# 본문";
    let projection = MarkdownProjectionParser::parse(&document("unclosed.md", source));

    assert_eq!(projection.frontmatter_status, FrontmatterStatus::Malformed);
    assert_eq!(projection.body, source);
}

#[test]
fn accepts_empty_and_crlf_frontmatter() {
    let empty = MarkdownProjectionParser::parse(&document("empty.md", "---\n---\n# Empty"));
    let crlf = MarkdownProjectionParser::parse(&document(
        "crlf.md",
        "---\r\ntitle: CRLF\r\n...\r\n# ignored",
    ));

    assert_eq!(empty.frontmatter_status, FrontmatterStatus::Parsed);
    assert_eq!(empty.frontmatter_json.as_deref(), Some("{}"));
    assert_eq!(crlf.title, "CRLF");
    assert_eq!(crlf.body, "# ignored");
}

#[test]
fn merges_normalized_frontmatter_and_inline_tags_in_source_order() {
    let source = "---\ntags: Search, KnowledgeOS\n---\n#search #한글/검색 #KnowledgeOS";
    let projection = MarkdownProjectionParser::parse(&document("tags.md", source));

    assert_eq!(projection.tags, ["search", "knowledgeos", "한글/검색"]);
}

#[test]
fn ignores_hashtags_inside_inline_and_fenced_code() {
    let source = "본문 #real `#inline` <https://example.com/#fragment>\n```text\n#fenced\n```";
    let projection = MarkdownProjectionParser::parse(&document("tags.md", source));

    assert_eq!(projection.tags, ["real"]);
}

#[test]
fn extracts_standard_wiki_embed_and_image_links() {
    let source = "[API](./api.md) ![diagram](images/design.png)\n\
                  [[architecture#section|Architecture]] ![[assets/map.png]]";
    let projection = MarkdownProjectionParser::parse(&document("links.md", source));

    assert_eq!(
        projection.links,
        [
            ProjectionLink {
                kind: ProjectionLinkKind::Markdown,
                target: "./api.md".to_owned(),
            },
            ProjectionLink {
                kind: ProjectionLinkKind::MarkdownImage,
                target: "images/design.png".to_owned(),
            },
            ProjectionLink {
                kind: ProjectionLinkKind::Wiki,
                target: "architecture#section".to_owned(),
            },
            ProjectionLink {
                kind: ProjectionLinkKind::WikiEmbed,
                target: "assets/map.png".to_owned(),
            },
        ]
    );
}

#[test]
fn deduplicates_links_and_ignores_code_block_references() {
    let source = "[one](same.md) [two](same.md) [[wiki]] [[wiki]]\n\
                  `[[inline-hidden]]`\n```\n[[fenced-hidden]]\n```\n\
                  <!-- [[html-hidden]] -->";
    let projection = MarkdownProjectionParser::parse(&document("links.md", source));

    assert_eq!(projection.links.len(), 2);
    assert!(
        !projection
            .links
            .iter()
            .any(|link| link.target.contains("hidden"))
    );
}

#[test]
fn rejects_non_mapping_or_non_json_compatible_frontmatter_as_metadata_only() {
    for source in [
        "---\n- item\n---\n본문",
        "---\n? [complex, key]\n: value\n---\n본문",
    ] {
        let projection = MarkdownProjectionParser::parse(&document("invalid.md", source));

        assert_eq!(projection.frontmatter_status, FrontmatterStatus::Malformed);
        assert_eq!(projection.body, source);
        assert_eq!(projection.frontmatter_json, None);
    }
}
