use knowledgeos_backend::domain::projection::ProjectionLinkKind;
use knowledgeos_backend::infrastructure::markdown_projection::{
    scan_markdown_events, MarkdownEvent, MarkdownEventKind,
};

fn event(kind: MarkdownEventKind, start: usize, end: usize) -> MarkdownEvent {
    MarkdownEvent { kind, start, end }
}

#[test]
fn a_scan_of_given_events_reads_heading_tags_and_links() {
    let body = "# Title\n\nSee #Rust and [doc](a.md) [[Wiki]]\n\n```\n#skip [[no]]\n```\n";
    let events = vec![
        event(MarkdownEventKind::StartHeading(1), 0, 8),
        event(MarkdownEventKind::Text("Title".to_owned()), 2, 7),
        event(MarkdownEventKind::EndHeading(1), 0, 8),
        event(MarkdownEventKind::Text("See #Rust and ".to_owned()), 9, 23),
        event(MarkdownEventKind::StartLink("a.md".to_owned()), 23, 34),
        event(MarkdownEventKind::Text("doc".to_owned()), 24, 27),
        event(MarkdownEventKind::EndLink, 23, 34),
        event(MarkdownEventKind::Text(" [[Wiki]]".to_owned()), 34, 43),
        event(MarkdownEventKind::StartCodeBlock, 45, body.len()),
        event(MarkdownEventKind::Text("#skip [[no]]\n".to_owned()), 49, 62),
        event(MarkdownEventKind::EndCodeBlock, 45, body.len()),
    ];
    let metadata = scan_markdown_events(body, &events);
    assert_eq!(metadata.first_h1.as_deref(), Some("Title"));
    assert_eq!(metadata.tags, vec!["rust".to_owned()]);
    let links: Vec<(ProjectionLinkKind, &str)> = metadata
        .links
        .iter()
        .map(|link| (link.kind, link.target.as_str()))
        .collect();
    assert_eq!(
        links,
        vec![(ProjectionLinkKind::Markdown, "a.md"), (ProjectionLinkKind::Wiki, "Wiki")]
    );
}

#[test]
fn a_scan_of_no_events_finds_only_source_wiki_links() {
    let metadata = scan_markdown_events("[[Only]]", &Vec::new());
    assert!(metadata.first_h1.is_none());
    assert!(metadata.tags.is_empty());
    assert_eq!(metadata.links.len(), 1);
    assert_eq!(metadata.links[0].target, "Only");
}
