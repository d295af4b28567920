//! The rebuildable search projection derived from a Markdown document.

use vstd::prelude::*;

use super::path::MarkdownPath;

verus! {

/// What the search index keeps of one document. It is a cache: it can be
/// deleted and derived again from the Markdown file.
#[derive(Clone, Debug, Eq, PartialEq)]
pub struct MarkdownProjection {
    pub path: MarkdownPath,
    pub title: String,
    pub body: String,
    pub tags: Vec<String>,
    pub links: Vec<ProjectionLink>,
    pub content_hash: String,
    pub frontmatter_json: Option<String>,
    pub frontmatter_status: FrontmatterStatus,
}

/// How the frontmatter of a document was handled; a diagnosis, not an error.
#[derive(Clone, Copy, Debug, PartialEq, Eq, Structural)]
pub enum FrontmatterStatus {
    Absent,
    Parsed,
    Malformed,
}

/// A reference from one document to another resource.
#[derive(Clone, Debug, Eq, Hash, PartialEq)]
pub struct ProjectionLink {
    pub kind: ProjectionLinkKind,
    pub target: String,
}

/// The Markdown syntax a link was written in.
#[derive(Clone, Copy, Debug, Eq, Hash, PartialEq, Structural)]
pub enum ProjectionLinkKind {
    Markdown,
    MarkdownImage,
    Wiki,
    WikiEmbed,
}

/// A link as a kind and the characters of its target.
pub type LinkView = (ProjectionLinkKind, Seq<char>);

impl View for ProjectionLink {
    type V = LinkView;

    open spec fn view(&self) -> LinkView {
        (self.kind, self.target@)
    }
}

} // verus!
