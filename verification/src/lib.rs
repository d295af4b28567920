//! Verified core of the KnowledgeOS backend: Vault-relative path rules, the
//! Markdown document model and its search projection, and the decisions of
//! the filesystem, index and tree adapters.

pub mod api;
pub mod application;
pub mod config;
pub mod domain;
pub mod infrastructure;
pub mod text;
