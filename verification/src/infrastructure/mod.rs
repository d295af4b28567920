//! Adapters: the Markdown projection parser and the decisions of the
//! filesystem, index and tree adapters.

pub mod markdown_projection;
pub mod yaml_metadata;
pub mod std_types;
pub mod vault;
pub mod digest;
pub mod markdown;
pub mod markdown_writer;
pub mod tree;
pub mod search_index;
pub mod index_sync;
