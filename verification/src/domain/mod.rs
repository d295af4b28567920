//! Domain values: paths, documents, projections, search queries and tree listings.

pub mod document;
pub mod path;
pub mod projection;
pub mod search;
pub mod tree;
