//! Use cases that combine the adapters.

pub mod indexed_markdown_writer;
