# KnowledgeOS backend

A file-based knowledge workspace: Markdown files in one Vault directory are
the source of truth, and a SQLite full-text index is a cache that can always
be rebuilt from them.

## Layout

- `src/` is the library, verified with Verus. It holds the path rules, the
  Markdown projection (frontmatter, headings, tags, links), the content hash,
  the decisions of the filesystem adapters (Vault walks, consistent reads with
  one retry, exclusive creation and optimistic replacement), the listing
  order of the file tree, the search-index bookkeeping and the mapping of
  failures to HTTP answers.
- `app/` is the server around it: configuration from the environment,
  logging, the Axum routes, and the filesystem and SQLite calls. Where a
  step needs a decision, it asks the library; multi-step operations (Vault
  walks, whole reads with their single retry, creation, replacement) are
  driven by protocol objects from the library that say which step comes
  next, and a directory listing is built by the library from what was read
  of each child.
- `tests/` exercises the library on concrete values.

## Running

The server reads `KNOWLEDGEOS_BIND_ADDRESS` (default `127.0.0.1:3000`),
`KNOWLEDGEOS_KNOWLEDGE_ROOT` (default `../knowledge`), `KNOWLEDGEOS_LOG` and
`KNOWLEDGEOS_MAX_MARKDOWN_BYTES` (default 5 MiB).
