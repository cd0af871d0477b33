# swarm_markdown

A verified library for the note documents of a peer-to-peer note app:

- `to_markdown` serializes a markdown syntax tree (`mdast`) to markdown text,
  with the GFM table, strikethrough and task-list extensions. Its contract
  states the exact text: `output` gives, as spec functions, what each handler
  writes for a node and what it leaves behind for the nodes after it;
- `blocknote` converts between that tree and the blocks of a block editor
  (`from_mdast`, `markdown`), and between blocks and the XML tree of a
  collaborative document (`doc_tree`), with the blocks' props and schema;
- `blocknote::parse` parses markdown into blocks: the `markdown` crate parses
  the text, its syntax tree comes back as JSON text, and `json` and
  `mdast_json` read that text into the library's own tree.

Every function in `src/` carries a contract proved by Verus; the laws of the
conversions (such as that blocks written as a document tree read back as the
same blocks) are proof functions beside them. The calls into outside crates
(`regex`, `markdown` with `serde_json`, `nanoid`, and a few std functions) sit
behind small trusted functions whose contracts say what they are taken to do.

`app/` holds what Verus does not see: reading and writing `yrs` documents,
the blocks' JSON form, and the database migrations.
