# litho

Compiles Rustdoc JSON into a semantic documentation graph in TriG, bound to an exact revision of
a repository, and draws up a receipt of what was read and written. The graph records evidence and
grants no authority.

- `src/` is the library, verified with Verus. `graph` compiles a document into its graph, with
  `rustdoc`, `iri` and `literal` for its parts; `json`, `order` and `text` model documents and the
  order of their names; `document` is the boundary to `serde_json`; `run` decides, step by step,
  what a run reads, writes and validates, and `receipt` records it; `knowledge` decides when
  external knowledge is synced.
- `evidence` and `lexical` state and prove what holds of every graph: it keeps every item and
  every link of its document, it does not depend on the order in which the document lists them,
  its counts are exact, and whatever the document says stays inside IRIs and literals.
- `app/` is the program around the library: the command line, files, variables and the validator.
- `tests/` runs the library on concrete documents and runs.
