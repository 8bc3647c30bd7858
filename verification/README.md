# nomark

Converts Markdown documents to the Norg markup format.

- `src/` is the library, verified with Verus:
  - `events.rs`: the Markdown event stream read by `pulldown_cmark`;
  - `convert.rs`: the conversion state machine, its specification (`step`,
    `run`, `convert_spec`) and the proofs about it;
  - `meta.rs`: YAML front matter, read by `serde_yaml`, written as the body
    of a `@document.meta` block;
  - `text.rs`: trimming, escaping, removal of inline HTML, link targets;
  - `cli.rs`: the command-line arguments and the decisions taken from them.
- `app/main.rs` is the `nomark` command: argument parsing, files, directories
  and standard input/output.
- `tests/` holds the tests.
