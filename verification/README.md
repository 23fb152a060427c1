# rhio

A block-based reconciliation dotfile manager, as a Verus-verified library and
a thin command-line program around it.

A managed file holds a block between the lines
`# >>> RhuffusIO Managed Block >>>` and `# <<< RhuffusIO Managed Block <<<`;
everything outside the block belongs to the user. A sidecar `<file>.rio`
records the SHA-256 of the block's content.

Layout:

- `src/block.rs` — finding, writing and removing the managed block, with the
  laws that tie them together (a write is read back, writes are idempotent,
  the user's text is kept).
- `src/sidecar.rs` — the sidecar's state, its path, and the block hash.
- `src/parser/bash.rs` — tree-sitter-bash parsing and the classification of
  top-level stanzas.
- `src/cli.rs`, `src/cli/*.rs` — what `init`, `apply`, `diff` and `status`
  decide from the files read from disk, and the laws between them.
- `src/text.rs` — character helpers.
- `app/main.rs` — command-line parsing (clap), file I/O, TOML encoding of
  the sidecar (serde, toml), and printing.
