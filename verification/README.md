# paper

A terminal-based text editor with goals to maximize simplicity and efficiency.

The editor's logic is a verified library: every function under `src/` carries a
contract that Verus proves, except the small wrappers marked
`#[verifier::external_body]` that call the standard library, `regex` or `url`,
whose contracts state what those crates document and are trusted. The terminal,
the file system and the command line are handled by the program under `app/`,
which hands the library plain values and shows what it returns.

## Layout

- `src/app.rs` — the processor: documents, their layout in rows, scrolling,
  selection of symbols and the outputs of each operation.
- `src/app/translate.rs` — the modal interpretation of user input.
- `src/io.rs`, `src/io/*` — the values exchanged with the outside: inputs,
  outputs, files, settings, logging configuration and language servers.
- `src/ui.rs`, `src/ui/base.rs` — rows of a text, the grid of the terminal and
  the lines that follow the cursor.
- `src/rec.rs` — a builder of regular expressions, and the named tokens of
  their matches.
- `src/canvas.rs`, `src/mode.rs` — text editing: characters written at each
  selection or added at a position, the selections of lines and of matches,
  and the changes that redraw a pane.
- `src/num.rs`, `src/orient.rs`, `src/control.rs` — numbers, directions,
  modes, locations, selections and abilities.
- `tests/` — tests of the library.
- `app/main.rs` — the terminal program.

Verify with `verus` on `src/lib.rs`; the proofs of the laws that hold across
functions are the public `lemma_*` proof functions.
