# pdf_viewer_core

The verified core of a PDF viewer and text editor, written in Verus. Every
function under `src/` carries a `requires`/`ensures` contract that Verus
proves; the laws that relate several functions are public proof functions.

## Layout

- `src/` — the library:
  - text: `chars`, `text_format`, `text_diff` (index maps between the visual
    text and the run text, caret remapping, text diffs), `source_text`
    (compact PDF text normalisation), `page_text`, `run_ranges`,
    `line_break` (CJK line-break rules, text offsets of laid-out lines),
    `draft_style` (where the runs of an edited paragraph are cut and what is
    inserted between the pieces);
  - editing: `editor_state`, `document_edit`, `edit_target`,
    `target_resolution`, `lca`;
  - semantic model: `semantic_block`, `source_identity`;
  - persistence: `keyed_map`, `patch_store` (patch maps and undo history),
    `save_plan`, `save_sources`;
  - tracing: `trace`, `debug_trace`;
  - records exchanged with the user interface: `annotation_types`,
    `session_types`, `page_models`, `review_types`.
- `tests/` — tests of the library on concrete values.
- `app/` — the process-wide layer: shared state behind locks, thread-local
  trace registry, the clock, serde records for the host, the
  floating-point coordinate helpers and the glyph geometry of style runs.
