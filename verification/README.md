# mdfx

Markdown effects: `{{...}}` templates in Markdown expanded into Unicode text
styles, decorative frames, glyphs, shields.io badges and SVG components. The
library is written in Verus; each function carries a contract that Verus
proves.

Layout:

- `src/parser.rs` — the template processor: each template kind's parser and
  handler, the `{{//}}` close-all expansion, line and code-block handling,
  and the specification of what processing gives: the text (`processed_as`,
  `expanded`) and the file assets collected on the way (`collected_as`,
  `collects`). `src/parser/passthrough.rs` proves that text without
  templates passes through unchanged and brings no file.
- `src/converter.rs`, `src/styles.rs`, `src/frames.rs`, `src/badges.rs`,
  `src/separators.rs`, `src/registry.rs`, `src/data.rs` — the built-in
  registry and the text transformations over it.
- `src/components.rs`, `src/components/` — UI components: native handlers
  producing primitives, template expansion, parameter tables, tech groups.
- `src/shields.rs`, `src/renderer.rs`, `src/swatch.rs`, `src/svg.rs` —
  backends: shields.io Markdown, plain text, SVG swatches and
  content-addressed file assets.
- `src/manifest.rs`, `src/digest.rs` — the asset manifest (merge, stats,
  verification) and SHA-256 file names.
- `src/targets.rs`, `src/config.rs` — output targets and project
  configuration.
- `app/` — file I/O, JSON, and the floating-point drawing of charts.
- `tests/` — the test suite.
