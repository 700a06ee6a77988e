# core_rs

Markdown to DOCX and HWPX conversion, with its logic verified by Verus.

## Layout

- `src/` — the verified library.
  - `parser/markdown/` — reads markdown (events from pulldown-cmark) into a
    document model; strict mode refuses what a target cannot hold.
  - `parser/hwpx/` — reads an HWPX package back: its three required parts,
    metadata, style registry and section.
  - `generators/docx/`, `generators/hwpx/` — render a document and pack it
    into a ZIP archive; the HWPX generator also covers the compatibility profiles
    of the approved fixtures.
  - `diagnostics.rs`, `report.rs` — what a conversion will lose or refuse.
  - `tools/` — the logic of the command-line tools: fixture settings, archive
    normalization and comparison, the HWPX inspector.
  - `utils/` — text helpers, XML escaping, and the trusted wrappers around the
    outside crates (zip, roxmltree, base64, sha2).
  - `laws.rs` — properties of the library as a whole, proved.
- `tests/` — tests run against the compiled library.
- `app/` — the programs: file and console I/O around the library, and the
  WebAssembly bindings.

Every contract in `src/` is checked by Verus; the items marked
`#[verifier::external_body]` are trusted, and each says in its doc comment what
it claims of the outside code.
