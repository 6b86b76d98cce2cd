# pkgcheck

A cross-ecosystem tool that tells whether the packages a project declares are
installed, with the manifest parsing, version lookup, usage analysis and
display decisions written in Verus and proved against their specifications.

- `src/` is the verified library:
  - `text.rs`: character-level helpers (lines, trimming, words, decimal
    numbers, padding) specified over `Seq<char>`;
  - `json.rs`, `toml_doc.rs`: documents read with `serde_json` and `toml`,
    held as plain values;
  - `types.rs`: package records, table rows, summaries, overall status;
  - `ecosystems/`: Node.js, Python, Rust, Go and Ruby manifests and lock
    files, and the package records built from them;
  - `scanner.rs`: import-usage analysis with `regex`;
  - `detect.rs`: the supported ecosystems, their manifests and order, and
    which of them a project has;
  - `display.rs`: what the status area and the scrollable table show;
  - `laws.rs`: properties of the library as a whole.
- `app/` is the command-line program: it reads files, runs `pip` and `go`,
  and draws with `crossterm` and `tabled`.  Descriptions come from local
  metadata only (`node_modules`, `pip show`); elsewhere they read "N/A".
- `tests/` exercises the library on concrete inputs.
