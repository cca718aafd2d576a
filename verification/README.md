# rust-workspace-map

A tool that produces a structured JSON map of a Rust workspace's public API
surface: per-crate module trees with public items, imports, re-exports and
dependencies; cross-crate references; flat indexes (symbols by canonical
path, canonical paths by short name, files by workspace-relative path); and
optional validation findings (orphan files, dead re-exports).

## Layout

- `src/` — the library, verified with Verus. Each module states its
  behaviour as spec functions over sequences, maps and views, and its
  executable functions are proved to compute exactly that.
  - `syntax`, `toml_model` — plain models of a parsed Rust file and of a
    parsed TOML document; manifests are parsed here, through `toml`.
  - `rust_source` — Rust source text parsed through `syn` into the syntax
    model.
  - `describe`, `file_parser` — what the map reads of a file: public items
    (with types, generics, fields, variants, attributes), imports,
    re-exports, `mod` declarations and `impl` blocks.
  - `module_tree` — the module tree of a crate, `mod` declarations resolved
    to inline bodies or files.
  - `cargo_info`, `workspace` — manifests, the workspace root, member
    crates and crate entry points.
  - `cross_refs`, `indexes`, `lookup`, `validate` — cross references, flat
    indexes, lookups and validation.
  - `map` — the whole map from the member crates as read from disk.
  - `text`, `split_join`, `paths`, `sort`, `ordered_map`, `schema` — text,
    path and ordering support, and the map's data types.
- `app/` — the command line program: it reads the workspace from disk
  (manifests and sources as text), calls the library, and writes JSON with
  `serde_json`.
- `tests/` — tests of the library.

## Commands

```
rust-workspace-map index PATH [-o FILE] [--validate]
rust-workspace-map lookup PATH (--symbol NAME | --file PATH)
```

`index` exits 0 when clean, 1 on a tool error, and 2 when `--validate`
finds issues; `lookup` exits 1 when nothing is found.
