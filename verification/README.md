# soroban-scanner

Static analyzer for Stellar Soroban source code files. It reads source texts, builds a tree of
nodes with a symbol table, runs detectors on it, and reports what they find as JSON.

- `src/` is the library, verified with Verus.
  - `syntax`: the syntax of a source file as plain values; `outside` and `reader` bring it out of
    the trees that `syn` reads.
  - `ast`, `storage`, `symbol_table`: what is built.
  - `count`, `shape`, `record`: for each piece of syntax, which ids are drawn, which node comes out,
    and what is stored.
  - `build_expr`, `build_stmt`, `build_item`: the builder, proved against these.
  - `weigh`: telling beforehand whether something can be built.
  - `context`, `file_provider`, `parse`: a run over the files of a project.
  - `scan`, `report`: which files and detectors, and the reports.
  - `paths`, `text`, `kinds`: paths, texts, and the operators and visibilities that are told apart.
  - `order`, `id_laws`, `scope_laws`, `path_laws`, `laws`: what holds of all of this.
- `app/` is the command line around it.
- `tests/` runs the library on concrete code.

Paths are taken as on Unix: `/` separates their parts, and nothing else does. The text of a number
with a fraction is kept as its decimal digits. Names are resolved no further than to scopes:
`Use::target` starts out empty.
