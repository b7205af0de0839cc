# lsc-utils

A colorls-compatible directory lister. The library (`src/`) holds the
lister's logic, each function with a contract proved by Verus; the program
side reads the disk, the environment and the clock and hands the library
what it read.
Where a function calls an outside crate, its contract holds when that call
returns; the YAML parser behind configuration loading is not shown never
to panic.

- `cli`, `options`: flag resolution into run options.
- `config`: bundled YAML defaults overlaid by user files; themes (CSS
  colors, SGR painting) and icon tables.
- `fs`: entry classification, the `.`/`..` entries of `-a`, filtering and
  the stable sort matrix.
- `git`: libgit2 status bits to the `?AMDR` column, aggregated per
  directory.
- `render`: cells, grids, one-per-line, long rows, trees (as a walk that
  asks for directory listings), OSC-8 hyperlinks and display widths.
- `util`: human-readable sizes, permission strings, owner names, report
  counters and time formatting.

`app/` is the program side: clap parsing, the process environment, reading
directories and repositories, the clock, and writing output.
