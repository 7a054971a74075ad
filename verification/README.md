# diurn_cli

The `diurn` command for ISO 10383 Market Identifier Codes, as a verified
library and a thin program around it.

- `src/` is the library, written in Verus: which registry file a command
  reads and how its publication date is settled, where fetched registries
  live, how `mic list` selects and orders records, the text tables and banners
  every command prints, and the calendar arithmetic behind ISO's publication
  schedule. Verus proves every function of it: each public function against a
  contract that says what it returns, and the private helpers at least free of
  panics and overflow. The calls into `jiff` and `diurn-mic` that this logic
  needs are small trusted functions; those that are relied on carry contracts
  saying what those crates' sources show, and those that only convert a value
  of those crates field for field carry none.
- `app/` is the program: argument parsing with `clap`, the environment, the
  filesystem and the network, and writing JSON, JSON Lines and CSV with
  `serde`. It hands the library plain values and
  prints what comes back.
- `tests/` runs the library on concrete values.

Modules of the library:

| module     | what it holds |
|------------|---------------|
| `date`     | civil dates, their text, the second Monday of a month |
| `text`     | whitespace, trimming, clipping, decimal digits |
| `table`    | aligned tables with no trailing whitespace |
| `order`    | stable ordering by integer keys |
| `source`   | the data directory, vintages newest first, which file a command reads |
| `load`     | a registry file's bytes read with `diurn-mic` into the records, issues and date the commands use |
| `registry` | issue names, pending counts, `validate`'s merge and `diff` between two files |
| `fetch`    | settling a download's publication date, and where it is written |
| `output`   | output formats and the vintage banner |
| `render`   | records, issues, summaries and differences as text |
| `codes`    | MIC, country, status and category codes |
| `commands` | the selection and text behind each `mic` command |
| `cli`      | the command line as values |
