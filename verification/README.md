# netlist_db

A reader for SPICE (HSPICE) netlists whose core is verified with Verus.

`src/` is the verified library:

- `chars`, `lex`, `number`, `values`, `ports`, `instance`, `model`, `cmds`,
  `parse`: the grammar of a netlist file, as specifications over bytes and
  parsers proved to follow them. Names, expressions and numbers are kept
  as spans of the file.
- `local`, `source`, `err`, `span`: the segments of a file (runs of
  statements between `.include` / `.lib` lines), its requests, errors and
  positions.
- `storage`, `chain`: the files of a parse run, each stored once; the
  chain of files being read, which reveals circular definitions; library
  sections; and the links from each request to the file that serves it.
- `paths`: file paths by their components (as `std::path::Path` compares
  them) and their normal form, which the parse run uses as file identity.
- `netlist`, `refs`: resolving a parse run into one netlist, each request
  replaced by what its file holds.
- `hier`: the nodes of elements and the expansion of a subcircuit.
- `spice`, `display`, `report`, `built`: SPICE text of a netlist, error
  reports, and statements with their texts (borrowed from the file).
- `sweep`, `meas`: the layout of the simulator's output tables.
- `outside`: the calls into outside code: `regex::escape` and the regex
  search of library sections (whose pattern `chain` builds), the `indexmap`
  map that holds the chain of files being read, and std's UTF-8 decoding,
  character classes and Unicode lower- and upper-casing (names are compared once
  lower-cased).

`app/` holds what does I/O or computes with floating point: the concurrent
parse run over files (tokio), the values of numbers, the rendering of the
SPICE text, error reports on the log, and reading the sweep tables.
