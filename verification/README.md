# ethos-zero

The ethos schema language, version zero: ethos specifies the types, and
ethos-zero reads an ethos file and generates its Rust module. The library is
written in Verus; every function states what it computes, and Verus proves it.

## Layout

| module | what it holds |
|---|---|
| `protoform`, `concept` | the delineated structures and the file concept, with their models |
| `canonical` | the sweet form opened into the braced form (idempotent), with the seam that maps positions back |
| `reading`, `reader` | protoforms read into a file, or the fault at its path |
| `naming` | names and import sources as Rust reads them, through `syn` |
| `checking` | a read file checked whole: names declared once, every reference resolved with its arity, no alias reaching its own name |
| `conception` | a protoform or delineation conceived: nesting bounded, read, checked whole |
| `protosizing` | a file written back as protoforms; reading them gives the file |
| `emission`, `generation` | the Rust token text of a file, and its generation through `syn` |
| `describe` | how a reading fault is told |
| `command` | the generator's command line: its datom, its answers, its output path |
| `fixture`, `projection` | the Interface dialect: its carriers, checks and Rust projections |
| `realization`, `textualization`, `round_trip` | Interface blocks read and written (each checked whole), and that one undoes the other |
| `fault` | the forms a fault expects, and their symbols |
| `signal`, `cli` | the ordinary socket's values and its edge client's text |
| `nexus`, `actor` | the Nexus runtime's paths, frames, configuration, subscribers and replies |
| `meta_client` | the meta edge client's arguments, socket and frame bound |
| `artifact` | Cargo metadata lines and checked generated artifacts |

`app/` holds the programs around the library: the generator's command line,
the two edge clients and the Nexus server, which read and write files and
sockets and call the library for every decision.
