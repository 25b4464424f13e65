# mini_wasm

A WebAssembly binary parser and stack interpreter whose core is proved correct with Verus.

## Layout

- `src/` — the verified library.
  - `leb128`, `cursor`, `grammar`, `parser`, `types`, `queries`, `error`: the binary
    format. `parse_module` is proved to return exactly what the grammar in `grammar`
    says of the input bytes, error included.
  - `memory`, `value`, `numeric`: linear memory with checked loads and stores, values and
    the integer instructions, each against a specification over mathematical integers.
  - `control`, `frames`, `exec`, `interp`: the interpreter. `Machine::step` runs one
    instruction; its contract gives the effect of every instruction the machine runs
    itself, the call and return discipline, the fuel budget, and the hand-off of host
    calls and floating-point instructions to the embedder.
  - `host`, `instantiate`, `setup`: host objects, the registry of what a host offers,
    import resolution and instantiation.
  - `runtime_error`, `text`: errors and their messages.
  - `bench`: the benchmark workloads (compiled from text with `wat` and parsed),
    fingerprints, checksums and baseline fields.
- `app/` — the command line (`inspect`, `run`, `bench`): file I/O, the embedding that
  shares host objects between instances and runs host callbacks, and the IEEE-754
  floating-point instructions.
- `tests/` — tests of the library, run against the compiled crate.

The trusted items in `src/` are the outside calls it makes: `core::str::from_utf8` (in `cursor`,
with its error type declared), the debug formatting of a string (`text::quote`), and
`wat::parse_str` (in `bench`, with `wat::Error` declared and its result named `wat_binary`).
`wat` is built without its default component-model feature, so it reads core-module text only
and its result depends on nothing but that text.

A global's initializer that runs out of input before its `end` byte is reported as a missing
`end`; a segment's offset expression that does so is reported as an unexpected end of input.
Besides the MVP instructions, the interpreter runs the sign extensions, the bulk-memory
instructions (`memory.init`, `data.drop`, `memory.copy`, `memory.fill`), the table
instructions `table.init`, `elem.drop`, `table.copy`, `table.grow`, `table.size` and
`table.fill`, and `ref.null`, `ref.is_null` and `ref.func`, all on memory 0 and table 0.
`table.get`, `table.set` and further memories or tables are refused when the module is
instantiated, and addresses are 32-bit.
