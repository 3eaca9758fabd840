# youtubei_native

A safe Rust API over youtubei.js compiled to native code with Static Hermes.
The crate is split in two:

- `src/` is verified with Verus. It holds the logic: the byte protocol between
  a call and the native driver unit (`invocation`), the order in which a
  runtime loads its units and the calls it hands to the driver (`youtube`),
  the host side's buffers and state (`transport`), the dispatch of host
  operations (`dispatch`), and the operations themselves: text encoding and
  decoding (`text`), header lists (`headers`), URLs (`location`), form
  encoding (`query`) and the decisions around a fetch (`fetch`). Calls into
  `reqwest`, `url`, `serde_json` and std go through small trusted wrappers
  whose contracts are stated next to them.
- `app/` is the native edge: the Hermes runtime and its C entry points, the
  runs of the units that the library asks for, the single-owner lock, the JSON
  conversions of host requests and replies, and the network side of a fetch.

`tests/` exercises the library with stand-in runtimes and concrete values.
