# matter-stack

The stack side of a Matter controller: reading and writing attribute values,
commands and events as JSON, keeping subscriptions alive, commissioning, opening
windows, and the messages clients see.

- `src/` is the library. Every function in it is verified with Verus; its contract
  says what it returns for every input, and the laws that relate several functions
  stand in `src/tlv_laws.rs`, `src/report_laws.rs` and at the end of the modules
  they are about.
- `app/` is the program around it: the stack thread over rs-matter, sockets, the
  store, and a command-line tool that commissions one device.
- `tests/` runs the library on concrete values.

The library takes the cluster tables, the clock and whatever the SDK answered as
arguments, so nothing in it reads the network, the disk or the time.

What it calls from outside is in `src/codec.rs` (base64, lossy UTF-8),
`src/text.rs` (`String::push`) and `src/cli.rs` (`str::parse`); the contracts of
these are believed, not proved.
