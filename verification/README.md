# tlsdays

Reports how many days are left until the TLS certificates of many hosts
expire. The library under `src/` holds the logic, each function with a
contract that Verus proves:

- `text`: trimming, searching, decimal numbers, `u16` parsing and column padding over `Seq<char>`;
- `host`: host entries (`host`, `host:port`, `[address]:port`) and the list of hosts from the arguments and standard input;
- `clock`: instants in UTC, the whole days between two of them, their RFC 3339 text (through `chrono`);
- `cert`: the fields read from a leaf certificate (through `x509-parser`) and what is reported of it;
- `check`: the decisions of checking one host, one step per outcome of resolving, connecting and the TLS handshake;
- `output`: per-host records, the `table` and `text` lines, `jsonl` framing, and the exit status;
- `error`: the error type and its text.

`app/` is the command-line program: argument parsing, standard input, the
network work that the check asks for, running the checks concurrently, JSON
serialization, and writing the report. `tests/` exercises the library.
