# dweb_cli

The verified core of `dweb`, a command line tool and local web server for
publishing and browsing websites on the Autonomi network.

`src/` is a Verus library: each function carries a `requires`/`ensures`
contract and Verus proves it. It holds the decisions the tool takes:

- `text` — characters, decimal numbers and splitting, shared by the parsers;
- `links` — version strings, the path parameters of `/dweb-open`,
  `/dweb-open-as` and DWEB-LINK routes, and the URLs `dweb open` builds
  (with proofs that the server parses back what the command builds);
- `entries` — History entry ranges (`--entries`) and the `heal-history` walk;
- `etag` — ETags and `If-None-Match` handling for immutable data;
- `keys` — hexadecimal text and BLS keys (through the `hex` and `blsttc` crates);
- `names` — the DWEB-NAME registry (with proofs that a registered name
  resolves and that the first registration wins);
- `api_dweb` — the query parameters and headers of mutating REST requests;
- `objects`, `results`, `mutations` — Pointers, Chunks, Scratchpads, how each
  REST operation stores them, and the results of storing them;
- `archive` — the web clients' view of an archive (with proofs that it has no
  duplicate entries, that an archive read from files stores back as them, and
  that its file entries survive being stored and read back);
- `hosts`, `open` — the decisions of the `www`, `/dweb-version` and
  `/dweb-open` handlers;
- `commands` — command line checks and summaries.

`tests/` exercises the library on concrete values. `app/` is the program
around it: argument parsing, the actix web server, and the calls to the
network.

`app/` is also written against the `autonomi`, `dweb`, `dweb_server`,
`ant_protocol`, `actix-cors` and `actix-multipart` crates, which are not
among this crate's dependencies: building the program needs them added.

The server runs `DWEB_WORKERS` worker threads (default 12; see
`commands::worker_count`).
