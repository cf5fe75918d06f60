# cesm

The verified core of a desktop control panel for Conan Exiles Enhanced
dedicated servers, administered over Source RCON.

- `src/` is the library, checked by Verus: the parsers of the server's
  replies (stated over the character view of the text), the decisions of a
  connection's lifecycle, the per-server table of connections, the panel's
  command building and input checks, and the laws they keep.
- `app/` is the I/O around it: TCP connections through the `rcon` crate
  with tokio, the SQLite store (rusqlite), the OS keychain (keyring), and
  the serde / ts-rs shapes the UI exchanges.
- `tests/` runs the library on concrete inputs.
