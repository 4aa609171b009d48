# gitup

The verified core of the Gitup backup daemon, written in Verus.

- `src/` is the library. Every function in it carries a contract that Verus
  proves: base64, size formatting, the settings merge, deduplication and
  grouping of files, archive bookkeeping, zlib compression, key records and
  chunked encryption, part splitting and provider selection, snapshot
  estimates and reports, the provider address grammar, the GitHub provider's
  request plans, and the checks made when restoring. Calls into `sha3`,
  `hkdf`, `chacha20poly1305`, `hex`, `flate2` and `cuid2` go through small
  trusted wrappers whose contracts say what those crates do.
- `app/` is the daemon around it: command-line parsing, configuration and
  snapshot files, file and network I/O, zip archives and logging.
- `tests/` exercises the library on concrete values.
