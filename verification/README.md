# corelink

The logic of the CoreLink command-line client, verified with Verus.

- `src/` — the verified library:
  - `text.rs`: character-level search, trimming and string building;
  - `managed_block.rs`: marker-delimited blocks kept inside user files, with
    the laws of upserting them (idempotence, markers kept in order);
  - `json.rs`: JSON documents read and written through `serde_json`, with a
    mathematical model of `serde_json::Value`;
  - `config.rs`: the client's configuration and how overrides apply;
  - `commands/`: one module per subcommand (`bazel-init`, `cargo-init`,
    `npm-init`, `docker-init`, `doctor`, `config show`, `ping`).
- `tests/` — tests of the library.
- `app/` — the command-line program: argument parsing, files, environment,
  processes and network, around the library.
