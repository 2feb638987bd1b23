# agctl

A declarative command-line tool for Amazon Bedrock AgentCore runtimes,
with its decision-making core verified in Verus.

- `src/` — the verified library.
  - `text.rs`: splitting, prefixes, padding, joining, trimming and decimal
    rendering, each with its sequence-level definition and lemmas.
  - `table.rs`: `StringTable`, a string-to-string map kept as a list with
    unique keys (a type invariant), seen as a `Map`.
  - `config.rs`: runtime specs, the alias store, ARN region extraction,
    region precedence and alias resolution.
  - `commands/`: the plan behind each command (`alias`, `exec`, `runtime`)
    and the interactive shell's signed request and frame protocol (`shell`).
- `app/` — the program: argument parsing, files, the AWS SDK clients, the
  terminal and the WebSocket loop, each handing plain values to `src/`.
- `tests/` — tests of the library on concrete values.
