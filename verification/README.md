# modbus-tui

A terminal Modbus TCP client and server, with its logic written in Verus and
proved against its contracts.

- `src/` is the verified library:
  - `format.rs`, `half.rs`, `text.rs`: reading 1–4 registers as numbers and
    text (byte and word swap, decimal / `0x` / `0b` input, half precision bit
    patterns), with the round-trip laws.
  - `config.rs`: range arguments, command-line overrides and validation.
  - `store.rs`: the server's register tables and its answers to requests.
  - `state.rs`: register values with change tracking, the event log, panes,
    and the application state (defaults, saving, selection).
  - `event.rs`: what every key does in every input mode, and the commands.
  - `client.rs`: storing read values, reconnect backoff, writes, and the
    session steps of the client and server tasks.
  - `view.rs`: what the screen shows (layout, rows, texts).
- `app/` is the program around it: argument parsing, the JSON file, the
  terminal, the network tasks, and printing and reading floating-point values.
- `tests/` runs the library on concrete values.
