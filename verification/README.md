# conductor_tools

The logic of the Conductor command-line tools (`conductorctl`,
`conductor-sign`, `conductor-state`, `conductor-skills`, the menu-bar tray
and the MIDI/LED diagnostics), written in Verus and proved against its
contracts.

- `src/` — the verified library: event filters and exports, IPC reply
  checks, plugin signing and key rotation, service management decisions,
  audit and configuration reports, the control-state dump, skills reports,
  MIDI parsing and held-note tracking, LED report building, the simulator's
  command parser and scenarios. Outside crates (hex, ed25519-dalek, rand,
  chrono, midi-msg) are reached through small trusted wrappers whose
  contracts are stated next to them.
- `tests/` — tests of the library on concrete values.
- `app/` — the executables around the library: argument parsing, the
  daemon connection, files, terminal colours, devices.
