# genie_home_core

Core types and deterministic safety policy for a local home-automation runtime,
written in Verus: every function in `src/` carries a contract that Verus proves.

- `src/` — the library: entity graph and device registry (`entity`, `device`,
  `keyed`), commands and the safety policy (`command`, `safety`), scenes,
  automations and the scheduler window (`scene`, `automation`, `scheduler`),
  Home-Assistant-style services and the domain matrix (`service`), the runtime
  with its audit and event logs and request protocol (`runtime`, `protocol`,
  `event`), connectivity and state reports (`connectivity`), validation,
  the hardware inventory and tool surface (`hardware`, `mcp`), Home Assistant
  migration (`migration`, `ha_port`) and a simulated device bus
  (`mock_hardware`). `json` and `text` hold the JSON model and string helpers;
  `number` compares numeric readings, held as text, by the number they stand for.
- `tests/` — scenario tests run against the compiled library.
- `app/` — the command-line program: JSON (de)serialisation of the protocol,
  the Unix-socket server, and the floating-point drift of simulated sensors.
