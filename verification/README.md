# grok_core

Decision logic of an agent runtime, written in Verus and proved against its
contracts:

- `staged`: staged operations with dependencies, checkpoints and compensation;
- `tvl` and `apvl`: the triangular verification loop and the plan/verify loop
  controller that decides when work may stop;
- `utility_belt`, `field_boots`, `agent`: capability readiness reports and
  fallbacks;
- `preflight`: the Windows native build preflight from host observations;
- `remote_sync`: upload debounce, staleness and runtime selection for remote
  index sync;
- `mcp`: retry classification, backoff and result translation for MCP tool calls;
- `mission_control`: ledger totals and the header's title and chips;
- `proto_build`: protobuf build options, the `protoc` dependency listing and its
  parsing;
- `text`, `order`, `topo`: strings, lexicographic order and topological orders.

`src/` is the verified library, `tests/` its tests, and `app/` the host-side glue
(processes, files, clocks, async transports, serialization) that hands plain
values to the library and acts on its answers.
