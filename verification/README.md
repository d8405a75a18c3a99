# embeder

Embeder drafts bare-metal firmware and only calls it VERIFIED when deterministic
oracles say so: a compiler builds it, a simulator runs it and observes the
expected UART output. Register facts come from a CMSIS-SVD datasheet, carry a
citation, and are refused rather than invented when the datasheet lacks them.
Every consequential action is recorded as provenance.

The library under `src/` is written in Verus: each function states what it does
in `requires`/`ensures`, and Verus proves it.

- `engine` — the verification loop (draft, compile, simulate, self-heal, halt).
  Its traits give each codegen and oracle a relation (`drafts`, `compiles`,
  `simulates`) that every call's result meets; the loop is proved to end as its
  decision function `run_spec` says for the attempts those calls made, with
  each draft asked for in the context that `run_spec` hands it. `laws` proves
  the loop's and the other modules' laws.
- `oracle`, `tiers`, `fixtures`, `gcc`, `provenance`, `json` — results, tiers and
  boundaries, fixture oracles, the gcc diagnostic parser, the ledger's records.
- `xml`, `svd`, `model`, `query`, `grounded` — the SVD reader (on `roxmltree`),
  the device model, grounded lookups with citations, and grounded synthesis.
- `toolchain`, `mcp` — the plans and result interpretation of local gcc and
  Renode runs, of the MCP workers, and of the model's codegen worker.
- `desktop`, `http`, `tasks` — the desktop host's rules: loopback admission,
  routes, query decoding, the workspace jail, the worker tool catalog, the task
  registry and the generate task's state machine.
- `text`, `num`, `paths` — characters, numbers and Unix paths.

`app/` is the host program (HTTP server, MCP workers and client, processes,
files, clock); `tests/` exercises the library.
