# conga_gasket

The verified core of an agent host and its gateway: the protocol of tool
servers, extension scripts, headless runs, the tool registry, the gateway's
decisions, and the storage of sessions and jobs.

- `src/` is a Verus library. Every public function states what it gives or
  changes, and laws that hold across functions stand as public proof functions
  named `law_…`. Calls into `serde_json`, `chrono`, `uuid`, `globset`,
  `reqwest` and a few functions of `std` stand behind wrappers whose contracts
  are believed; each says which function it calls.
- `tests/` runs the library on concrete values, with the real crates linked.
- `app/` is ordinary Rust that does the input and output: files, the network,
  subprocesses, the script engine. It hands the library plain values and does
  what the library decides.
