# sanctifier-core

Static analysis of Soroban smart-contract sources, written in Verus: every
analysis is an executable function whose contract states exactly what it
reports, and Verus proves each body against its contract.

## Layout

- `src/bridge.rs` parses source text with `syn` and converts the tree into
  the library's own syntax model (`src/syntax.rs`). This conversion and a few
  calls into `regex` and `tracing-subscriber` are the trusted boundary; each
  trusted function states in its doc comment what it claims.
- `src/analyzer.rs`, `src/events.rs`: authorization gaps, panics, ledger
  sizes, unsafe patterns and arithmetic issues.
- `src/rules/`: the rule interface and the S003 (arithmetic overflow), S026
  (taint propagation) and S031 (gas exhaustion) rules.
- `src/cfg.rs`, `src/taint_engine.rs`: the intra-procedural control-flow graph
  and the taint dataflow analysis over it; the analysis returns the findings
  of the least solution of the dataflow equations.
- `src/sep41.rs`: SEP-41 token interface verification.
- `src/smt/`: fixed-point and invariant overflow checks, decided by exact
  integer arithmetic, and latency statistics.
- `src/contract_discovery.rs`, `src/parser.rs`, `src/input_validation.rs`,
  `src/constant_folding.rs`, `src/custom_rules.rs`, `src/vulndb.rs`,
  `src/logging.rs`, `src/serve.rs`: the remaining library functions.
- `app/`: the HTTP server, log subscriber set-up, serialisable records of the
  library's results, and the code that drives the Z3 solver directly.
- `tests/`: integration tests.
