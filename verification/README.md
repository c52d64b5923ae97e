# Pocket Harness

A local-first mobile gateway for AI coding systems: one YAML configuration, a registry of
parent-owned features, connector health checks, last-known-good recovery, a Telegram control
surface, a model router, local tools and service management.

## Layout

- `src/` is the library, verified with Verus. Each module states what its functions return in
  `requires`/`ensures` clauses over spec functions, and proves the properties the gateway relies
  on as `law_*` proof functions:
  - `config`, `features`, `env_file`: the configuration model, its validation, environment
    expansion and the feature registry.
  - `connector`: connector selection, requests, required capabilities and response checks.
  - `config_store`: snapshot and rejection paths, history pruning, and the staging plan that
    decides when a configuration is promoted, rolled back or refused.
  - `jobs`, `supervisor`: per-thread job queues with bounded receipts, and backoff with a
    circuit breaker.
  - `telegram`, `llm_router`, `provider_catalog`: chat commands, model calls and the provider
    catalog.
  - `local_tools`, `service`, `reset`, `yaml_edit`: tool planning and output shaping, service
    definitions and steps, reset plans, and setting values in a YAML document and writing it
    back as text.
- `app/` is the command-line program around the library: file and process work, HTTP calls,
  and the serde copies of the library's types.
- `tests/` exercises the library on concrete values.
