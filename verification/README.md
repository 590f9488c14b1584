# jacquard_simulator

Deterministic experiment bookkeeping for route-visible routing simulations,
written in Verus: every function in `src/` carries a contract that Verus proves.

- `text`, `stats` — decimal rendering, identifier assembly, the report order of
  keys, and the saturating means, medians, extremes and permille shares that
  reports use.
- `topology` — configurations keyed by directed node pairs, link insertion and
  removal, and path existence.
- `params` — experiment parameter sets and their configuration identifiers.
- `scenario`, `pathway`, `batman`, `comparison`, `comparison_families` — the
  scenario families: topologies, hosts, objectives, brokers and scripted
  environment hooks.
- `suite` — expansion of family catalogues into ordered run matrices.
- `replay`, `run_metrics` — per-objective and per-run measures read off a
  reduced replay.
- `run_summary` — the report row of one run, reduced from its replay.
- `summary`, `breakdown`, `aggregate_order` — aggregation of runs by
  configuration key, why it does not depend on the order of the runs, and the
  breakdown classification of aggregates.
- `external` — the engine registry and the validation of route-visible suites.

`app/` holds the file output (JSON artifacts) around the library; `tests/`
exercises the library on concrete values.

## What the crate does not hold

- **Simulation.** Stepping hosts through the routing engines round by round
  needs the engine and reference-client crates, which are not dependencies
  here. Replays arrive as `ReducedReplayView` values; the library reduces,
  summarises and aggregates them.
- **Run matrices beyond Pathway.** The BATMAN Bellman, BATMAN classic, Babel,
  OLSRv2, Field, scatter, comparison and head-to-head matrices, and the smoke
  and local suites that concatenate them, need scenario families whose
  definitions this crate does not have: the BATMAN/Babel/OLSRv2 and Field
  family catalogues, the large-population, stale-observation,
  medium-bridge-repair and corridor-continuity families (which need a
  partition-tolerant routing profile, population size bands and
  topology-lag schedules). The parameter rosters of the comparative suites
  (`scatter_parameter_sets`, `comparison_configs`, `head_to_head_configs`) and
  the families that are present are in `src/`.
- **Model and equivalence lanes.** Their cases are built from engine planner
  fixtures, so runs carry no execution lane; `summarize_run` takes the lane's
  label as an argument.
