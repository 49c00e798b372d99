# prefixity_controlled_benchmark

A verified library for an offline, controlled context-efficiency benchmark:
baseline/intervention pairs of structural traces, the rules that make a pair
valid, their canonical JSON and hashes, a deterministic twelve-case seed, the
quality oracle's verdict on scripted-world runs, and a conservative admission
contract for external research artifacts.

Every function in `src/` is checked by Verus against its `requires`/`ensures`
contract. The rules themselves are stated as spec functions next to the code
that checks them (for example `envelope_ok`, `case_fault`, `pair_shape_ok`,
`manifest_check`, `decision_of`), and the properties the library promises as a
whole are stated and proved as `law_*` proof functions in
`src/benchmark_laws.rs`, `src/admission_laws.rs`,
`src/capability_registry.rs`, `src/layout_planner.rs` and
`src/observation_diagnostics.rs`.

Layout:

- `src/model.rs`, `src/admission_model.rs` and the record modules: the data.
- `src/fields.rs`, `src/loader.rs`, `src/pair_shape.rs`: envelope and pair
  validation, canonical hashes.
- `src/json.rs`, `src/canonical.rs`, `src/report.rs`: canonical JSON of the
  records (object keys in sorted order), proved equal to its spec text. Maps
  are held as key/value pairs; their validators accept them only with keys
  strictly increasing, so each key occurs once and in order.
- `src/hashing.rs`: SHA-256 through the `sha2` crate, rendered as lowercase hex.
- `src/fixtures.rs`: the self-authored seed.
- `src/oracle.rs`: the oracle's verdict, given the two runs' final states.
- `src/admission_*.rs`: manifest validation and admission decisions.
- `src/layout_planner.rs`: the context-layout planner's pieces (safety
  reasons for a reorder, the stability-ordered proposal, transformations,
  metrics, relative-order changes) and the plan record's validation.
- `src/context_stability.rs`, `src/candidate_evaluation.rs`: stability and
  candidate-evaluation records and their validation; the classification of
  cache diagnostics as evidence about a candidate (rejecting those of another
  request, mutation, envelope or runtime identity) and the evaluation of a
  candidate from its profile, diagnostics and environment.
- `src/diff.rs`: bounded structural diffs of two requests: texts, artifacts,
  tools and their ordered schema fields, envelopes, and the request diff.
- `src/diff_compare.rs`: value comparison of diff records by their views.
- `src/observation_diagnostics.rs`: comparability of two runtime observations,
  their metric deltas and comparison, cache assessment, metric directions, the
  evidence statement and the cache diagnostic.
- `src/capability_registry.rs`: capability keys and states, the runtime
  capability record, matrix cells, queries, the matrix and the gap report.
- `src/json_value.rs`: JSON values held as plain data, and their compact text.
- `src/conformance.rs`: the conformance request record, its validation, its
  canonical JSON and fingerprints, and the conformance experiment.
- `src/materialization.rs`, `src/live_harness.rs`: certificate,
  materialized-candidate, experiment-pair, live-definition and
  loopback-endpoint checks, and the building of an experiment pair and of a
  live experiment definition.
- `src/llama_cpp.rs`: the projection of a neutral request onto a
  llama-server chat-completions request.
- `app/`: JSON decoding and encoding with serde, and file reading.
- `tests/`: runtime tests of the library.

Trusted code is limited to three wrappers, `sha2::Sha256::digest`,
`reqwest::Url::parse` (reduced to the URL parts the endpoint rules read) and
`String::push`.
