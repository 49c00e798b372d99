pub mod admission_decide;
pub mod admission_laws;
pub mod admission_model;
pub mod admission_validate;
pub mod benchmark_laws;
pub mod candidate_evaluation;
pub mod canonical;
pub mod capability_registry;
pub mod conformance;
pub mod context_stability;
pub mod diff;
pub mod diff_compare;
pub mod error;
pub mod fields;
pub mod fixtures;
pub mod fresh_arm;
pub mod hashing;
pub mod json;
pub mod json_value;
pub mod layout_planner;
pub mod live_harness;
pub mod llama_cpp;
pub mod loader;
pub mod materialization;
pub mod model;
pub mod observation_diagnostics;
pub mod oracle;
pub mod ordering;
pub mod pair_shape;
pub mod paired_mutation;
pub mod report;
pub mod text;
