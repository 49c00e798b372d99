//! Readiness records of fresh-server experiment arms.
use vstd::prelude::*;

verus! {

#[derive(Debug, Clone, Copy, PartialEq, Eq, Structural)]
pub enum FreshArmKind {
    Control,
    Treatment,
}

#[derive(Debug, Clone, PartialEq)]
pub struct FreshArmReadinessRecord {
    pub schema_id: String,
    pub schema_version: u32,
    pub semantic_experiment_id: String,
    pub runtime_config_fingerprint: String,
    pub network_calls: u32,
    pub generation_limit: u32,
    pub arms: Vec<FreshArmReadiness>,
    pub provenance: Vec<(String, String)>,
}

#[derive(Debug, Clone, PartialEq, Eq)]
pub struct FreshArmReadiness {
    pub arm_id: FreshArmKind,
    pub epoch_id: String,
    pub fresh_server_for_arm: bool,
    pub step_ids: Vec<String>,
}

} // verus!
