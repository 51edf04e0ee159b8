//! The statements, derived identities and decisions of the aicortex memory store.

pub mod claim_admission_repo;
pub mod claim_proposal_repo;
pub mod claim_repo;
pub mod counters;
pub mod cursor;
pub mod decision_key;
pub mod digest;
pub mod erasure;
pub mod fingerprint;
pub mod error;
pub mod lifecycle;
pub mod memory_repo;
pub mod migrations;
pub mod sql;
pub mod predicate_registry_repo;
pub mod provenance_repo;
pub mod scope;
pub mod text;
pub mod types;
