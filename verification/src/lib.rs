//! Snapshot production and manifest compaction for table transactions.

pub mod commit;
pub mod commit_laws;
pub mod commit_outcomes;
pub mod error;
pub mod grouping;
pub mod identity;
pub mod lineage;
pub mod lineage_laws;
pub mod manifest;
pub mod manifest_laws;
pub mod partition;
pub mod partition_laws;
pub mod planning_laws;
pub mod properties;
pub mod rewrite_laws;
pub mod rewrite_manifests;
pub mod rewrite_outcomes;
pub mod rolling;
pub mod selection_laws;
pub mod snapshot;
pub mod table;
pub mod text;
pub mod text_laws;
pub mod value_outcomes;
