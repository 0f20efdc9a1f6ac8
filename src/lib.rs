//! Hierarchical financial planning ledger: typed plan trees, per-cell
//! entries with an audit trail, versioned scenarios and scenario rollover.

pub mod error;
pub mod node_types;
pub mod values;
pub mod runtime;
pub mod model;
pub mod store;
pub mod scenarios;
pub mod rollover;
pub mod plan_nodes;
pub mod pl_entries;
pub mod listing;
pub mod reference;
pub mod requests;
pub mod laws;
