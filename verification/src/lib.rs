//! Verified core of a Kubernetes operator that manages BIND9 DNS zones and records.
//!
//! The crate holds the decisions the operator makes: when a resource must be
//! reconciled, how status conditions are merged, how zones select instances and
//! records, how failing reconciles back off, and which follow-up action each
//! reconcile step takes. Talking to the Kubernetes API and to BIND9 is left to
//! the caller, which hands the results back as plain values.

pub mod clock;
pub mod constants;
pub mod crd;
pub mod keyed;
pub mod labels;
pub mod text;
pub mod reconcilers;
pub mod record_impls;
pub mod record_operator;
