//! Reconciliation decisions for the DNS custom resources.

pub mod finalizers;
pub mod generation;
pub mod pagination;
pub mod records;
pub mod retry;
pub mod status;

pub use generation::{should_reconcile, status_changed};
pub mod dnszone;
