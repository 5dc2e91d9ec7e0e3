//! Decisions of the generic record controller: which records a zone change
//! wakes up, the key under which a record is retried, and how a failed
//! reconcile is reported.

use vstd::prelude::*;
use crate::crd::{DNSZone, RecordReferenceWithTimestamp, spec_namespace_or_default};
use crate::text::{concat, to_owned_string};

verus! {

/// The error a reconcile of a record ends with.
#[derive(Debug, PartialEq)]
pub struct ReconcileError {
    /// What went wrong.
    pub message: String,
}

impl ReconcileError {
    /// An error with message `message`.
    pub fn new(message: String) -> (r: Self)
        ensures
            r.message@ == message@,
    {
        ReconcileError { message }
    }

    /// The error's message.
    pub fn message(&self) -> (r: &String)
        ensures
            r@ == self.message@,
    {
        &self.message
    }
}

/// How running a reconcile under a finalizer failed.
#[derive(Debug, PartialEq)]
pub enum FinalizerFailure {
    /// The reconcile itself failed with this message.
    ApplyFailed(String),
    /// The cleanup of a deleted record failed with this message.
    CleanupFailed(String),
    /// Adding the finalizer failed with this message.
    AddFinalizer(String),
    /// Removing the finalizer failed with this message.
    RemoveFinalizer(String),
    /// The object has no name.
    UnnamedObject,
    /// The finalizer name is not valid.
    InvalidFinalizer,
}

/// The message a reconcile of a record of kind `kind` fails with.
pub open spec fn failure_message(kind: Seq<char>, f: FinalizerFailure) -> Seq<char> {
    match f {
        FinalizerFailure::ApplyFailed(m) => m@,
        FinalizerFailure::CleanupFailed(m) => m@,
        FinalizerFailure::AddFinalizer(m) => "Finalizer error: "@ + m@,
        FinalizerFailure::RemoveFinalizer(m) => "Finalizer error: "@ + m@,
        FinalizerFailure::UnnamedObject => kind + " has no name"@,
        FinalizerFailure::InvalidFinalizer => "Invalid finalizer for "@ + kind,
    }
}

/// The error a reconcile of a record of kind `kind` ends with after
/// `failure`: the errors of the reconcile and of the cleanup pass through;
/// the others are described.
pub fn reconcile_error_for(kind: &str, failure: FinalizerFailure) -> (r: ReconcileError)
    ensures
        r.message@ == failure_message(kind@, failure),
{
    let message = match failure {
        FinalizerFailure::ApplyFailed(m) => m,
        FinalizerFailure::CleanupFailed(m) => m,
        FinalizerFailure::AddFinalizer(m) => concat("Finalizer error: ", m.as_str()),
        FinalizerFailure::RemoveFinalizer(m) => concat("Finalizer error: ", m.as_str()),
        FinalizerFailure::UnnamedObject => concat(kind, " has no name"),
        FinalizerFailure::InvalidFinalizer => concat("Invalid finalizer for ", kind),
    };
    ReconcileError { message }
}

/// The error of a record without namespace.
pub fn missing_namespace_error(kind: &str) -> (r: ReconcileError)
    ensures
        r.message@ == kind@ + " has no namespace"@,
{
    ReconcileError { message: concat(kind, " has no namespace") }
}

/// `kind/namespace/name`, the key under which a resource's failures and
/// refused writes are tracked.
pub fn resource_key(kind: &str, namespace: &str, name: &str) -> (r: String)
    ensures
        r@ == kind@ + "/"@ + namespace@ + "/"@ + name@,
{
    let k = concat(kind, "/");
    let k = concat(k.as_str(), namespace);
    let k = concat(k.as_str(), "/");
    concat(k.as_str(), name)
}

/// Whether a zone's record entry is one the controller of `kind` must
/// reconcile: of that kind, never reconciled, in the zone's namespace.
pub open spec fn needs_reconcile(r: RecordReferenceWithTimestamp, kind: Seq<char>, namespace: Seq<char>) -> bool {
    r.kind@ == kind && r.last_reconciled_at is None && r.namespace@ == namespace
}

/// `(name, namespace)` of the entries of `records` that need reconciling.
pub open spec fn wake_list(records: Seq<RecordReferenceWithTimestamp>, kind: Seq<char>, namespace: Seq<char>) -> Seq<(Seq<char>, Seq<char>)>
    decreases records.len(),
{
    if records.len() == 0 {
        Seq::empty()
    } else {
        let rest = wake_list(records.drop_last(), kind, namespace);
        let r = records.last();
        if needs_reconcile(r, kind, namespace) {
            rest.push((r.name@, r.namespace@))
        } else {
            rest
        }
    }
}

/// The records of kind `kind` that a change of `zone` must wake up, as
/// `(name, namespace)`: those the zone lists that were never reconciled
/// and live in the zone's namespace. A zone without namespace wakes none.
pub fn records_to_reconcile(zone: &DNSZone, kind: &str) -> (r: Vec<(String, String)>)
    ensures
        r@.map_values(|p: (String, String)| (p.0@, p.1@)) == match zone.metadata.namespace {
            None => Seq::empty(),
            Some(ns) => match zone.status {
                None => Seq::empty(),
                Some(s) => wake_list(s.records@, kind@, ns@),
            },
        },
{
    let mut r: Vec<(String, String)> = Vec::new();
    assert(r@.map_values(|p: (String, String)| (p.0@, p.1@)) =~= Seq::empty());
    let namespace = match &zone.metadata.namespace {
        Some(ns) => ns,
        None => {
            return r;
        },
    };
    let records = match &zone.status {
        Some(s) => &s.records,
        None => {
            return r;
        },
    };
    for i in 0..records.len()
        invariant
            r@.map_values(|p: (String, String)| (p.0@, p.1@)) == wake_list(
                records@.take(i as int),
                kind@,
                namespace@,
            ),
    {
        assert(records@.take(i + 1).drop_last() =~= records@.take(i as int));
        assert(records@.take(i + 1).last() == records@[i as int]);
        let e = &records[i];
        if crate::text::str_equal(e.kind.as_str(), kind) && e.last_reconciled_at.is_none() && e.namespace.eq(
            namespace,
        ) {
            let ghost before = r@;
            let pair = (e.name.clone(), e.namespace.clone());
            r.push(pair);
            assert(r@.map_values(|p: (String, String)| (p.0@, p.1@)) =~= before.map_values(
                |p: (String, String)| (p.0@, p.1@),
            ).push((pair.0@, pair.1@)));
        }
    }
    assert(records@.take(records.len() as int) =~= records@);
    r
}

} // verus!
