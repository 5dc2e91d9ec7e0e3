//! Decisions of the DNS record reconcilers: whether a record is selected,
//! which status each outcome writes, when a status write can be skipped,
//! and which DNS name a deletion removes.

use vstd::prelude::*;
use crate::crd::{
    AAAARecordSpec, ARecordSpec, CAARecordSpec, CNAMERecordSpec, Condition, ConditionView,
    DNSRecordKind, DNSZoneStatus, MXRecordSpec, NSRecordSpec, RecordReferenceView, RecordStatus,
    SRVRecordData, SRVRecordSpec, TXTRecordSpec, ZoneReference, ZoneReferenceView, kind_name,
};
use crate::reconcilers::generation::{should_reconcile, spec_should_reconcile};
use crate::reconcilers::status::{cviews, find_condition_index, first_of_type, has_type, is_first_of_type, lemma_first_of_type};
use crate::text::{concat, copy_opt_string, opt_string_equal, str_equal, to_owned_string};

verus! {

// ---------------------------------------------------------------------------
// Record specifications
// ---------------------------------------------------------------------------

/// The specification of a record of any kind.
#[derive(Debug, PartialEq)]
pub enum RecordSpec {
    A(ARecordSpec),
    AAAA(AAAARecordSpec),
    TXT(TXTRecordSpec),
    CNAME(CNAMERecordSpec),
    MX(MXRecordSpec),
    NS(NSRecordSpec),
    SRV(SRVRecordSpec),
    CAA(CAARecordSpec),
}

/// The name of a record inside its zone.
pub open spec fn spec_record_name(s: RecordSpec) -> Seq<char> {
    match s {
        RecordSpec::A(x) => x.name@,
        RecordSpec::AAAA(x) => x.name@,
        RecordSpec::TXT(x) => x.name@,
        RecordSpec::CNAME(x) => x.name@,
        RecordSpec::MX(x) => x.name@,
        RecordSpec::NS(x) => x.name@,
        RecordSpec::SRV(x) => x.name@,
        RecordSpec::CAA(x) => x.name@,
    }
}

/// The kind of a record.
pub open spec fn spec_kind(s: RecordSpec) -> DNSRecordKind {
    match s {
        RecordSpec::A(_) => DNSRecordKind::A,
        RecordSpec::AAAA(_) => DNSRecordKind::AAAA,
        RecordSpec::TXT(_) => DNSRecordKind::TXT,
        RecordSpec::CNAME(_) => DNSRecordKind::CNAME,
        RecordSpec::MX(_) => DNSRecordKind::MX,
        RecordSpec::NS(_) => DNSRecordKind::NS,
        RecordSpec::SRV(_) => DNSRecordKind::SRV,
        RecordSpec::CAA(_) => DNSRecordKind::CAA,
    }
}

/// The short DNS type name of a kind, e.g. `A` or `SRV`.
pub open spec fn dns_type(k: DNSRecordKind) -> Seq<char> {
    match k {
        DNSRecordKind::A => "A"@,
        DNSRecordKind::AAAA => "AAAA"@,
        DNSRecordKind::TXT => "TXT"@,
        DNSRecordKind::CNAME => "CNAME"@,
        DNSRecordKind::MX => "MX"@,
        DNSRecordKind::NS => "NS"@,
        DNSRecordKind::SRV => "SRV"@,
        DNSRecordKind::CAA => "CAA"@,
    }
}

/// The addresses shown for a record: those of address records, else none.
pub open spec fn spec_display_addresses(s: RecordSpec) -> Option<Seq<char>> {
    match s {
        RecordSpec::A(x) => Some(x.ipv4_address@),
        RecordSpec::AAAA(x) => Some(x.ipv6_address@),
        _ => None,
    }
}

impl DNSRecordKind {
    /// The short DNS type name, e.g. `A` or `SRV`.
    pub fn dns_type(&self) -> (r: &'static str)
        ensures
            r@ == dns_type(*self),
    {
        match self {
            DNSRecordKind::A => "A",
            DNSRecordKind::AAAA => "AAAA",
            DNSRecordKind::TXT => "TXT",
            DNSRecordKind::CNAME => "CNAME",
            DNSRecordKind::MX => "MX",
            DNSRecordKind::NS => "NS",
            DNSRecordKind::SRV => "SRV",
            DNSRecordKind::CAA => "CAA",
        }
    }
}

impl RecordSpec {
    /// The record's name inside its zone.
    pub fn record_name(&self) -> (r: &String)
        ensures
            r@ == spec_record_name(*self),
    {
        match self {
            RecordSpec::A(x) => &x.name,
            RecordSpec::AAAA(x) => &x.name,
            RecordSpec::TXT(x) => &x.name,
            RecordSpec::CNAME(x) => &x.name,
            RecordSpec::MX(x) => &x.name,
            RecordSpec::NS(x) => &x.name,
            RecordSpec::SRV(x) => &x.name,
            RecordSpec::CAA(x) => &x.name,
        }
    }

    /// The record's TTL, if set.
    pub fn ttl(&self) -> (r: Option<i32>)
        ensures
            r == match *self {
                RecordSpec::A(x) => x.ttl,
                RecordSpec::AAAA(x) => x.ttl,
                RecordSpec::TXT(x) => x.ttl,
                RecordSpec::CNAME(x) => x.ttl,
                RecordSpec::MX(x) => x.ttl,
                RecordSpec::NS(x) => x.ttl,
                RecordSpec::SRV(x) => x.ttl,
                RecordSpec::CAA(x) => x.ttl,
            },
    {
        match self {
            RecordSpec::A(x) => x.ttl,
            RecordSpec::AAAA(x) => x.ttl,
            RecordSpec::TXT(x) => x.ttl,
            RecordSpec::CNAME(x) => x.ttl,
            RecordSpec::MX(x) => x.ttl,
            RecordSpec::NS(x) => x.ttl,
            RecordSpec::SRV(x) => x.ttl,
            RecordSpec::CAA(x) => x.ttl,
        }
    }

    /// The record's kind.
    pub fn kind(&self) -> (r: DNSRecordKind)
        ensures
            r == spec_kind(*self),
    {
        match self {
            RecordSpec::A(_) => DNSRecordKind::A,
            RecordSpec::AAAA(_) => DNSRecordKind::AAAA,
            RecordSpec::TXT(_) => DNSRecordKind::TXT,
            RecordSpec::CNAME(_) => DNSRecordKind::CNAME,
            RecordSpec::MX(_) => DNSRecordKind::MX,
            RecordSpec::NS(_) => DNSRecordKind::NS,
            RecordSpec::SRV(_) => DNSRecordKind::SRV,
            RecordSpec::CAA(_) => DNSRecordKind::CAA,
        }
    }

    /// The addresses shown in the record's status: those of an address
    /// record, else none.
    pub fn display_addresses(&self) -> (r: Option<String>)
        ensures
            r.deep_view() == spec_display_addresses(*self),
    {
        match self {
            RecordSpec::A(x) => Some(x.ipv4_address.clone()),
            RecordSpec::AAAA(x) => Some(x.ipv6_address.clone()),
            _ => None,
        }
    }
}

/// The data of a service record as written to BIND9.
pub fn srv_record_data(spec: &SRVRecordSpec) -> (r: SRVRecordData)
    ensures
        r.priority == spec.priority,
        r.weight == spec.weight,
        r.port == spec.port,
        r.target@ == spec.target@,
        r.ttl == spec.ttl,
{
    SRVRecordData {
        priority: spec.priority,
        weight: spec.weight,
        port: spec.port,
        target: spec.target.clone(),
        ttl: spec.ttl,
    }
}

// ---------------------------------------------------------------------------
// Renames and deletion names
// ---------------------------------------------------------------------------

/// The name a record was last published under, when it differs from its
/// current name: that old name must be deleted from DNS.
pub open spec fn renamed_from(status: Option<RecordStatus>, current_name: Seq<char>) -> Option<Seq<char>> {
    match status {
        None => None,
        Some(s) => match s.published_name {
            None => None,
            Some(p) => if p@ == current_name {
                None
            } else {
                Some(p@)
            },
        },
    }
}

/// Whether the record was renamed since it was last published: the old
/// name when `status.publishedName` differs from `current_name`, else
/// `None` (never published, or name unchanged).
pub fn detect_renamed_record(status: Option<&RecordStatus>, current_name: &str) -> (r: Option<String>)
    ensures
        r.deep_view() == renamed_from(
            match status {
                Some(s) => Some(*s),
                None => None,
            },
            current_name@,
        ),
{
    let s = match status {
        Some(s) => s,
        None => {
            return None;
        },
    };
    let published = match &s.published_name {
        Some(p) => p,
        None => {
            return None;
        },
    };
    if str_equal(published.as_str(), current_name) {
        None
    } else {
        Some(published.clone())
    }
}

/// The DNS name a deleted record is removed under: the name it was
/// published under, else its `spec.name`, else its resource name.
pub open spec fn deletion_name(status: Option<RecordStatus>, spec_name: Option<Seq<char>>, name: Seq<char>) -> Seq<char> {
    let published = match status {
        Some(s) => s.published_name,
        None => None,
    };
    match published {
        Some(p) => p@,
        None => match spec_name {
            Some(n) => n,
            None => name,
        },
    }
}

/// The DNS name under which a record being deleted is removed from the
/// zone's primaries.
pub fn record_deletion_name(status: &Option<RecordStatus>, spec_name: &Option<String>, name: &str) -> (r:
    String)
    ensures
        r@ == deletion_name(*status, spec_name.deep_view(), name@),
{
    let published: Option<&String> = match status {
        Some(s) => match &s.published_name {
            Some(p) => Some(p),
            None => None,
        },
        None => None,
    };
    match published {
        Some(p) => p.clone(),
        None => match spec_name {
            Some(n) => n.clone(),
            None => to_owned_string(name),
        },
    }
}

/// Why the DNS data of a record being deleted is left alone. In each case
/// the deletion of the resource itself goes ahead without error.
#[derive(Debug, PartialEq, Eq, Structural, Clone, Copy)]
pub enum DeletionSkip {
    /// The record has no zone reference: it was never published, or was
    /// already cleaned up.
    NoZoneRef,
    /// The zone named by the reference could not be read.
    ZoneNotFound,
    /// The zone has no instances.
    ZoneHasNoInstances,
    /// The zone's primary instances could not be determined.
    PrimaryFilterFailed,
    /// The zone has no primary instance.
    NoPrimaryInstances,
}

/// Whether the DNS data of a record being deleted is left alone, checked
/// in order: the record's zone reference, reading the zone, the zone's
/// instances, and its primaries (`primaries` is how many were found, `None`
/// when finding them failed). `None` when the data is to be deleted from
/// the primaries; a record's deletion is never blocked by these steps.
pub fn record_deletion_skip(
    has_zone_ref: bool,
    zone_found: bool,
    instances_found: bool,
    primaries: Option<usize>,
) -> (r: Option<DeletionSkip>)
    ensures
        r == if !has_zone_ref {
            Some(DeletionSkip::NoZoneRef)
        } else if !zone_found {
            Some(DeletionSkip::ZoneNotFound)
        } else if !instances_found {
            Some(DeletionSkip::ZoneHasNoInstances)
        } else {
            match primaries {
                None => Some(DeletionSkip::PrimaryFilterFailed),
                Some(n) => if n == 0 {
                    Some(DeletionSkip::NoPrimaryInstances)
                } else {
                    None
                },
            }
        },
{
    if !has_zone_ref {
        Some(DeletionSkip::NoZoneRef)
    } else if !zone_found {
        Some(DeletionSkip::ZoneNotFound)
    } else if !instances_found {
        Some(DeletionSkip::ZoneHasNoInstances)
    } else {
        match primaries {
            None => Some(DeletionSkip::PrimaryFilterFailed),
            Some(n) => {
                if n == 0 {
                    Some(DeletionSkip::NoPrimaryInstances)
                } else {
                    None
                }
            },
        }
    }
}

/// The outcome of deleting a record from every primary endpoint, from the
/// failures met: strict callers (`fail_on_error`) fail on any failure;
/// best-effort callers always succeed.
pub fn deletion_outcome(fail_on_error: bool, failures: Vec<String>) -> (r: Result<(), Vec<String>>)
    ensures
        match r {
            Ok(()) => !fail_on_error || failures@.len() == 0,
            Err(f) => fail_on_error && failures@.len() > 0 && f.deep_view() == failures.deep_view(),
        },
{
    if fail_on_error && failures.len() > 0 {
        Err(failures)
    } else {
        Ok(())
    }
}

// ---------------------------------------------------------------------------
// Status writes
// ---------------------------------------------------------------------------

/// A status to write on a record: one condition and the values that go
/// with it.
#[derive(Debug, PartialEq)]
pub struct RecordStatusWrite {
    pub condition_type: String,
    pub status: String,
    pub reason: String,
    pub message: String,
    /// Hash of the spec written to BIND9.
    pub record_hash: Option<String>,
    /// Time of the write to BIND9.
    pub last_updated: Option<String>,
    /// Addresses to show (address records only).
    pub addresses: Option<String>,
    /// DNS name the record was written under.
    pub published_name: Option<String>,
}

/// Contents of a [`RecordStatusWrite`].
pub struct RecordStatusWriteView {
    pub condition_type: Seq<char>,
    pub status: Seq<char>,
    pub reason: Seq<char>,
    pub message: Seq<char>,
    pub record_hash: Option<Seq<char>>,
    pub last_updated: Option<Seq<char>>,
    pub addresses: Option<Seq<char>>,
    pub published_name: Option<Seq<char>>,
}

impl View for RecordStatusWrite {
    type V = RecordStatusWriteView;

    open spec fn view(&self) -> RecordStatusWriteView {
        RecordStatusWriteView {
            condition_type: self.condition_type@,
            status: self.status@,
            reason: self.reason@,
            message: self.message@,
            record_hash: self.record_hash.deep_view(),
            last_updated: self.last_updated.deep_view(),
            addresses: self.addresses.deep_view(),
            published_name: self.published_name.deep_view(),
        }
    }
}

/// A `Ready=False` write with reason and message and nothing else.
pub open spec fn not_ready(reason: Seq<char>, message: Seq<char>) -> RecordStatusWriteView {
    RecordStatusWriteView {
        condition_type: "Ready"@,
        status: "False"@,
        reason,
        message,
        record_hash: None,
        last_updated: None,
        addresses: None,
        published_name: None,
    }
}

fn not_ready_write(reason: &str, message: String) -> (r: RecordStatusWrite)
    ensures
        r@ == not_ready(reason@, message@),
{
    RecordStatusWrite {
        condition_type: to_owned_string("Ready"),
        status: to_owned_string("False"),
        reason: to_owned_string(reason),
        message,
        record_hash: None,
        last_updated: None,
        addresses: None,
        published_name: None,
    }
}

/// What a record that no zone selects writes: nothing when its spec did not
/// change since it was last reconciled, else `Ready=False` with reason
/// `NotSelected`.
pub fn unselected_record_write(status: &Option<RecordStatus>, generation: Option<i64>) -> (r: Option<
    RecordStatusWrite,
>)
    ensures
        ({
            let observed = match *status {
                Some(s) => s.observed_generation,
                None => None,
            };
            if spec_should_reconcile(generation, observed) {
                r is Some && r->0@ == not_ready(
                    "NotSelected"@,
                    "Record not selected by any DNSZone recordsFrom selector"@,
                )
            } else {
                r is None
            }
        }),
{
    let observed = match status {
        Some(s) => s.observed_generation,
        None => None,
    };
    if !should_reconcile(generation, observed) {
        return None;
    }
    Some(
        not_ready_write(
            "NotSelected",
            to_owned_string("Record not selected by any DNSZone recordsFrom selector"),
        ),
    )
}

/// Why a selected record could not be prepared for BIND9. Each carries the
/// error text of the step that failed, where there is one.
#[derive(Debug, PartialEq)]
pub enum PreparationFailure {
    /// The zone named by the record's zone reference could not be read.
    ZoneNotFound(String),
    /// The zone has no instances.
    ZoneNotConfigured(String),
    /// The zone's primary instances could not be determined.
    InstanceFilterError(String),
    /// The zone has no primary instance.
    NoPrimaryInstances,
}

/// The status written when preparing a selected record fails.
pub open spec fn preparation_failure(zone_ref: ZoneReferenceView, f: PreparationFailure) -> RecordStatusWriteView {
    match f {
        PreparationFailure::ZoneNotFound(e) => not_ready(
            "ZoneNotFound"@,
            "Referenced DNSZone "@ + zone_ref.namespace + "/"@ + zone_ref.name + " not found: "@ + e@,
        ),
        PreparationFailure::ZoneNotConfigured(e) => not_ready(
            "ZoneNotConfigured"@,
            "DNSZone has no instances: "@ + e@,
        ),
        PreparationFailure::InstanceFilterError(e) => not_ready(
            "InstanceFilterError"@,
            "Failed to filter primary instances: "@ + e@,
        ),
        PreparationFailure::NoPrimaryInstances => not_ready(
            "NoPrimaryInstances"@,
            "DNSZone has no primary instances configured"@,
        ),
    }
}

/// The status a selected record writes when it cannot be prepared.
pub fn preparation_failure_write(zone_ref: &ZoneReference, failure: &PreparationFailure) -> (r:
    RecordStatusWrite)
    ensures
        r@ == preparation_failure(zone_ref@, *failure),
{
    match failure {
        PreparationFailure::ZoneNotFound(e) => {
            let m = concat("Referenced DNSZone ", zone_ref.namespace.as_str());
            let m = concat(m.as_str(), "/");
            let m = concat(m.as_str(), zone_ref.name.as_str());
            let m = concat(m.as_str(), " not found: ");
            let m = concat(m.as_str(), e.as_str());
            not_ready_write("ZoneNotFound", m)
        },
        PreparationFailure::ZoneNotConfigured(e) => not_ready_write(
            "ZoneNotConfigured",
            concat("DNSZone has no instances: ", e.as_str()),
        ),
        PreparationFailure::InstanceFilterError(e) => not_ready_write(
            "InstanceFilterError",
            concat("Failed to filter primary instances: ", e.as_str()),
        ),
        PreparationFailure::NoPrimaryInstances => not_ready_write(
            "NoPrimaryInstances",
            to_owned_string("DNSZone has no primary instances configured"),
        ),
    }
}

/// The status written when the old name of a renamed record could not be
/// deleted (the published name is kept, so the deletion is retried).
pub fn rename_failure_write(old_name: &str, error: &str) -> (r: RecordStatusWrite)
    ensures
        r@ == not_ready(
            "ReconcileFailed"@,
            "Failed to delete renamed record '"@ + old_name@ + "' from zone: "@ + error@,
        ),
{
    let m = concat("Failed to delete renamed record '", old_name);
    let m = concat(m.as_str(), "' from zone: ");
    not_ready_write("ReconcileFailed", concat(m.as_str(), error))
}

/// The status written when adding a record to the primaries failed.
pub fn add_failure_write(error: &str) -> (r: RecordStatusWrite)
    ensures
        r@ == not_ready("ReconcileFailed"@, "Failed to add record to zone: "@ + error@),
{
    not_ready_write("ReconcileFailed", concat("Failed to add record to zone: ", error))
}

/// The status written when a record was added to the primaries of zone
/// `zone_name` at time `now`: `Ready=True`, the spec's hash, the time, the
/// addresses to show and the name published.
pub fn add_success_write(spec: &RecordSpec, zone_name: &str, record_hash: String, now: String) -> (r:
    RecordStatusWrite)
    ensures
        r@ == (RecordStatusWriteView {
            condition_type: "Ready"@,
            status: "True"@,
            reason: "ReconcileSucceeded"@,
            message: dns_type(spec_kind(*spec)) + " record added to zone "@ + zone_name@,
            record_hash: Some(record_hash@),
            last_updated: Some(now@),
            addresses: spec_display_addresses(*spec),
            published_name: Some(spec_record_name(*spec)),
        }),
{
    let kind = spec.kind();
    let message = concat(kind.dns_type(), " record added to zone ");
    let message = concat(message.as_str(), zone_name);
    RecordStatusWrite {
        condition_type: to_owned_string("Ready"),
        status: to_owned_string("True"),
        reason: to_owned_string("ReconcileSucceeded"),
        message,
        record_hash: Some(record_hash),
        last_updated: Some(now),
        addresses: spec.display_addresses(),
        published_name: Some(spec.record_name().clone()),
    }
}

/// Whether a status write must reach the API: always, unless the status
/// already records the current generation and its condition of the write's
/// type has the same status, reason and message.
pub open spec fn status_needs_write(cur: Option<RecordStatus>, generation: Option<i64>, w: RecordStatusWriteView) -> bool {
    match cur {
        None => true,
        Some(s) => match s.observed_generation {
            None => true,
            Some(og) => if Some(og) != generation {
                true
            } else {
                let cs = cviews(s.conditions@);
                if has_type(cs, w.condition_type) {
                    let c = cs[first_of_type(cs, w.condition_type)];
                    !(c.status == w.status && c.reason == Some(w.reason) && c.message == Some(w.message))
                } else {
                    true
                }
            },
        },
    }
}

/// The transition time of the written condition: kept from the existing
/// condition of that type when its status does not change (and it has
/// one), `now` otherwise.
pub open spec fn write_transition_time(cur: Option<RecordStatus>, w: RecordStatusWriteView, now: Seq<char>) -> Seq<char> {
    match cur {
        None => now,
        Some(s) => {
            let cs = cviews(s.conditions@);
            if has_type(cs, w.condition_type) {
                let c = cs[first_of_type(cs, w.condition_type)];
                if c.status != w.status {
                    now
                } else {
                    match c.last_transition_time {
                        Some(t) => t,
                        None => now,
                    }
                }
            } else {
                now
            }
        },
    }
}

/// Whether `new` is the status that `w` makes of `cur`: only the written
/// condition, the observed generation given (else the current generation),
/// the zone fields kept, and the rest from the write.
pub open spec fn written_status(
    new: RecordStatus,
    cur: Option<RecordStatus>,
    generation: Option<i64>,
    observed_generation: Option<i64>,
    w: RecordStatusWriteView,
    now: Seq<char>,
) -> bool {
    &&& cviews(new.conditions@) == seq![
        ConditionView {
            condition_type: w.condition_type,
            status: w.status,
            reason: Some(w.reason),
            message: Some(w.message),
            last_transition_time: Some(write_transition_time(cur, w, now)),
        },
    ]
    &&& new.observed_generation == match observed_generation {
        Some(g) => Some(g),
        None => generation,
    }
    &&& new.zone.deep_view() == match cur {
        Some(s) => s.zone.deep_view(),
        None => None,
    }
    &&& new.zone_ref.deep_view() == match cur {
        Some(s) => s.zone_ref.deep_view(),
        None => None,
    }
    &&& new.record_hash.deep_view() == w.record_hash
    &&& new.last_updated.deep_view() == w.last_updated
    &&& new.addresses.deep_view() == w.addresses
    &&& new.published_name.deep_view() == w.published_name
}

/// The status to write on a record whose current status is `current` and
/// generation `generation`, at time `now`, together with the kind of event
/// to report (`Normal` for a `True` condition, else `Warning`); `None` when
/// the write would change nothing that matters, so that writing it does not
/// set off another reconcile.
pub fn record_status_update(
    current: &Option<RecordStatus>,
    generation: Option<i64>,
    write: &RecordStatusWrite,
    observed_generation: Option<i64>,
    now: &str,
) -> (r: Option<(RecordStatus, &'static str)>)
    ensures
        match r {
            None => !status_needs_write(*current, generation, write@),
            Some((new, event)) => status_needs_write(*current, generation, write@) && written_status(
                new,
                *current,
                generation,
                observed_generation,
                write@,
                now@,
            ) && event@ == if write@.status == "True"@ {
                "Normal"@
            } else {
                "Warning"@
            },
        },
{
    let existing: Option<usize> = match current {
        Some(s) => find_condition_index(s.conditions.as_slice(), write.condition_type.as_str()),
        None => None,
    };
    let needs = match current {
        None => true,
        Some(s) => match s.observed_generation {
            None => true,
            Some(og) => if Some(og) != generation {
                true
            } else {
                match existing {
                    Some(i) => {
                        let c = &s.conditions[i];
                        !(c.status.eq(&write.status) && opt_string_equal(
                            &c.reason,
                            &Some(write.reason.clone()),
                        ) && opt_string_equal(&c.message, &Some(write.message.clone())))
                    },
                    None => true,
                }
            },
        },
    };
    proof {
        if current.is_some() {
            lemma_first_of_type(cviews(current->0.conditions@), write.condition_type@);
        }
    }
    if !needs {
        return None;
    }
    let transition: String = match current {
        None => to_owned_string(now),
        Some(s) => match existing {
            Some(i) => {
                let c = &s.conditions[i];
                if !c.status.eq(&write.status) {
                    to_owned_string(now)
                } else {
                    match &c.last_transition_time {
                        Some(t) => t.clone(),
                        None => to_owned_string(now),
                    }
                }
            },
            None => to_owned_string(now),
        },
    };
    let condition = Condition {
        condition_type: write.condition_type.clone(),
        status: write.status.clone(),
        reason: Some(write.reason.clone()),
        message: Some(write.message.clone()),
        last_transition_time: Some(transition),
    };
    let (zone, zone_ref) = match current {
        Some(s) => (
            copy_opt_string(&s.zone),
            match &s.zone_ref {
                Some(z) => Some(z.clone()),
                None => None,
            },
        ),
        None => (None, None),
    };
    let mut conditions: Vec<Condition> = Vec::new();
    conditions.push(condition);
    let new = RecordStatus {
        conditions,
        observed_generation: match observed_generation {
            Some(g) => Some(g),
            None => generation,
        },
        zone,
        zone_ref,
        record_hash: copy_opt_string(&write.record_hash),
        last_updated: copy_opt_string(&write.last_updated),
        addresses: copy_opt_string(&write.addresses),
        published_name: copy_opt_string(&write.published_name),
    };
    assert(cviews(new.conditions@) =~= seq![new.conditions@[0]@]);
    let event: &'static str = if str_equal(write.status.as_str(), "True") {
        "Normal"
    } else {
        "Warning"
    };
    Some((new, event))
}

/// A status write is skipped only when the record's status already
/// records its current generation and holds the written condition: a
/// record without a status, or whose observed generation differs from its
/// generation, is always written, so it never looks out of date.
pub proof fn lemma_new_generation_is_written(
    cur: Option<RecordStatus>,
    generation: Option<i64>,
    w: RecordStatusWriteView,
)
    ensures
        (cur is None || cur->0.observed_generation != generation) ==> status_needs_write(cur, generation, w),
        !status_needs_write(cur, generation, w) ==> cur is Some && generation is Some
            && cur->0.observed_generation == generation && has_type(
            cviews(cur->0.conditions@),
            w.condition_type,
        ),
{
}

/// Writing a status and then writing the same status again for the same
/// generation is skipped the second time: status writes settle and do not
/// keep setting off reconciles.
pub proof fn lemma_status_write_settles(
    new: RecordStatus,
    cur: Option<RecordStatus>,
    generation: Option<i64>,
    observed_generation: Option<i64>,
    w: RecordStatusWriteView,
    now: Seq<char>,
)
    requires
        generation is Some,
        observed_generation is None || observed_generation == generation,
        written_status(new, cur, generation, observed_generation, w, now),
    ensures
        !status_needs_write(Some(new), generation, w),
{
    let cs = cviews(new.conditions@);
    assert(cs.len() == 1);
    assert(cs[0].condition_type == w.condition_type);
    assert(is_first_of_type(cs, w.condition_type, 0));
    lemma_first_of_type(cs, w.condition_type);
}

// ---------------------------------------------------------------------------
// The order of a record reconciliation
// ---------------------------------------------------------------------------

/// Where the reconciliation of a selected record stands once its zone and
/// primaries are known.
#[derive(Debug, PartialEq)]
pub enum RecordReconcileState {
    /// The zone and its primaries are known; nothing was sent yet.
    Prepared,
    /// The record was renamed: this old name is being deleted from the zone.
    DeletingOldName(String),
    /// The record is being added to the primaries under its current name.
    Adding,
    /// Nothing is left to do.
    Finished,
}

/// What the caller reports back.
#[derive(Debug, PartialEq)]
pub enum RecordReconcileEvent {
    /// The reconciliation starts; the name the record was last published
    /// under, when it differs from its current name
    /// ([`detect_renamed_record`]).
    Start(Option<String>),
    /// The deletion of the old name from the primaries ended.
    OldNameDeleted(Result<(), String>),
    /// Adding the record to the primaries ended.
    Added(Result<(), String>),
}

/// What the caller does next.
#[derive(Debug, PartialEq)]
pub enum RecordReconcileAction {
    /// Delete the old name held by the new state from the primaries,
    /// strictly (any failure is a failure).
    DeleteOldName,
    /// Add the record to the primaries under its current name.
    AddRecord,
    /// Write [`rename_failure_write`] for this old name and error; the
    /// published name is kept so the deletion is retried.
    RenameFailed(String, String),
    /// Write [`add_failure_write`] for this error.
    AddFailed(String),
    /// Mark the record reconciled in its zone and write
    /// [`add_success_write`].
    Published,
    /// The event does not fit the state: nothing to do.
    Nothing,
}

/// One step of a record reconciliation: a renamed record's old name is
/// deleted first, and the record is added only once that deletion
/// succeeded; a record that was not renamed is added at once.
pub open spec fn record_step(
    state: RecordReconcileState,
    event: RecordReconcileEvent,
) -> (RecordReconcileState, RecordReconcileAction) {
    match state {
        RecordReconcileState::Prepared => match event {
            RecordReconcileEvent::Start(None) => (RecordReconcileState::Adding, RecordReconcileAction::AddRecord),
            RecordReconcileEvent::Start(Some(old)) => (
                RecordReconcileState::DeletingOldName(old),
                RecordReconcileAction::DeleteOldName,
            ),
            _ => (state, RecordReconcileAction::Nothing),
        },
        RecordReconcileState::DeletingOldName(old) => match event {
            RecordReconcileEvent::OldNameDeleted(Ok(())) => (
                RecordReconcileState::Adding,
                RecordReconcileAction::AddRecord,
            ),
            RecordReconcileEvent::OldNameDeleted(Err(e)) => (
                RecordReconcileState::Finished,
                RecordReconcileAction::RenameFailed(old, e),
            ),
            _ => (RecordReconcileState::DeletingOldName(old), RecordReconcileAction::Nothing),
        },
        RecordReconcileState::Adding => match event {
            RecordReconcileEvent::Added(Ok(())) => (RecordReconcileState::Finished, RecordReconcileAction::Published),
            RecordReconcileEvent::Added(Err(e)) => (RecordReconcileState::Finished, RecordReconcileAction::AddFailed(e)),
            _ => (state, RecordReconcileAction::Nothing),
        },
        RecordReconcileState::Finished => (state, RecordReconcileAction::Nothing),
    }
}

/// The next state of a record reconciliation and the action to take, from
/// the state it is in and the event reported.
pub fn record_reconcile_step(
    state: RecordReconcileState,
    event: RecordReconcileEvent,
) -> (r: (RecordReconcileState, RecordReconcileAction))
    ensures
        r == record_step(state, event),
{
    match state {
        RecordReconcileState::Prepared => match event {
            RecordReconcileEvent::Start(None) => (RecordReconcileState::Adding, RecordReconcileAction::AddRecord),
            RecordReconcileEvent::Start(Some(old)) => (
                RecordReconcileState::DeletingOldName(old),
                RecordReconcileAction::DeleteOldName,
            ),
            _ => (RecordReconcileState::Prepared, RecordReconcileAction::Nothing),
        },
        RecordReconcileState::DeletingOldName(old) => match event {
            RecordReconcileEvent::OldNameDeleted(Ok(())) => (
                RecordReconcileState::Adding,
                RecordReconcileAction::AddRecord,
            ),
            RecordReconcileEvent::OldNameDeleted(Err(e)) => (
                RecordReconcileState::Finished,
                RecordReconcileAction::RenameFailed(old, e),
            ),
            _ => (RecordReconcileState::DeletingOldName(old), RecordReconcileAction::Nothing),
        },
        RecordReconcileState::Adding => match event {
            RecordReconcileEvent::Added(Ok(())) => (RecordReconcileState::Finished, RecordReconcileAction::Published),
            RecordReconcileEvent::Added(Err(e)) => (RecordReconcileState::Finished, RecordReconcileAction::AddFailed(e)),
            _ => (RecordReconcileState::Adding, RecordReconcileAction::Nothing),
        },
        RecordReconcileState::Finished => (RecordReconcileState::Finished, RecordReconcileAction::Nothing),
    }
}

/// The state after `events`, from `state`, and the actions taken, in order.
pub open spec fn record_run(
    state: RecordReconcileState,
    events: Seq<RecordReconcileEvent>,
) -> (RecordReconcileState, Seq<RecordReconcileAction>)
    decreases events.len(),
{
    if events.len() == 0 {
        (state, Seq::empty())
    } else {
        let (before, actions) = record_run(state, events.drop_last());
        let (after, action) = record_step(before, events.last());
        (after, actions.push(action))
    }
}

/// Some event up to position `i` reports the old name deleted.
pub open spec fn old_name_deleted_by(events: Seq<RecordReconcileEvent>, i: int) -> bool {
    exists|j: int|
        0 <= j <= i && #[trigger] events[j] == RecordReconcileEvent::OldNameDeleted(Ok::<(), String>(()))
}

proof fn lemma_add_follows_deletion(state: RecordReconcileState, event: RecordReconcileEvent)
    requires
        state != RecordReconcileState::Prepared,
        state != RecordReconcileState::Adding,
        record_step(state, event).1 == RecordReconcileAction::AddRecord
            || record_step(state, event).0 == RecordReconcileState::Adding,
    ensures
        event == RecordReconcileEvent::OldNameDeleted(Ok::<(), String>(())),
{
    match state {
        RecordReconcileState::DeletingOldName(_) => match event {
            RecordReconcileEvent::OldNameDeleted(r) => match r {
                Ok(u) => {
                    assert(u == ());
                },
                Err(_) => {},
            },
            _ => {},
        },
        _ => {},
    }
}

proof fn lemma_renamed_run(events: Seq<RecordReconcileEvent>, old: String)
    requires
        events.len() > 0,
        events[0] == RecordReconcileEvent::Start(Some(old)),
    ensures
        ({
            let (state, actions) = record_run(RecordReconcileState::Prepared, events);
            &&& actions.len() == events.len()
            &&& state != RecordReconcileState::Prepared
            &&& state == RecordReconcileState::Adding ==> old_name_deleted_by(events, events.len() - 1)
            &&& forall|i: int| 0 <= i < actions.len() && #[trigger] actions[i] == RecordReconcileAction::AddRecord
                ==> old_name_deleted_by(events, i)
        }),
    decreases events.len(),
{
    let prev = events.drop_last();
    let n = events.len() - 1;
    if events.len() == 1 {
        assert(prev.len() == 0);
        assert(events.last() == events[0]);
    } else {
        assert(prev[0] == events[0]);
        lemma_renamed_run(prev, old);
        let (before, acts) = record_run(RecordReconcileState::Prepared, prev);
        let (after, action) = record_step(before, events.last());
        let actions = acts.push(action);
        assert(events.last() == events[n]);
        assert(record_run(RecordReconcileState::Prepared, events) == (after, actions));
        assert forall|i: int| 0 <= i < actions.len() && #[trigger] actions[i] == RecordReconcileAction::AddRecord
            implies old_name_deleted_by(events, i) by {
            if i < n {
                assert(actions[i] == acts[i]);
                let j = choose|j: int|
                    0 <= j <= i && #[trigger] prev[j] == RecordReconcileEvent::OldNameDeleted(Ok::<(), String>(()));
                assert(events[j] == prev[j]);
            } else {
                if before == RecordReconcileState::Adding {
                    let j = choose|j: int|
                        0 <= j <= n - 1 && #[trigger] prev[j] == RecordReconcileEvent::OldNameDeleted(Ok::<(), String>(()));
                    assert(events[j] == prev[j]);
                } else {
                    lemma_add_follows_deletion(before, events[n]);
                }
            }
        }
        if after == RecordReconcileState::Adding {
            if before == RecordReconcileState::Adding {
                let j = choose|j: int|
                    0 <= j <= n - 1 && #[trigger] prev[j] == RecordReconcileEvent::OldNameDeleted(Ok::<(), String>(()));
                assert(events[j] == prev[j]);
            } else {
                lemma_add_follows_deletion(before, events[n]);
            }
        }
    }
}

/// A renamed record is never published under its new name before its old
/// name was deleted: in any run that starts with a rename, every
/// `AddRecord` answers an event at or after a report that the old name's
/// deletion succeeded.
pub proof fn lemma_new_name_waits_for_old(events: Seq<RecordReconcileEvent>, old: String, i: int)
    requires
        events.len() > 0,
        events[0] == RecordReconcileEvent::Start(Some(old)),
        0 <= i < events.len(),
        record_run(RecordReconcileState::Prepared, events).1[i] == RecordReconcileAction::AddRecord,
    ensures
        old_name_deleted_by(events, i),
{
    lemma_renamed_run(events, old);
}

// ---------------------------------------------------------------------------
// The zone's record timestamps
// ---------------------------------------------------------------------------

/// Whether a zone's record entry is the record of kind `kind` named `name`
/// in `namespace`.
pub open spec fn is_record_entry(r: RecordReferenceView, kind: Seq<char>, name: Seq<char>, namespace: Seq<char>) -> bool {
    r.kind == kind && r.name == name && r.namespace == namespace
}

/// Mark the record of kind `kind` named `name` in `namespace` as reconciled
/// at `now` in the zone's status: the first matching entry gets the time.
/// Returns whether an entry matched. When none does, nothing changes and
/// nothing needs writing: a record the zone does not list is no error, the
/// update is simply skipped.
pub fn mark_record_reconciled(
    status: &mut DNSZoneStatus,
    kind: &str,
    name: &str,
    namespace: &str,
    now: &str,
) -> (r: bool)
    ensures
        ({
            let before = old(status)@.records;
            let after = final(status)@.records;
            &&& final(status)@.observed_generation == old(status)@.observed_generation
            &&& final(status)@.conditions == old(status)@.conditions
            &&& final(status)@.bind9_instances == old(status)@.bind9_instances
            &&& after.len() == before.len()
            &&& r == exists|i: int| 0 <= i < before.len() && is_record_entry(#[trigger] before[i], kind@, name@, namespace@)
            &&& forall|i: int|
                0 <= i < before.len() ==> #[trigger] after[i] == if is_record_entry(before[i], kind@, name@, namespace@)
                    && forall|j: int| 0 <= j < i ==> !is_record_entry(#[trigger] before[j], kind@, name@, namespace@) {
                    RecordReferenceView { last_reconciled_at: Some(now@), ..before[i] }
                } else {
                    before[i]
                }
        }),
{
    let ghost before = status.records.deep_view();
    let n = status.records.len();
    let mut i: usize = 0;
    while i < n
        invariant
            i <= n,
            n == before.len(),
            status.records.deep_view() == before,
            *status == *old(status),
            before == old(status)@.records,
            forall|j: int| 0 <= j < i ==> !is_record_entry(#[trigger] before[j], kind@, name@, namespace@),
        decreases n - i,
    {
        let e = &status.records[i];
        assert(before[i as int] == e@);
        if str_equal(e.kind.as_str(), kind) && str_equal(e.name.as_str(), name) && str_equal(
            e.namespace.as_str(),
            namespace,
        ) {
            let mut entry = e.clone();
            entry.last_reconciled_at = Some(to_owned_string(now));
            status.records.set(i, entry);
            assert(status.records.deep_view() =~= before.update(
                i as int,
                RecordReferenceView { last_reconciled_at: Some(now@), ..before[i as int] },
            ));
            assert forall|k: int| 0 <= k < before.len() implies #[trigger] status@.records[k] == if is_record_entry(before[k], kind@, name@, namespace@)
                && forall|j: int| 0 <= j < k ==> !is_record_entry(#[trigger] before[j], kind@, name@, namespace@) {
                RecordReferenceView { last_reconciled_at: Some(now@), ..before[k] }
            } else {
                before[k]
            } by {
                if k > i {
                    assert(!(forall|j: int| 0 <= j < k ==> !is_record_entry(#[trigger] before[j], kind@, name@, namespace@))) by {
                        assert(is_record_entry(before[i as int], kind@, name@, namespace@));
                    }
                }
            }
            return true;
        }
        i = i + 1;
    }
    false
}

} // verus!
