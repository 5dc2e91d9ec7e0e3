//! Which records a zone selects, which it lets go, and what it keeps of
//! their earlier state.

use vstd::prelude::*;
use crate::constants::{API_GROUP_VERSION, KIND_DNS_ZONE};
use crate::crd::{
    Condition, DNSRecordKind, DNSZone, LabelSelector, RecordReferenceView,
    RecordReferenceWithTimestamp, RecordStatus, StringPairs, ZoneReference, ZoneReferenceView, kind_from_name,
    kind_name, pairs_view, selector_matches, spec_name_any, spec_namespace_or_default,
};
use crate::reconcilers::dnszone::bind9_config::{ConditionUpdate, update_view};
use crate::reconcilers::status::rviews;
use crate::text::{concat, copy_opt_string, str_equal, to_owned_string};
use crate::record_impls::record_type_named;
use crate::reconcilers::records::dns_type;
use hickory_proto::rr::RecordType;

verus! {

// ---------------------------------------------------------------------------
// Record keys and the records a zone lets go
// ---------------------------------------------------------------------------

/// `Kind/name`, the key under which a zone tracks a record.
pub open spec fn key_of(kind: Seq<char>, name: Seq<char>) -> Seq<char> {
    kind + "/"@ + name
}

/// The key of a record reference.
pub open spec fn ref_key(r: RecordReferenceView) -> Seq<char> {
    key_of(r.kind, r.name)
}

/// The key `Kind/name` of a record.
pub fn record_key(kind: &str, name: &str) -> (r: String)
    ensures
        r@ == key_of(kind@, name@),
{
    let head = concat(kind, "/");
    concat(head.as_str(), name)
}

/// The hickory record type of the record kind named `kind` (such as
/// `ARecord`), which deletions from BIND9 are sent with; an unknown kind is
/// an error naming it.
pub fn hickory_record_type_for_kind(kind: &str) -> (r: Result<RecordType, String>)
    ensures
        r is Ok <==> kind_from_name(kind@) is Some,
        r matches Ok(t) ==> t == record_type_named(dns_type(kind_from_name(kind@)->0)),
        r matches Err(e) ==> e@ == "Unknown DNS record kind '"@ + kind@ + "'"@,
{
    match DNSRecordKind::from_kind(kind) {
        Some(k) => Ok(k.hickory_record_type()),
        None => {
            let m = concat("Unknown DNS record kind '", kind);
            Err(concat(m.as_str(), "'"))
        },
    }
}

/// Whether `keys` holds `k`.
pub open spec fn holds_key(keys: Seq<String>, k: Seq<char>) -> bool {
    exists|i: int| 0 <= i < keys.len() && (#[trigger] keys[i])@ == k
}

/// A reference whose key is not among `keys`.
pub open spec fn not_selected(keys: Seq<String>) -> spec_fn(RecordReferenceView) -> bool {
    |r: RecordReferenceView| !holds_key(keys, ref_key(r))
}

fn holds_key_exec(keys: &[String], k: &String) -> (r: bool)
    ensures
        r == holds_key(keys@, k@),
{
    for i in 0..keys.len()
        invariant
            forall|j: int| 0 <= j < i ==> keys@[j]@ != k@,
    {
        if keys[i].eq(k) {
            return true;
        }
    }
    false
}

/// The records the zone selected before whose key is not among
/// `current_keys` (the keys of the records it selects now), in order.
pub fn unselected_previous_records(
    previous: &[RecordReferenceWithTimestamp],
    current_keys: &[String],
) -> (r: Vec<RecordReferenceWithTimestamp>)
    ensures
        r.deep_view() == rviews(previous@).filter(not_selected(current_keys@)),
{
    let ghost all = rviews(previous@);
    let ghost pred = not_selected(current_keys@);
    let mut r: Vec<RecordReferenceWithTimestamp> = Vec::new();
    assert(all.take(0).filter(pred) =~= Seq::<RecordReferenceView>::empty());
    for i in 0..previous.len()
        invariant
            all == rviews(previous@),
            pred == not_selected(current_keys@),
            r.deep_view() == all.take(i as int).filter(pred),
    {
        assert(all.take(i + 1).drop_last() =~= all.take(i as int));
        reveal_with_fuel(Seq::<RecordReferenceView>::filter, 1);
        let key = record_key(previous[i].kind.as_str(), previous[i].name.as_str());
        if !holds_key_exec(current_keys, &key) {
            let ghost before = r.deep_view();
            r.push(previous[i].clone());
            assert(r.deep_view() =~= before.push(all[i as int]));
        }
    }
    assert(all.take(previous.len() as int) =~= all);
    r
}

/// The records a zone selected before fall into two parts: those still
/// selected and those let go. A previous record is let go exactly when its
/// key is no longer selected.
pub proof fn lemma_unselected_partition(
    previous: Seq<RecordReferenceWithTimestamp>,
    current_keys: Seq<String>,
    i: int,
)
    requires
        0 <= i < previous.len(),
    ensures
        rviews(previous).filter(not_selected(current_keys)).contains(previous[i]@) <==> !holds_key(
            current_keys,
            ref_key(previous[i]@),
        ),
{
    let all = rviews(previous);
    let pred = not_selected(current_keys);
    let out = all.filter(pred);
    assert(all[i] == previous[i]@);
    if !holds_key(current_keys, ref_key(previous[i]@)) {
        all.lemma_filter_contains(pred, i);
    }
    if out.contains(previous[i]@) {
        let j = choose|j: int| 0 <= j < out.len() && out[j] == previous[i]@;
        all.lemma_filter_pred(pred, j);
    }
}

// ---------------------------------------------------------------------------
// Reconciliation timestamps
// ---------------------------------------------------------------------------

/// The reconciliation time a zone recorded for key `k`: that of the last
/// earlier entry with this key that has one.
pub open spec fn recorded_stamp(previous: Seq<RecordReferenceView>, k: Seq<char>) -> Option<Seq<char>>
    decreases previous.len(),
{
    if previous.len() == 0 {
        None
    } else if ref_key(previous.last()) == k && previous.last().last_reconciled_at is Some {
        previous.last().last_reconciled_at
    } else {
        recorded_stamp(previous.drop_last(), k)
    }
}

/// A record reference after carrying over the time recorded for its key.
pub open spec fn with_recorded_stamp(r: RecordReferenceView, previous: Seq<RecordReferenceView>) -> RecordReferenceView {
    match recorded_stamp(previous, ref_key(r)) {
        Some(t) => RecordReferenceView { last_reconciled_at: Some(t), ..r },
        None => r,
    }
}

fn recorded_stamp_exec(previous: &[RecordReferenceWithTimestamp], key: &String) -> (r: Option<String>)
    ensures
        r.deep_view() == recorded_stamp(rviews(previous@), key@),
{
    let ghost all = rviews(previous@);
    let mut i: usize = previous.len();
    assert(all.take(i as int) =~= all);
    while i > 0
        invariant
            i <= previous.len(),
            all == rviews(previous@),
            recorded_stamp(all, key@) == recorded_stamp(all.take(i as int), key@),
        decreases i,
    {
        assert(all.take(i as int).drop_last() =~= all.take(i - 1));
        assert(all.take(i as int).last() == previous@[i - 1]@);
        let e = &previous[i - 1];
        let k = record_key(e.kind.as_str(), e.name.as_str());
        if k.eq(key) && e.last_reconciled_at.is_some() {
            return copy_opt_string(&e.last_reconciled_at);
        }
        i = i - 1;
    }
    None
}

/// Carry the reconciliation time recorded in the zone's status over to
/// the records found now, so an unchanged record does not look new and
/// set off needless reconciles. Records without a recorded time are left
/// as they are.
pub fn preserve_record_timestamps(
    records: &mut Vec<RecordReferenceWithTimestamp>,
    previous: &[RecordReferenceWithTimestamp],
)
    ensures
        final(records)@.len() == old(records)@.len(),
        forall|i: int|
            0 <= i < old(records)@.len() ==> (#[trigger] final(records)@[i])@ == with_recorded_stamp(
                old(records)@[i]@,
                rviews(previous@),
            ),
{
    let ghost before = records@;
    let n = records.len();
    for i in 0..n
        invariant
            n == before.len(),
            records@.len() == n,
            forall|j: int|
                0 <= j < i ==> (#[trigger] records@[j])@ == with_recorded_stamp(
                    before[j]@,
                    rviews(previous@),
                ),
            forall|j: int| i <= j < n ==> #[trigger] records@[j] == before[j],
    {
        let key = record_key(records[i].kind.as_str(), records[i].name.as_str());
        let stamp = recorded_stamp_exec(previous, &key);
        match stamp {
            Some(t) => {
                let mut entry = records[i].clone();
                entry.last_reconciled_at = Some(t);
                records.set(i, entry);
            },
            None => {},
        }
    }
}

// ---------------------------------------------------------------------------
// The zone's record list after a discovery pass
// ---------------------------------------------------------------------------

/// The let-go records whose DNS cleanup failed, in order: they stay
/// selected so that the cleanup is retried.
pub open spec fn kept_after_failed_cleanup(unselected: Seq<RecordReferenceView>, cleanup_ok: Seq<bool>) -> Seq<RecordReferenceView>
    decreases unselected.len(),
{
    if unselected.len() == 0 {
        Seq::empty()
    } else {
        let rest = kept_after_failed_cleanup(unselected.drop_last(), cleanup_ok);
        if !cleanup_ok[unselected.len() - 1] {
            rest.push(unselected.last())
        } else {
            rest
        }
    }
}

/// The let-go records whose DNS cleanup succeeded, in order: only these
/// are untagged.
pub open spec fn untag_targets(unselected: Seq<RecordReferenceView>, cleanup_ok: Seq<bool>) -> Seq<RecordReferenceView>
    decreases unselected.len(),
{
    if unselected.len() == 0 {
        Seq::empty()
    } else {
        let rest = untag_targets(unselected.drop_last(), cleanup_ok);
        if cleanup_ok[unselected.len() - 1] {
            rest.push(unselected.last())
        } else {
            rest
        }
    }
}

/// The references with the reconciliation times recorded in `previous`
/// carried over.
pub open spec fn preserved(records: Seq<RecordReferenceView>, previous: Seq<RecordReferenceView>) -> Seq<RecordReferenceView> {
    Seq::new(records.len(), |i: int| with_recorded_stamp(records[i], previous))
}

/// The zone's record list and the records to untag after a discovery pass.
///
/// `discovered` are the records the zone's selectors pick now,
/// `unselected` the records it selected before and lets go, with
/// `cleanup_ok[i]` telling whether the DNS data of `unselected[i]` was
/// deleted from the primaries, and `previous` the zone's record list so
/// far. A let-go record whose cleanup failed stays selected and stays in
/// the list, so the cleanup is retried on the next pass; only those whose
/// cleanup succeeded are untagged. Every record keeps the reconciliation
/// time recorded for it.
pub fn zone_records_after_cleanup(
    discovered: &[RecordReferenceWithTimestamp],
    unselected: &[RecordReferenceWithTimestamp],
    cleanup_ok: &[bool],
    previous: &[RecordReferenceWithTimestamp],
) -> (r: (Vec<RecordReferenceWithTimestamp>, Vec<RecordReferenceWithTimestamp>))
    requires
        unselected.len() == cleanup_ok.len(),
    ensures
        r.0.deep_view() == preserved(
            rviews(discovered@) + kept_after_failed_cleanup(rviews(unselected@), cleanup_ok@),
            rviews(previous@),
        ),
        r.1.deep_view() == untag_targets(rviews(unselected@), cleanup_ok@),
{
    let mut records: Vec<RecordReferenceWithTimestamp> = Vec::new();
    for i in 0..discovered.len()
        invariant
            records.deep_view() == rviews(discovered@.take(i as int)),
    {
        let ghost before = records.deep_view();
        records.push(discovered[i].clone());
        assert(records.deep_view() =~= before.push(discovered@[i as int]@));
        assert(rviews(discovered@.take(i + 1)) =~= rviews(discovered@.take(i as int)).push(
            discovered@[i as int]@,
        ));
    }
    assert(discovered@.take(discovered.len() as int) =~= discovered@);
    let ghost base = records.deep_view();
    let mut untag: Vec<RecordReferenceWithTimestamp> = Vec::new();
    for i in 0..unselected.len()
        invariant
            unselected.len() == cleanup_ok.len(),
            base == rviews(discovered@),
            records.deep_view() == base + kept_after_failed_cleanup(rviews(unselected@.take(i as int)), cleanup_ok@),
            untag.deep_view() == untag_targets(rviews(unselected@.take(i as int)), cleanup_ok@),
    {
        let ghost u = rviews(unselected@.take(i + 1));
        assert(u.drop_last() =~= rviews(unselected@.take(i as int)));
        assert(u.last() == unselected@[i as int]@);
        assert(u.len() - 1 == i);
        if cleanup_ok[i] {
            let ghost before = untag.deep_view();
            untag.push(unselected[i].clone());
            assert(untag.deep_view() =~= before.push(unselected@[i as int]@));
        } else {
            let ghost before = records.deep_view();
            records.push(unselected[i].clone());
            assert(records.deep_view() =~= before.push(unselected@[i as int]@));
        }
    }
    assert(unselected@.take(unselected.len() as int) =~= unselected@);
    let ghost combined = records.deep_view();
    preserve_record_timestamps(&mut records, previous);
    assert(records.deep_view() =~= preserved(combined, rviews(previous@)));
    (records, untag)
}

proof fn lemma_cleanup_split_contains(u: Seq<RecordReferenceView>, ok: Seq<bool>, i: int)
    requires
        0 <= i < u.len(),
        u.len() <= ok.len(),
    ensures
        !ok[i] ==> kept_after_failed_cleanup(u, ok).contains(u[i]),
        ok[i] ==> untag_targets(u, ok).contains(u[i]),
    decreases u.len(),
{
    let kept = kept_after_failed_cleanup(u.drop_last(), ok);
    let untag = untag_targets(u.drop_last(), ok);
    if i == u.len() - 1 {
        if !ok[i] {
            assert(kept.push(u.last())[kept.len() as int] == u[i]);
        } else {
            assert(untag.push(u.last())[untag.len() as int] == u[i]);
        }
    } else {
        lemma_cleanup_split_contains(u.drop_last(), ok, i);
        assert(u.drop_last()[i] == u[i]);
        if !ok[i] {
            let k = choose|k: int| 0 <= k < kept.len() && kept[k] == u[i];
            assert(kept.push(u.last())[k] == u[i]);
            assert(kept_after_failed_cleanup(u, ok)[k] == u[i]);
        } else {
            let k = choose|k: int| 0 <= k < untag.len() && untag[k] == u[i];
            assert(untag.push(u.last())[k] == u[i]);
            assert(untag_targets(u, ok)[k] == u[i]);
        }
    }
}

/// A record the zone lets go whose DNS cleanup failed stays in the zone's
/// record list under its key (so the cleanup is retried); one whose cleanup
/// succeeded is among the records untagged.
pub proof fn lemma_failed_cleanup_is_retried(
    discovered: Seq<RecordReferenceView>,
    unselected: Seq<RecordReferenceView>,
    cleanup_ok: Seq<bool>,
    previous: Seq<RecordReferenceView>,
    i: int,
)
    requires
        unselected.len() == cleanup_ok.len(),
        0 <= i < unselected.len(),
    ensures
        !cleanup_ok[i] ==> ({
            let out = preserved(discovered + kept_after_failed_cleanup(unselected, cleanup_ok), previous);
            exists|j: int| 0 <= j < out.len() && ref_key(#[trigger] out[j]) == ref_key(unselected[i])
        }),
        cleanup_ok[i] ==> untag_targets(unselected, cleanup_ok).contains(unselected[i]),
{
    lemma_cleanup_split_contains(unselected, cleanup_ok, i);
    if !cleanup_ok[i] {
        let kept = kept_after_failed_cleanup(unselected, cleanup_ok);
        let all = discovered + kept;
        let out = preserved(all, previous);
        let k = choose|k: int| 0 <= k < kept.len() && kept[k] == unselected[i];
        let j = discovered.len() + k;
        assert(all[j] == unselected[i]);
        assert(out[j] == with_recorded_stamp(all[j], previous));
        assert(ref_key(out[j]) == ref_key(unselected[i]));
    }
}

/// What a zone without `recordsFrom` selectors does: it discovers nothing,
/// tags and untags nothing, and its record list becomes empty. `None` when
/// the zone has selectors and discovery runs.
pub fn records_without_selectors(zone: &DNSZone) -> (r: Option<
    (Vec<RecordReferenceWithTimestamp>, Vec<RecordReferenceWithTimestamp>),
>)
    ensures
        r is Some <==> zone.spec.records_from is None,
        r matches Some((records, untag)) ==> records@.len() == 0 && untag@.len() == 0,
{
    match &zone.spec.records_from {
        None => Some((Vec::new(), Vec::new())),
        Some(_) => None,
    }
}

// ---------------------------------------------------------------------------
// Discovery
// ---------------------------------------------------------------------------

/// What discovery reads of one record resource.
#[derive(Debug, PartialEq)]
pub struct RecordSummary {
    /// Name of the resource.
    pub name: String,
    pub labels: Option<StringPairs>,
    /// The record's `spec.name`, its name inside the zone.
    pub spec_name: String,
    /// The record's `status.lastUpdated`, when it is a valid time.
    pub last_updated: Option<String>,
}

/// Whether the selector picks the record (a record without labels is seen
/// with no labels).
pub open spec fn picks(selector: LabelSelector, rec: RecordSummary) -> bool {
    selector_matches(
        selector,
        match rec.labels {
            Some(l) => pairs_view(l),
            None => Seq::empty(),
        },
    )
}

/// The reference a zone records for a record it selects.
pub open spec fn discovered_ref(kind: DNSRecordKind, namespace: Seq<char>, rec: RecordSummary) -> RecordReferenceView {
    RecordReferenceView {
        api_version: API_GROUP_VERSION@,
        kind: kind_name(kind),
        name: rec.name@,
        namespace,
        record_name: Some(rec.spec_name@),
        last_reconciled_at: rec.last_updated.deep_view(),
    }
}

/// References to the records of one kind the selector picks, in order.
pub open spec fn discovered(
    kind: DNSRecordKind,
    namespace: Seq<char>,
    selector: LabelSelector,
    recs: Seq<RecordSummary>,
) -> Seq<RecordReferenceView>
    decreases recs.len(),
{
    if recs.len() == 0 {
        Seq::empty()
    } else {
        let rest = discovered(kind, namespace, selector, recs.drop_last());
        if picks(selector, recs.last()) {
            rest.push(discovered_ref(kind, namespace, recs.last()))
        } else {
            rest
        }
    }
}

/// References to the records of kind `kind` in `namespace` that
/// `selector` picks, from the records of that kind listed there.
pub fn discover_records(
    kind: DNSRecordKind,
    namespace: &str,
    selector: &LabelSelector,
    records: &[RecordSummary],
) -> (r: Vec<RecordReferenceWithTimestamp>)
    ensures
        r.deep_view() == discovered(kind, namespace@, *selector, records@),
{
    let empty: StringPairs = Vec::new();
    assert(pairs_view(empty) =~= Seq::empty());
    let mut r: Vec<RecordReferenceWithTimestamp> = Vec::new();
    for i in 0..records.len()
        invariant
            pairs_view(empty) == Seq::<(Seq<char>, Seq<char>)>::empty(),
            r.deep_view() == discovered(kind, namespace@, *selector, records@.take(i as int)),
    {
        assert(records@.take(i + 1).drop_last() =~= records@.take(i as int));
        assert(records@.take(i + 1).last() == records@[i as int]);
        let rec = &records[i];
        let labels: &StringPairs = match &rec.labels {
            Some(l) => l,
            None => &empty,
        };
        if selector.matches(labels) {
            let entry = RecordReferenceWithTimestamp {
                api_version: to_owned_string(API_GROUP_VERSION),
                kind: to_owned_string(kind.as_str()),
                name: rec.name.clone(),
                namespace: to_owned_string(namespace),
                record_name: Some(rec.spec_name.clone()),
                last_reconciled_at: copy_opt_string(&rec.last_updated),
            };
            let ghost before = r.deep_view();
            r.push(entry);
            assert(r.deep_view() =~= before.push(discovered_ref(kind, namespace@, *rec)));
        }
    }
    assert(records@.take(records.len() as int) =~= records@);
    r
}

/// Whether a record is ready: one of its conditions is `Ready=True`.
pub open spec fn ready_in(conditions: Seq<Condition>) -> bool {
    exists|i: int|
        0 <= i < conditions.len() && (#[trigger] conditions[i]).condition_type@ == "Ready"@
            && conditions[i].status@ == "True"@
}

/// Whether a record whose status holds `conditions` is ready.
pub fn record_is_ready(conditions: &[Condition]) -> (r: bool)
    ensures
        r == ready_in(conditions@),
{
    for i in 0..conditions.len()
        invariant
            forall|j: int|
                0 <= j < i ==> !((#[trigger] conditions@[j]).condition_type@ == "Ready"@
                    && conditions@[j].status@ == "True"@),
    {
        if str_equal(conditions[i].condition_type.as_str(), "Ready") && str_equal(
            conditions[i].status.as_str(),
            "True",
        ) {
            return true;
        }
    }
    false
}

/// Whether the zone's status lists the record of kind `kind` named `name`.
pub open spec fn zone_lists_record(zone: DNSZone, kind: Seq<char>, name: Seq<char>) -> bool {
    match zone.status {
        None => false,
        Some(s) => exists|i: int|
            0 <= i < s.records@.len() && (#[trigger] s.records@[i]).kind@ == kind && s.records@[i].name@
                == name,
    }
}

/// `(name, namespace)` of each zone that lists the record, in order.
pub open spec fn selecting_zones(zones: Seq<DNSZone>, kind: Seq<char>, name: Seq<char>) -> Seq<(Seq<char>, Seq<char>)>
    decreases zones.len(),
{
    if zones.len() == 0 {
        Seq::empty()
    } else {
        let rest = selecting_zones(zones.drop_last(), kind, name);
        if zone_lists_record(zones.last(), kind, name) {
            rest.push((spec_name_any(zones.last().metadata), spec_namespace_or_default(zones.last().metadata)))
        } else {
            rest
        }
    }
}

fn zone_lists_record_exec(zone: &DNSZone, kind: &str, name: &str) -> (r: bool)
    ensures
        r == zone_lists_record(*zone, kind@, name@),
{
    match &zone.status {
        None => false,
        Some(s) => {
            for i in 0..s.records.len()
                invariant
                    zone.status == Some(*s),
                    forall|j: int|
                        0 <= j < i ==> !((#[trigger] s.records@[j]).kind@ == kind@ && s.records@[j].name@
                            == name@),
            {
                if str_equal(s.records[i].kind.as_str(), kind) && str_equal(s.records[i].name.as_str(), name) {
                    return true;
                }
            }
            false
        },
    }
}

/// `(name, namespace)` of the zones, among those of the record's
/// namespace, whose status lists the record.
pub fn zones_selecting_record(zones: &[DNSZone], record_kind: &str, record_name: &str) -> (r: Vec<
    (String, String),
>)
    ensures
        r@.map_values(|p: (String, String)| (p.0@, p.1@)) == selecting_zones(
            zones@,
            record_kind@,
            record_name@,
        ),
{
    let mut r: Vec<(String, String)> = Vec::new();
    for i in 0..zones.len()
        invariant
            r@.map_values(|p: (String, String)| (p.0@, p.1@)) == selecting_zones(
                zones@.take(i as int),
                record_kind@,
                record_name@,
            ),
    {
        assert(zones@.take(i + 1).drop_last() =~= zones@.take(i as int));
        assert(zones@.take(i + 1).last() == zones@[i as int]);
        if zone_lists_record_exec(&zones[i], record_kind, record_name) {
            let ghost before = r@;
            let pair = (zones[i].metadata.name_any(), zones[i].metadata.namespace_or_default());
            r.push(pair);
            assert(r@.map_values(|p: (String, String)| (p.0@, p.1@)) =~= before.map_values(
                |p: (String, String)| (p.0@, p.1@),
            ).push((pair.0@, pair.1@)));
        }
    }
    assert(zones@.take(zones.len() as int) =~= zones@);
    r
}

// ---------------------------------------------------------------------------
// Cleaning up a record the zone lets go
// ---------------------------------------------------------------------------

/// The DNS name under which the zone published a record it lets go, or
/// `None` when the zone does not own the record's data: the record carries
/// no zone reference, or one to another zone. The published name comes
/// first, then the record's `spec.name`, then its resource name.
pub open spec fn owned_dns_name(
    zone: DNSZone,
    name: Seq<char>,
    status: Option<RecordStatus>,
    spec_name: Option<Seq<char>>,
) -> Option<Seq<char>> {
    match status {
        None => None,
        Some(s) => match s.zone_ref {
            None => None,
            Some(zr) => if zr.name@ == spec_name_any(zone.metadata) && zr.namespace@
                == spec_namespace_or_default(zone.metadata) {
                match s.published_name {
                    Some(p) => Some(p@),
                    None => match spec_name {
                        Some(n) => Some(n),
                        None => Some(name),
                    },
                }
            } else {
                None
            },
        },
    }
}

/// The DNS name to delete from the zone's primaries for a record the zone
/// lets go, read from the record as fetched (`status`, `spec_name`), or
/// `None` when there is nothing of the zone's to delete.
pub fn unselected_record_dns_name(
    zone: &DNSZone,
    name: &str,
    status: &Option<RecordStatus>,
    spec_name: &Option<String>,
) -> (r: Option<String>)
    ensures
        r.deep_view() == owned_dns_name(*zone, name@, *status, spec_name.deep_view()),
{
    match status {
        None => None,
        Some(s) => match &s.zone_ref {
            None => None,
            Some(zr) => {
                let zone_name = zone.metadata.name_any();
                let zone_namespace = zone.metadata.namespace_or_default();
                if zr.name.eq(&zone_name) && zr.namespace.eq(&zone_namespace) {
                    match &s.published_name {
                        Some(p) => Some(p.clone()),
                        None => match spec_name {
                            Some(n) => Some(n.clone()),
                            None => Some(to_owned_string(name)),
                        },
                    }
                } else {
                    None
                }
            },
        },
    }
}

/// The zone reference a zone writes into the status of a record it
/// selects.
pub fn zone_reference_for(zone: &DNSZone) -> (r: ZoneReference)
    ensures
        r@ == (ZoneReferenceView {
            api_version: API_GROUP_VERSION@,
            kind: KIND_DNS_ZONE@,
            name: spec_name_any(zone.metadata),
            namespace: spec_namespace_or_default(zone.metadata),
            zone_name: zone.spec.zone_name@,
            last_reconciled_at: None,
        }),
{
    ZoneReference {
        api_version: to_owned_string(API_GROUP_VERSION),
        kind: to_owned_string(KIND_DNS_ZONE),
        name: zone.metadata.name_any(),
        namespace: zone.metadata.namespace_or_default(),
        zone_name: zone.spec.zone_name.clone(),
        last_reconciled_at: None,
    }
}

/// The condition set when record discovery begins.
pub fn records_discovery_started() -> (r: ConditionUpdate)
    ensures
        update_view(r) == ("Progressing"@, "True"@, "RecordsDiscovering"@,
            "Discovering DNS records via label selectors"@),
{
    ConditionUpdate {
        condition_type: to_owned_string("Progressing"),
        status: to_owned_string("True"),
        reason: to_owned_string("RecordsDiscovering"),
        message: to_owned_string("Discovering DNS records via label selectors"),
    }
}

} // verus!
