//! Which instances serve a zone, which zones block a contested name, and
//! which instances still need the zone.

use vstd::prelude::*;
use crate::constants::{
    ALLOW_ZONE_NAMESPACES_WILDCARD, ANNOTATION_ALLOW_ZONE_NAMESPACES, API_GROUP_VERSION,
    KIND_BIND9_INSTANCE,
};
use crate::crd::{
    Bind9Instance, DNSZone, InstanceReference, InstanceReferenceView, InstanceReferenceWithStatus,
    InstanceSource, InstanceStatus, lookup_pair, pairs_lookup, pairs_view, selector_matches,
    spec_name_any, spec_namespace_or_default,
};
use crate::reconcilers::dnszone::types::{
    ConflictingZone, ConflictingZoneView, DuplicateZoneInfo, DuplicateZoneInfoView,
};
use crate::text::{comma_list_contains_either, concat, seq_lt, some_entry_is, str_equal, to_owned_string};

verus! {

// ---------------------------------------------------------------------------
// Instances of a zone
// ---------------------------------------------------------------------------

/// Whether the instance's annotation lets zones of namespace `ns` target
/// it: the annotation is set and one of its comma-separated entries, once
/// trimmed, is `ns` or the wildcard.
pub open spec fn allows_zone_namespace(inst: Bind9Instance, ns: Seq<char>) -> bool {
    match inst.metadata.annotations {
        None => false,
        Some(a) => match pairs_lookup(pairs_view(a), ANNOTATION_ALLOW_ZONE_NAMESPACES@) {
            None => false,
            Some(v) => some_entry_is(v, ALLOW_ZONE_NAMESPACES_WILDCARD@, ns),
        },
    }
}

/// Whether `instance` lets zones of `zone_namespace` target it from
/// another namespace.
pub fn instance_allows_zone_namespace(instance: &Bind9Instance, zone_namespace: &str) -> (r: bool)
    ensures
        r == allows_zone_namespace(*instance, zone_namespace@),
{
    match &instance.metadata.annotations {
        None => false,
        Some(a) => match lookup_pair(a, ANNOTATION_ALLOW_ZONE_NAMESPACES) {
            None => false,
            Some(v) => comma_list_contains_either(v.as_str(), ALLOW_ZONE_NAMESPACES_WILDCARD, zone_namespace),
        },
    }
}

/// Whether the labels of the instance match one of the zone's selectors
/// (an instance without labels or without namespace matches none).
pub open spec fn selected_by(sources: Seq<InstanceSource>, inst: Bind9Instance) -> bool {
    match inst.metadata.labels {
        None => false,
        Some(l) => inst.metadata.namespace is Some && exists|k: int|
            0 <= k < sources.len() && selector_matches((#[trigger] sources[k]).selector, pairs_view(l)),
    }
}

/// Whether a zone of namespace `ns` may use the instance: it lives in `ns`,
/// or its annotation admits `ns`.
pub open spec fn admitted(inst: Bind9Instance, ns: Seq<char>) -> bool {
    ||| inst.metadata.namespace->0@ == ns
    ||| allows_zone_namespace(inst, ns)
}

/// The reference a zone records for an instance it uses.
pub open spec fn instance_ref_for(inst: Bind9Instance) -> InstanceReferenceView {
    InstanceReferenceView {
        api_version: API_GROUP_VERSION@,
        kind: KIND_BIND9_INSTANCE@,
        name: spec_name_any(inst.metadata),
        namespace: inst.metadata.namespace->0@,
        last_reconciled_at: None,
    }
}

/// References to the instances, in order, that the selectors match and the
/// namespace gate admits.
pub open spec fn zone_instance_refs(
    sources: Seq<InstanceSource>,
    ns: Seq<char>,
    insts: Seq<Bind9Instance>,
) -> Seq<InstanceReferenceView>
    decreases insts.len(),
{
    if insts.len() == 0 {
        Seq::empty()
    } else {
        let rest = zone_instance_refs(sources, ns, insts.drop_last());
        if selected_by(sources, insts.last()) && admitted(insts.last(), ns) {
            rest.push(instance_ref_for(insts.last()))
        } else {
            rest
        }
    }
}

/// Some instance matches the selectors but the namespace gate refuses it.
pub open spec fn some_denied(sources: Seq<InstanceSource>, ns: Seq<char>, insts: Seq<Bind9Instance>) -> bool {
    exists|k: int| 0 <= k < insts.len() && selected_by(sources, #[trigger] insts[k]) && !admitted(insts[k], ns)
}

proof fn lemma_some_denied_step(sources: Seq<InstanceSource>, ns: Seq<char>, s: Seq<Bind9Instance>, i: int)
    requires
        0 <= i < s.len(),
    ensures
        some_denied(sources, ns, s.take(i + 1)) == (some_denied(sources, ns, s.take(i)) || (
        selected_by(sources, s[i]) && !admitted(s[i], ns))),
{
    let longer = s.take(i + 1);
    let shorter = s.take(i);
    if some_denied(sources, ns, shorter) {
        let k = choose|k: int| 0 <= k < shorter.len() && selected_by(sources, #[trigger] shorter[k]) && !admitted(shorter[k], ns);
        assert(longer[k] == shorter[k]);
    }
    if selected_by(sources, s[i]) && !admitted(s[i], ns) {
        assert(longer[i] == s[i]);
    }
    if some_denied(sources, ns, longer) {
        let k = choose|k: int| 0 <= k < longer.len() && selected_by(sources, #[trigger] longer[k]) && !admitted(longer[k], ns);
        if k < i {
            assert(longer[k] == shorter[k]);
        } else {
            assert(longer[k] == s[i]);
        }
    }
}

/// Why no instance could be found for a zone.
#[derive(Debug, PartialEq, Eq, Structural, Clone, Copy)]
pub enum ZoneInstancesError {
    /// The zone has no `bind9InstancesFrom` selectors.
    NoSelectors,
    /// No instance matches the selectors.
    NoMatchingInstances,
    /// Only instances of other namespaces match, and none admits the zone.
    OnlyCrossNamespaceMatches,
}

fn selected_by_exec(sources: &Vec<InstanceSource>, inst: &Bind9Instance) -> (r: bool)
    ensures
        r == selected_by(sources@, *inst),
{
    match &inst.metadata.labels {
        None => false,
        Some(l) => {
            if inst.metadata.namespace.is_none() {
                return false;
            }
            for k in 0..sources.len()
                invariant
                    inst.metadata.labels == Some(*l),
                    inst.metadata.namespace is Some,
                    forall|j: int| 0 <= j < k ==> !selector_matches((#[trigger] sources@[j]).selector, pairs_view(*l)),
            {
                if sources[k].selector.matches(l) {
                    assert(selector_matches(sources@[k as int].selector, pairs_view(*l)));
                    return true;
                }
            }
            false
        },
    }
}

/// The instances that serve `dnszone`, from the current `Bind9Instance`s.
///
/// An instance serves the zone when its labels match one of the zone's
/// `bind9InstancesFrom` selectors and it lives in the zone's namespace or
/// its annotation admits that namespace.
pub fn get_instances_from_zone(dnszone: &DNSZone, instances: &[Bind9Instance]) -> (r: Result<
    Vec<InstanceReference>,
    ZoneInstancesError,
>)
    ensures
        ({
            let srcs = dnszone.spec.bind9_instances_from;
            let ns = spec_namespace_or_default(dnszone.metadata);
            if srcs is None || srcs->0@.len() == 0 {
                r == Err::<Vec<InstanceReference>, ZoneInstancesError>(ZoneInstancesError::NoSelectors)
            } else {
                let found = zone_instance_refs(srcs->0@, ns, instances@);
                if found.len() > 0 {
                    r is Ok && r->Ok_0.deep_view() == found
                } else if some_denied(srcs->0@, ns, instances@) {
                    r == Err::<Vec<InstanceReference>, ZoneInstancesError>(
                        ZoneInstancesError::OnlyCrossNamespaceMatches,
                    )
                } else {
                    r == Err::<Vec<InstanceReference>, ZoneInstancesError>(
                        ZoneInstancesError::NoMatchingInstances,
                    )
                }
            }
        }),
{
    let sources: &Vec<InstanceSource> = match &dnszone.spec.bind9_instances_from {
        Some(s) => s,
        None => {
            return Err(ZoneInstancesError::NoSelectors);
        },
    };
    if sources.len() == 0 {
        return Err(ZoneInstancesError::NoSelectors);
    }
    let namespace = dnszone.metadata.namespace_or_default();
    let ghost ns = namespace@;
    let mut found: Vec<InstanceReference> = Vec::new();
    let mut denied: bool = false;
    for i in 0..instances.len()
        invariant
            ns == spec_namespace_or_default(dnszone.metadata),
            namespace@ == ns,
            dnszone.spec.bind9_instances_from == Some(*sources),
            found.deep_view() == zone_instance_refs(sources@, ns, instances@.take(i as int)),
            denied == some_denied(sources@, ns, instances@.take(i as int)),
    {
        let inst = &instances[i];
        let ghost prefix = instances@.take(i as int);
        assert(instances@.take(i + 1).drop_last() =~= prefix);
        assert(instances@.take(i + 1).last() == *inst);
        proof {
            lemma_some_denied_step(sources@, ns, instances@, i as int);
        }
        if selected_by_exec(sources, inst) {
            let inst_ns: &String = match &inst.metadata.namespace {
                Some(n) => n,
                None => {
                    assert(false);
                    return Err(ZoneInstancesError::NoMatchingInstances);
                },
            };
            if inst_ns.eq(&namespace) || instance_allows_zone_namespace(inst, namespace.as_str()) {
                let reference = InstanceReference {
                    api_version: to_owned_string(API_GROUP_VERSION),
                    kind: to_owned_string(KIND_BIND9_INSTANCE),
                    name: inst.metadata.name_any(),
                    namespace: inst_ns.clone(),
                    last_reconciled_at: None,
                };
                let ghost before = found.deep_view();
                found.push(reference);
                assert(found.deep_view() =~= before.push(instance_ref_for(*inst)));
            } else {
                assert(!admitted(*inst, ns));
                denied = true;
            }
        }
    }
    assert(instances@.take(instances.len() as int) =~= instances@);
    if found.len() > 0 {
        Ok(found)
    } else if denied {
        Err(ZoneInstancesError::OnlyCrossNamespaceMatches)
    } else {
        Err(ZoneInstancesError::NoMatchingInstances)
    }
}

// ---------------------------------------------------------------------------
// Duplicate zones
// ---------------------------------------------------------------------------

/// `(a1, a2) < (b1, b2)` in lexicographic order of strings.
pub open spec fn pair_lt(a1: Seq<char>, a2: Seq<char>, b1: Seq<char>, b2: Seq<char>) -> bool {
    ||| seq_lt(a1, b1)
    ||| (a1 == b1 && seq_lt(a2, b2))
}

/// Two zone resources are the same object.
pub open spec fn same_zone_object(a: DNSZone, b: DNSZone) -> bool {
    &&& spec_namespace_or_default(a.metadata) == spec_namespace_or_default(b.metadata)
    &&& spec_name_any(a.metadata) == spec_name_any(b.metadata)
}

/// Whether a zone has claimed its name on some instance: its status lists
/// an instance entry that is not failed.
pub open spec fn has_active_instance(z: DNSZone) -> bool {
    match z.status {
        Some(s) => exists|i: int|
            0 <= i < s.bind9_instances@.len() && (#[trigger] s.bind9_instances@[i]).status
                != InstanceStatus::Failed,
        None => false,
    }
}

/// Whether `other` is a conflict for `current`: another object claiming the
/// same zone name that holds it on at least one instance that is not failed.
pub open spec fn conflicts_with(current: DNSZone, other: DNSZone) -> bool {
    &&& !same_zone_object(other, current)
    &&& other.spec.zone_name@ == current.spec.zone_name@
    &&& has_active_instance(other)
}

/// `namespace/name` of each instance entry that is neither failed nor
/// unclaimed.
pub open spec fn live_instance_names(s: Seq<InstanceReferenceWithStatus>) -> Seq<Seq<char>>
    decreases s.len(),
{
    if s.len() == 0 {
        Seq::empty()
    } else {
        let rest = live_instance_names(s.drop_last());
        let e = s.last();
        if e.status != InstanceStatus::Failed && e.status != InstanceStatus::Unclaimed {
            rest.push(e.namespace@ + "/"@ + e.name@)
        } else {
            rest
        }
    }
}

/// How a conflicting zone is reported.
pub open spec fn conflict_view(other: DNSZone) -> ConflictingZoneView {
    ConflictingZoneView {
        name: spec_name_any(other.metadata),
        namespace: spec_namespace_or_default(other.metadata),
        instance_names: match other.status {
            Some(s) => live_instance_names(s.bind9_instances@),
            None => Seq::empty(),
        },
    }
}

/// The conflicts of `current` among `zones`, in order.
pub open spec fn zone_conflicts(current: DNSZone, zones: Seq<DNSZone>) -> Seq<ConflictingZoneView>
    decreases zones.len(),
{
    if zones.len() == 0 {
        Seq::empty()
    } else {
        let rest = zone_conflicts(current, zones.drop_last());
        if conflicts_with(current, zones.last()) {
            rest.push(conflict_view(zones.last()))
        } else {
            rest
        }
    }
}

fn qualified_name(namespace: &String, name: &String) -> (r: String)
    ensures
        r@ == namespace@ + "/"@ + name@,
{
    let head = concat(namespace.as_str(), "/");
    concat(head.as_str(), name.as_str())
}

fn live_names_exec(s: &Vec<InstanceReferenceWithStatus>) -> (r: Vec<String>)
    ensures
        r.deep_view() == live_instance_names(s@),
{
    let mut r: Vec<String> = Vec::new();
    for i in 0..s.len()
        invariant
            r.deep_view() == live_instance_names(s@.take(i as int)),
    {
        assert(s@.take(i + 1).drop_last() =~= s@.take(i as int));
        assert(s@.take(i + 1).last() == s@[i as int]);
        let e = &s[i];
        if e.status != InstanceStatus::Failed && e.status != InstanceStatus::Unclaimed {
            let ghost before = r.deep_view();
            r.push(qualified_name(&e.namespace, &e.name));
            assert(r.deep_view() =~= before.push(e.namespace@ + "/"@ + e.name@));
        }
    }
    assert(s@.take(s.len() as int) =~= s@);
    r
}

fn has_active_instance_exec(z: &DNSZone) -> (r: bool)
    ensures
        r == has_active_instance(*z),
{
    match &z.status {
        Some(s) => {
            for i in 0..s.bind9_instances.len()
                invariant
                    z.status == Some(*s),
                    forall|j: int|
                        0 <= j < i ==> (#[trigger] s.bind9_instances@[j]).status == InstanceStatus::Failed,
            {
                if s.bind9_instances[i].status != InstanceStatus::Failed {
                    return true;
                }
            }
            false
        },
        None => false,
    }
}

/// The other zones that already claim the zone name of `dnszone`, or
/// `None` when `dnszone` may use the name.
///
/// A zone is a conflict when it is another object with the same
/// `spec.zoneName` whose status lists at least one instance that is not
/// failed: a zone that holds the name nowhere does not block it.
pub fn check_for_duplicate_zones(dnszone: &DNSZone, zones: &[DNSZone]) -> (r: Option<DuplicateZoneInfo>)
    ensures
        ({
            let found = zone_conflicts(*dnszone, zones@);
            match r {
                None => found.len() == 0,
                Some(info) => found.len() > 0 && info@ == (DuplicateZoneInfoView {
                    zone_name: dnszone.spec.zone_name@,
                    conflicting_zones: found,
                }),
            }
        }),
{
    let current_namespace = dnszone.metadata.namespace_or_default();
    let current_name = dnszone.metadata.name_any();
    let mut conflicting: Vec<ConflictingZone> = Vec::new();
    for i in 0..zones.len()
        invariant
            current_namespace@ == spec_namespace_or_default(dnszone.metadata),
            current_name@ == spec_name_any(dnszone.metadata),
            conflicting.deep_view() == zone_conflicts(*dnszone, zones@.take(i as int)),
    {
        assert(zones@.take(i + 1).drop_last() =~= zones@.take(i as int));
        assert(zones@.take(i + 1).last() == zones@[i as int]);
        let other = &zones[i];
        let other_namespace = other.metadata.namespace_or_default();
        let other_name = other.metadata.name_any();
        let same = other_namespace.eq(&current_namespace) && other_name.eq(&current_name);
        if !same && other.spec.zone_name.eq(&dnszone.spec.zone_name) && has_active_instance_exec(other) {
            let instance_names = match &other.status {
                Some(s) => live_names_exec(&s.bind9_instances),
                None => Vec::new(),
            };
            let ghost before = conflicting.deep_view();
            let entry = ConflictingZone { name: other_name, namespace: other_namespace, instance_names };
            assert(entry@.instance_names =~= conflict_view(*other).instance_names);
            conflicting.push(entry);
            assert(conflicting.deep_view() =~= before.push(conflict_view(*other)));
        }
    }
    assert(zones@.take(zones.len() as int) =~= zones@);
    if conflicting.len() == 0 {
        None
    } else {
        let info = DuplicateZoneInfo { zone_name: dnszone.spec.zone_name.clone(), conflicting_zones: conflicting };
        Some(info)
    }
}

/// `namespace/name` of each zone that keeps the contested name, as the
/// duplicate-zone condition reports them.
pub fn conflicting_zone_refs(info: &DuplicateZoneInfo) -> (r: Vec<String>)
    ensures
        r.deep_view() == info@.conflicting_zones.map_values(
            |z: ConflictingZoneView| z.namespace + "/"@ + z.name,
        ),
{
    let mut r: Vec<String> = Vec::new();
    let ghost all = info@.conflicting_zones;
    for i in 0..info.conflicting_zones.len()
        invariant
            all == info@.conflicting_zones,
            r.deep_view() == all.take(i as int).map_values(
                |z: ConflictingZoneView| z.namespace + "/"@ + z.name,
            ),
    {
        let z = &info.conflicting_zones[i];
        let ghost before = r.deep_view();
        r.push(qualified_name(&z.namespace, &z.name));
        assert(all[i as int] == z@);
        assert(r.deep_view() =~= before.push(z.namespace@ + "/"@ + z.name@));
        assert(all.take(i + 1).map_values(|z: ConflictingZoneView| z.namespace + "/"@ + z.name)
            =~= all.take(i as int).map_values(|z: ConflictingZoneView| z.namespace + "/"@ + z.name).push(
            z.namespace@ + "/"@ + z.name@,
        ));
    }
    assert(all.take(info.conflicting_zones.len() as int) =~= all);
    r
}

// ---------------------------------------------------------------------------
// Instances still to configure
// ---------------------------------------------------------------------------

/// Never reconciled: the instance carries no reconciliation time.
pub open spec fn never_reconciled() -> spec_fn(InstanceReferenceView) -> bool {
    |i: InstanceReferenceView| i.last_reconciled_at is None
}

/// The instances that have never received the zone, in order.
pub fn filter_instances_needing_reconciliation(instances: &[InstanceReference]) -> (r: Vec<
    InstanceReference,
>)
    ensures
        r.deep_view() == instances@.map_values(|i: InstanceReference| i@).filter(never_reconciled()),
{
    let ghost all = instances@.map_values(|i: InstanceReference| i@);
    let ghost pred = never_reconciled();
    let mut r: Vec<InstanceReference> = Vec::new();
    assert(all.take(0).filter(pred) =~= Seq::<InstanceReferenceView>::empty());
    for i in 0..instances.len()
        invariant
            all == instances@.map_values(|i: InstanceReference| i@),
            pred == never_reconciled(),
            r.deep_view() == all.take(i as int).filter(pred),
    {
        assert(all.take(i + 1).drop_last() =~= all.take(i as int));
        assert(all[i as int] == instances@[i as int]@);
        reveal_with_fuel(Seq::<InstanceReferenceView>::filter, 1);
        if instances[i].last_reconciled_at.is_none() {
            let ghost before = r.deep_view();
            r.push(instances[i].clone());
            assert(r.deep_view() =~= before.push(all[i as int]));
        }
    }
    assert(all.take(instances.len() as int) =~= all);
    r
}

} // verus!
