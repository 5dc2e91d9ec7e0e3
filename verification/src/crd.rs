//! Data model of the custom resources the reconcilers read and write.
//!
//! Each type holds, as plain values, the fields the reconcilers read. Its view
//! replaces every string by its characters, so contracts compare contents.

use vstd::prelude::*;
use vstd::std_specs::cmp::PartialEqSpecImpl;
use crate::text::{copy_opt_string, opt_string_equal};

verus! {

// ---------------------------------------------------------------------------
// Conditions
// ---------------------------------------------------------------------------

/// A Kubernetes status condition.
#[derive(Debug, PartialEq)]
pub struct Condition {
    /// The aspect reported (for example `Ready`, `Degraded`, `Progressing`).
    pub condition_type: String,
    /// `True`, `False` or `Unknown`.
    pub status: String,
    /// Programmatic identifier in CamelCase.
    pub reason: Option<String>,
    /// Human-readable explanation.
    pub message: Option<String>,
    /// RFC 3339 time of the last status transition.
    pub last_transition_time: Option<String>,
}

/// Contents of a [`Condition`].
pub struct ConditionView {
    pub condition_type: Seq<char>,
    pub status: Seq<char>,
    pub reason: Option<Seq<char>>,
    pub message: Option<Seq<char>>,
    pub last_transition_time: Option<Seq<char>>,
}

impl View for Condition {
    type V = ConditionView;

    open spec fn view(&self) -> ConditionView {
        ConditionView {
            condition_type: self.condition_type@,
            status: self.status@,
            reason: self.reason.deep_view(),
            message: self.message.deep_view(),
            last_transition_time: self.last_transition_time.deep_view(),
        }
    }
}

impl DeepView for Condition {
    type V = ConditionView;

    open spec fn deep_view(&self) -> ConditionView {
        self@
    }
}

impl Clone for Condition {
    fn clone(&self) -> (r: Self)
        ensures
            r@ == self@,
    {
        Condition {
            condition_type: self.condition_type.clone(),
            status: self.status.clone(),
            reason: copy_opt_string(&self.reason),
            message: copy_opt_string(&self.message),
            last_transition_time: copy_opt_string(&self.last_transition_time),
        }
    }
}

/// Copy of a list of conditions.
pub fn copy_conditions(v: &Vec<Condition>) -> (r: Vec<Condition>)
    ensures
        r.deep_view() == v.deep_view(),
{
    let mut r: Vec<Condition> = Vec::new();
    for i in 0..v.len()
        invariant
            r.len() == i,
            i <= v.len(),
            forall|j: int| 0 <= j < i ==> #[trigger] r@[j]@ == v@[j]@,
    {
        r.push(v[i].clone());
    }
    assert(r.deep_view() =~= v.deep_view());
    r
}

// ---------------------------------------------------------------------------
// Instance references
// ---------------------------------------------------------------------------

/// Reference to a `Bind9Instance` serving a zone.
///
/// Two references are equal when they name the same object: the
/// reconciliation timestamp takes no part in `==`.
#[derive(Debug)]
pub struct InstanceReference {
    pub api_version: String,
    pub kind: String,
    pub name: String,
    pub namespace: String,
    /// RFC 3339 time the instance last received the zone, if ever.
    pub last_reconciled_at: Option<String>,
}

/// Contents of an [`InstanceReference`].
pub struct InstanceReferenceView {
    pub api_version: Seq<char>,
    pub kind: Seq<char>,
    pub name: Seq<char>,
    pub namespace: Seq<char>,
    pub last_reconciled_at: Option<Seq<char>>,
}

impl View for InstanceReference {
    type V = InstanceReferenceView;

    open spec fn view(&self) -> InstanceReferenceView {
        InstanceReferenceView {
            api_version: self.api_version@,
            kind: self.kind@,
            name: self.name@,
            namespace: self.namespace@,
            last_reconciled_at: self.last_reconciled_at.deep_view(),
        }
    }
}

impl DeepView for InstanceReference {
    type V = InstanceReferenceView;

    open spec fn deep_view(&self) -> InstanceReferenceView {
        self@
    }
}

/// Two instance references name the same object.
pub open spec fn same_instance(a: InstanceReferenceView, b: InstanceReferenceView) -> bool {
    &&& a.api_version == b.api_version
    &&& a.kind == b.kind
    &&& a.name == b.name
    &&& a.namespace == b.namespace
}

impl Clone for InstanceReference {
    fn clone(&self) -> (r: Self)
        ensures
            r@ == self@,
    {
        InstanceReference {
            api_version: self.api_version.clone(),
            kind: self.kind.clone(),
            name: self.name.clone(),
            namespace: self.namespace.clone(),
            last_reconciled_at: copy_opt_string(&self.last_reconciled_at),
        }
    }
}

impl PartialEq for InstanceReference {
    fn eq(&self, other: &Self) -> (r: bool) {
        self.api_version == other.api_version && self.kind == other.kind && self.name
            == other.name && self.namespace == other.namespace
    }
}

impl PartialEqSpecImpl for InstanceReference {
    open spec fn obeys_eq_spec() -> bool {
        true
    }

    open spec fn eq_spec(&self, other: &Self) -> bool {
        same_instance(self@, other@)
    }
}

impl Eq for InstanceReference {}

/// Progress of a zone on one instance, as recorded in the zone's status.
#[derive(Debug, PartialEq, Eq, Structural, Clone, Copy)]
pub enum InstanceStatus {
    /// The zone selected the instance; it has not been configured yet.
    Claimed,
    /// The zone was pushed to the instance.
    Configured,
    /// Pushing the zone to the instance failed.
    Failed,
    /// The instance no longer serves the zone.
    Unclaimed,
}

/// An instance reference together with the zone's progress on it.
#[derive(Debug, PartialEq)]
pub struct InstanceReferenceWithStatus {
    pub api_version: String,
    pub kind: String,
    pub name: String,
    pub namespace: String,
    pub status: InstanceStatus,
    pub last_reconciled_at: Option<String>,
    pub message: Option<String>,
}

/// Contents of an [`InstanceReferenceWithStatus`].
pub struct InstanceReferenceWithStatusView {
    pub api_version: Seq<char>,
    pub kind: Seq<char>,
    pub name: Seq<char>,
    pub namespace: Seq<char>,
    pub status: InstanceStatus,
    pub last_reconciled_at: Option<Seq<char>>,
    pub message: Option<Seq<char>>,
}

impl View for InstanceReferenceWithStatus {
    type V = InstanceReferenceWithStatusView;

    open spec fn view(&self) -> InstanceReferenceWithStatusView {
        InstanceReferenceWithStatusView {
            api_version: self.api_version@,
            kind: self.kind@,
            name: self.name@,
            namespace: self.namespace@,
            status: self.status,
            last_reconciled_at: self.last_reconciled_at.deep_view(),
            message: self.message.deep_view(),
        }
    }
}

impl DeepView for InstanceReferenceWithStatus {
    type V = InstanceReferenceWithStatusView;

    open spec fn deep_view(&self) -> InstanceReferenceWithStatusView {
        self@
    }
}

impl Clone for InstanceReferenceWithStatus {
    fn clone(&self) -> (r: Self)
        ensures
            r@ == self@,
    {
        InstanceReferenceWithStatus {
            api_version: self.api_version.clone(),
            kind: self.kind.clone(),
            name: self.name.clone(),
            namespace: self.namespace.clone(),
            status: self.status,
            last_reconciled_at: copy_opt_string(&self.last_reconciled_at),
            message: copy_opt_string(&self.message),
        }
    }
}

/// Field-wise equality of two instance entries of a zone's status.
pub fn instance_with_status_equal(
    a: &InstanceReferenceWithStatus,
    b: &InstanceReferenceWithStatus,
) -> (r: bool)
    ensures
        r == (a@ == b@),
{
    a.api_version == b.api_version && a.kind == b.kind && a.name == b.name && a.namespace
        == b.namespace && a.status == b.status && opt_string_equal(
        &a.last_reconciled_at,
        &b.last_reconciled_at,
    ) && opt_string_equal(&a.message, &b.message)
}

/// Copy of a list of instance entries.
pub fn copy_instances_with_status(v: &Vec<InstanceReferenceWithStatus>) -> (r: Vec<
    InstanceReferenceWithStatus,
>)
    ensures
        r.deep_view() == v.deep_view(),
{
    let mut r: Vec<InstanceReferenceWithStatus> = Vec::new();
    for i in 0..v.len()
        invariant
            r.len() == i,
            i <= v.len(),
            forall|j: int| 0 <= j < i ==> #[trigger] r@[j]@ == v@[j]@,
    {
        r.push(v[i].clone());
    }
    assert(r.deep_view() =~= v.deep_view());
    r
}

/// Element-wise equality of two lists of instance entries.
pub fn instances_with_status_equal(
    a: &Vec<InstanceReferenceWithStatus>,
    b: &Vec<InstanceReferenceWithStatus>,
) -> (r: bool)
    ensures
        r == (a.deep_view() == b.deep_view()),
{
    if a.len() != b.len() {
        assert(a.deep_view().len() != b.deep_view().len());
        return false;
    }
    for i in 0..a.len()
        invariant
            a.len() == b.len(),
            forall|j: int| 0 <= j < i ==> #[trigger] a@[j]@ == b@[j]@,
    {
        if !instance_with_status_equal(&a[i], &b[i]) {
            assert(a.deep_view()[i as int] != b.deep_view()[i as int]);
            return false;
        }
    }
    assert(a.deep_view() =~= b.deep_view());
    true
}

// ---------------------------------------------------------------------------
// Record references
// ---------------------------------------------------------------------------

/// Reference to a DNS record resource selected by a zone.
#[derive(Debug, PartialEq, Clone)]
pub struct RecordReference {
    pub api_version: String,
    pub kind: String,
    pub name: String,
    pub namespace: String,
}

/// Reference to a DNS record selected by a zone, with its DNS name and the
/// time the record was last pushed to BIND9.
#[derive(Debug, PartialEq)]
pub struct RecordReferenceWithTimestamp {
    pub api_version: String,
    pub kind: String,
    pub name: String,
    pub namespace: String,
    /// The record's `spec.name` (its name inside the zone).
    pub record_name: Option<String>,
    /// RFC 3339 time the record was last reconciled to BIND9.
    pub last_reconciled_at: Option<String>,
}

/// Contents of a [`RecordReferenceWithTimestamp`].
pub struct RecordReferenceView {
    pub api_version: Seq<char>,
    pub kind: Seq<char>,
    pub name: Seq<char>,
    pub namespace: Seq<char>,
    pub record_name: Option<Seq<char>>,
    pub last_reconciled_at: Option<Seq<char>>,
}

impl View for RecordReferenceWithTimestamp {
    type V = RecordReferenceView;

    open spec fn view(&self) -> RecordReferenceView {
        RecordReferenceView {
            api_version: self.api_version@,
            kind: self.kind@,
            name: self.name@,
            namespace: self.namespace@,
            record_name: self.record_name.deep_view(),
            last_reconciled_at: self.last_reconciled_at.deep_view(),
        }
    }
}

impl DeepView for RecordReferenceWithTimestamp {
    type V = RecordReferenceView;

    open spec fn deep_view(&self) -> RecordReferenceView {
        self@
    }
}

impl Clone for RecordReferenceWithTimestamp {
    fn clone(&self) -> (r: Self)
        ensures
            r@ == self@,
    {
        RecordReferenceWithTimestamp {
            api_version: self.api_version.clone(),
            kind: self.kind.clone(),
            name: self.name.clone(),
            namespace: self.namespace.clone(),
            record_name: copy_opt_string(&self.record_name),
            last_reconciled_at: copy_opt_string(&self.last_reconciled_at),
        }
    }
}

/// Field-wise equality of two record references.
pub fn record_ref_equal(a: &RecordReferenceWithTimestamp, b: &RecordReferenceWithTimestamp) -> (r:
    bool)
    ensures
        r == (a@ == b@),
{
    a.api_version == b.api_version && a.kind == b.kind && a.name == b.name && a.namespace
        == b.namespace && opt_string_equal(&a.record_name, &b.record_name) && opt_string_equal(
        &a.last_reconciled_at,
        &b.last_reconciled_at,
    )
}

/// Copy of a list of record references.
pub fn copy_record_refs(v: &Vec<RecordReferenceWithTimestamp>) -> (r: Vec<
    RecordReferenceWithTimestamp,
>)
    ensures
        r.deep_view() == v.deep_view(),
{
    let mut r: Vec<RecordReferenceWithTimestamp> = Vec::new();
    for i in 0..v.len()
        invariant
            r.len() == i,
            i <= v.len(),
            forall|j: int| 0 <= j < i ==> #[trigger] r@[j]@ == v@[j]@,
    {
        r.push(v[i].clone());
    }
    assert(r.deep_view() =~= v.deep_view());
    r
}

/// Element-wise equality of two lists of record references.
pub fn record_refs_equal(
    a: &Vec<RecordReferenceWithTimestamp>,
    b: &Vec<RecordReferenceWithTimestamp>,
) -> (r: bool)
    ensures
        r == (a.deep_view() == b.deep_view()),
{
    if a.len() != b.len() {
        assert(a.deep_view().len() != b.deep_view().len());
        return false;
    }
    for i in 0..a.len()
        invariant
            a.len() == b.len(),
            forall|j: int| 0 <= j < i ==> #[trigger] a@[j]@ == b@[j]@,
    {
        if !record_ref_equal(&a[i], &b[i]) {
            assert(a.deep_view()[i as int] != b.deep_view()[i as int]);
            return false;
        }
    }
    assert(a.deep_view() =~= b.deep_view());
    true
}

// ---------------------------------------------------------------------------
// Zone status
// ---------------------------------------------------------------------------

/// Status of a `DNSZone`.
#[derive(Debug, PartialEq)]
pub struct DNSZoneStatus {
    pub observed_generation: Option<i64>,
    /// Instances serving the zone, with the zone's progress on each.
    pub bind9_instances: Vec<InstanceReferenceWithStatus>,
    /// Number of entries of `bind9_instances`.
    pub bind9_instances_count: Option<i32>,
    pub conditions: Vec<Condition>,
    /// Records selected by the zone.
    pub records: Vec<RecordReferenceWithTimestamp>,
    /// Number of entries of `records`.
    pub records_count: i32,
}

/// Contents of a [`DNSZoneStatus`].
pub struct DNSZoneStatusView {
    pub observed_generation: Option<i64>,
    pub bind9_instances: Seq<InstanceReferenceWithStatusView>,
    pub bind9_instances_count: Option<i32>,
    pub conditions: Seq<ConditionView>,
    pub records: Seq<RecordReferenceView>,
    pub records_count: i32,
}

impl View for DNSZoneStatus {
    type V = DNSZoneStatusView;

    open spec fn view(&self) -> DNSZoneStatusView {
        DNSZoneStatusView {
            observed_generation: self.observed_generation,
            bind9_instances: self.bind9_instances.deep_view(),
            bind9_instances_count: self.bind9_instances_count,
            conditions: self.conditions.deep_view(),
            records: self.records.deep_view(),
            records_count: self.records_count,
        }
    }
}

impl DeepView for DNSZoneStatus {
    type V = DNSZoneStatusView;

    open spec fn deep_view(&self) -> DNSZoneStatusView {
        self@
    }
}

impl DNSZoneStatus {
    /// The status of a zone that has never been reconciled.
    pub open spec fn empty_view() -> DNSZoneStatusView {
        DNSZoneStatusView {
            observed_generation: None,
            bind9_instances: Seq::empty(),
            bind9_instances_count: None,
            conditions: Seq::empty(),
            records: Seq::empty(),
            records_count: 0,
        }
    }
}

impl Default for DNSZoneStatus {
    fn default() -> (r: Self)
        ensures
            r@ == DNSZoneStatus::empty_view(),
    {
        let r = DNSZoneStatus {
            observed_generation: None,
            bind9_instances: Vec::new(),
            bind9_instances_count: None,
            conditions: Vec::new(),
            records: Vec::new(),
            records_count: 0,
        };
        assert(r@.bind9_instances =~= Seq::empty());
        assert(r@.conditions =~= Seq::empty());
        assert(r@.records =~= Seq::empty());
        r
    }
}

impl Clone for DNSZoneStatus {
    fn clone(&self) -> (r: Self)
        ensures
            r@ == self@,
    {
        DNSZoneStatus {
            observed_generation: self.observed_generation,
            bind9_instances: copy_instances_with_status(&self.bind9_instances),
            bind9_instances_count: self.bind9_instances_count,
            conditions: copy_conditions(&self.conditions),
            records: copy_record_refs(&self.records),
            records_count: self.records_count,
        }
    }
}


// ---------------------------------------------------------------------------
// Object metadata and labels
// ---------------------------------------------------------------------------

/// Key/value pairs such as labels or annotations, in the order given.
pub type StringPairs = Vec<(String, String)>;

/// Contents of a [`StringPairs`] list.
pub open spec fn pairs_view(v: StringPairs) -> Seq<(Seq<char>, Seq<char>)> {
    v@.map_values(|p: (String, String)| (p.0@, p.1@))
}

/// The value the first pair with key `k` holds, if any.
pub open spec fn pairs_lookup(v: Seq<(Seq<char>, Seq<char>)>, k: Seq<char>) -> Option<Seq<char>>
    decreases v.len(),
{
    if v.len() == 0 {
        None
    } else if v[0].0 == k {
        Some(v[0].1)
    } else {
        pairs_lookup(v.drop_first(), k)
    }
}

/// Value of the first pair with key `key`, if any.
pub fn lookup_pair<'a>(pairs: &'a StringPairs, key: &str) -> (r: Option<&'a String>)
    ensures
        match r {
            Some(v) => pairs_lookup(pairs_view(*pairs), key@) == Some(v@),
            None => pairs_lookup(pairs_view(*pairs), key@) is None,
        },
{
    let ghost pv = pairs_view(*pairs);
    assert(pv.skip(0) =~= pv);
    let mut i: usize = 0;
    while i < pairs.len()
        invariant
            i <= pairs.len(),
            pv == pairs_view(*pairs),
            pairs_lookup(pv, key@) == pairs_lookup(pv.skip(i as int), key@),
        decreases pairs.len() - i,
    {
        assert(pv.skip(i as int).drop_first() =~= pv.skip(i + 1));
        assert(pv.skip(i as int)[0] == pv[i as int]);
        assert(pv[i as int] == (pairs@[i as int].0@, pairs@[i as int].1@));
        if crate::text::str_equal(pairs[i].0.as_str(), key) {
            return Some(&pairs[i].1);
        }
        i = i + 1;
    }
    None
}

/// Metadata of a Kubernetes object, as far as the reconcilers read it.
#[derive(Debug, PartialEq, Default)]
pub struct ObjectMeta {
    pub name: Option<String>,
    pub generate_name: Option<String>,
    pub namespace: Option<String>,
    /// Incremented by the API server on every spec change.
    pub generation: Option<i64>,
    /// Creation time, in seconds since the Unix epoch.
    pub creation_timestamp: Option<i64>,
    /// Deletion time, in seconds since the Unix epoch, once deletion began.
    pub deletion_timestamp: Option<i64>,
    pub labels: Option<StringPairs>,
    pub annotations: Option<StringPairs>,
    pub finalizers: Option<Vec<String>>,
    /// Version of the object for optimistic concurrency.
    pub resource_version: Option<String>,
}

/// The name kube's `name_any` reports: the name, else the generate-name
/// prefix, else the empty string.
pub open spec fn spec_name_any(meta: ObjectMeta) -> Seq<char> {
    match meta.name {
        Some(n) => n@,
        None => match meta.generate_name {
            Some(g) => g@,
            None => Seq::empty(),
        },
    }
}

/// The namespace, or the empty string when there is none.
pub open spec fn spec_namespace_or_default(meta: ObjectMeta) -> Seq<char> {
    match meta.namespace {
        Some(n) => n@,
        None => Seq::empty(),
    }
}

impl ObjectMeta {
    /// The object's name, else its generate-name prefix, else `""`.
    pub fn name_any(&self) -> (r: String)
        ensures
            r@ == spec_name_any(*self),
    {
        match &self.name {
            Some(n) => n.clone(),
            None => match &self.generate_name {
                Some(g) => g.clone(),
                None => String::new(),
            },
        }
    }

    /// The object's namespace, or `""`.
    pub fn namespace_or_default(&self) -> (r: String)
        ensures
            r@ == spec_namespace_or_default(*self),
    {
        match &self.namespace {
            Some(n) => n.clone(),
            None => String::new(),
        }
    }
}

// ---------------------------------------------------------------------------
// Label selectors
// ---------------------------------------------------------------------------

/// One requirement of a label selector: `operator` is one of `In`,
/// `NotIn`, `Exists` and `DoesNotExist`.
#[derive(Debug, PartialEq)]
pub struct LabelSelectorRequirement {
    pub key: String,
    pub operator: String,
    pub values: Option<Vec<String>>,
}

/// A Kubernetes label selector.
#[derive(Debug, PartialEq, Default)]
pub struct LabelSelector {
    pub match_labels: Option<StringPairs>,
    pub match_expressions: Option<Vec<LabelSelectorRequirement>>,
}

/// Whether `values` holds `v`.
pub open spec fn strings_contain(values: Seq<String>, v: Seq<char>) -> bool {
    exists|i: int| 0 <= i < values.len() && #[trigger] values[i]@ == v
}

/// Whether the labels satisfy one selector requirement.
pub open spec fn requirement_holds(req: LabelSelectorRequirement, labels: Seq<(Seq<char>, Seq<char>)>) -> bool {
    let found = pairs_lookup(labels, req.key@);
    let values = match req.values {
        Some(v) => v@,
        None => Seq::empty(),
    };
    if req.operator@ == "In"@ {
        match found {
            Some(v) => strings_contain(values, v),
            None => false,
        }
    } else if req.operator@ == "NotIn"@ {
        match found {
            Some(v) => !strings_contain(values, v),
            None => true,
        }
    } else if req.operator@ == "Exists"@ {
        found is Some
    } else if req.operator@ == "DoesNotExist"@ {
        found is None
    } else {
        false
    }
}

/// Whether the labels satisfy the selector: every `matchLabels` pair is
/// present with the same value, and every `matchExpressions` requirement
/// holds. An empty selector selects everything.
pub open spec fn selector_matches(sel: LabelSelector, labels: Seq<(Seq<char>, Seq<char>)>) -> bool {
    &&& match sel.match_labels {
        Some(ml) => forall|i: int|
            0 <= i < ml@.len() ==> pairs_lookup(labels, #[trigger] ml@[i].0@) == Some(ml@[i].1@),
        None => true,
    }
    &&& match sel.match_expressions {
        Some(me) => forall|i: int| 0 <= i < me@.len() ==> requirement_holds(#[trigger] me@[i], labels),
        None => true,
    }
}

fn strings_contain_exec(values: &Vec<String>, v: &String) -> (r: bool)
    ensures
        r == strings_contain(values@, v@),
{
    for i in 0..values.len()
        invariant
            forall|j: int| 0 <= j < i ==> values@[j]@ != v@,
    {
        if values[i].eq(v) {
            return true;
        }
    }
    false
}

fn requirement_holds_exec(req: &LabelSelectorRequirement, labels: &StringPairs) -> (r: bool)
    ensures
        r == requirement_holds(*req, pairs_view(*labels)),
{
    proof {
        reveal_strlit("In");
        reveal_strlit("NotIn");
        reveal_strlit("Exists");
        reveal_strlit("DoesNotExist");
    }
    let found = lookup_pair(labels, req.key.as_str());
    let empty: Vec<String> = Vec::new();
    let values: &Vec<String> = match &req.values {
        Some(v) => v,
        None => &empty,
    };
    assert(values@ == match req.values { Some(v) => v@, None => Seq::<String>::empty() });
    let op = req.operator.as_str();
    if crate::text::str_equal(op, "In") {
        match found {
            Some(v) => strings_contain_exec(values, v),
            None => false,
        }
    } else if crate::text::str_equal(op, "NotIn") {
        match found {
            Some(v) => !strings_contain_exec(values, v),
            None => true,
        }
    } else if crate::text::str_equal(op, "Exists") {
        found.is_some()
    } else if crate::text::str_equal(op, "DoesNotExist") {
        found.is_none()
    } else {
        false
    }
}

impl LabelSelector {
    /// Whether the labels satisfy this selector.
    #[verifier::loop_isolation(false)]
    pub fn matches(&self, labels: &StringPairs) -> (r: bool)
        ensures
            r == selector_matches(*self, pairs_view(*labels)),
    {
        if let Some(ml) = &self.match_labels {
            assert(self.match_labels == Some(*ml));
            for i in 0..ml.len()
                invariant
                    forall|j: int|
                        0 <= j < i ==> pairs_lookup(pairs_view(*labels), #[trigger] ml@[j].0@) == Some(
                            ml@[j].1@,
                        ),
            {
                let found = lookup_pair(labels, ml[i].0.as_str());
                match found {
                    Some(v) => {
                        if !v.eq(&ml[i].1) {
                            assert(pairs_lookup(pairs_view(*labels), ml@[i as int].0@) != Some(
                                ml@[i as int].1@,
                            ));
                            return false;
                        }
                    },
                    None => {
                        assert(pairs_lookup(pairs_view(*labels), ml@[i as int].0@) != Some(
                            ml@[i as int].1@,
                        ));
                        return false;
                    },
                }
            }
        }
        if let Some(me) = &self.match_expressions {
            assert(self.match_expressions == Some(*me));
            for i in 0..me.len()
                invariant
                    forall|j: int| 0 <= j < i ==> requirement_holds(#[trigger] me@[j], pairs_view(*labels)),
            {
                if !requirement_holds_exec(&me[i], labels) {
                    assert(!requirement_holds(me@[i as int], pairs_view(*labels)));
                    return false;
                }
            }
        }
        true
    }
}


// ---------------------------------------------------------------------------
// Zones and instances
// ---------------------------------------------------------------------------

/// Start-of-authority data of a zone.
#[derive(Debug, PartialEq, Clone)]
pub struct SOARecord {
    pub primary_ns: String,
    pub admin_email: String,
    pub serial: i64,
    pub refresh: i32,
    pub retry: i32,
    pub expire: i32,
    pub negative_ttl: i32,
}

/// An authoritative name server of a zone.
#[derive(Debug, PartialEq, Clone)]
pub struct NameServer {
    pub hostname: String,
    pub ipv4_address: Option<String>,
    pub ipv6_address: Option<String>,
}

/// A label selector naming records that belong to a zone.
#[derive(Debug, PartialEq, Default)]
pub struct RecordSource {
    pub selector: LabelSelector,
}

/// A label selector naming `Bind9Instance`s that serve a zone.
#[derive(Debug, PartialEq, Default)]
pub struct InstanceSource {
    pub selector: LabelSelector,
}

/// Desired state of a `DNSZone`.
#[derive(Debug, PartialEq)]
pub struct DNSZoneSpec {
    /// Fully qualified name of the zone, e.g. `example.com`.
    pub zone_name: String,
    pub cluster_ref: Option<String>,
    pub soa_record: SOARecord,
    pub ttl: Option<i32>,
    pub name_servers: Option<Vec<NameServer>>,
    /// Host name to IPv4 address, the older form of `name_servers`.
    pub name_server_ips: Option<StringPairs>,
    pub records_from: Option<Vec<RecordSource>>,
    pub bind9_instances_from: Option<Vec<InstanceSource>>,
}

/// A DNS zone resource.
#[derive(Debug, PartialEq)]
pub struct DNSZone {
    pub metadata: ObjectMeta,
    pub spec: DNSZoneSpec,
    pub status: Option<DNSZoneStatus>,
}

/// Role of a BIND9 instance.
#[derive(Debug, PartialEq, Eq, Structural, Clone, Copy)]
pub enum ServerRole {
    Primary,
    Secondary,
}

/// Desired state of a `Bind9Instance`, as far as zones read it.
#[derive(Debug, PartialEq)]
pub struct Bind9InstanceSpec {
    /// Name of the cluster the instance belongs to.
    pub cluster_ref: String,
    pub role: ServerRole,
}

/// A BIND9 server instance resource.
#[derive(Debug, PartialEq)]
pub struct Bind9Instance {
    pub metadata: ObjectMeta,
    pub spec: Bind9InstanceSpec,
}

/// Zone ownership written into a record's status by the zone that selected it.
#[derive(Debug, PartialEq)]
pub struct ZoneReference {
    pub api_version: String,
    pub kind: String,
    /// Name of the `DNSZone` resource.
    pub name: String,
    pub namespace: String,
    /// Fully qualified name of the zone.
    pub zone_name: String,
    pub last_reconciled_at: Option<String>,
}

/// Contents of a [`ZoneReference`].
pub struct ZoneReferenceView {
    pub api_version: Seq<char>,
    pub kind: Seq<char>,
    pub name: Seq<char>,
    pub namespace: Seq<char>,
    pub zone_name: Seq<char>,
    pub last_reconciled_at: Option<Seq<char>>,
}

impl View for ZoneReference {
    type V = ZoneReferenceView;

    open spec fn view(&self) -> ZoneReferenceView {
        ZoneReferenceView {
            api_version: self.api_version@,
            kind: self.kind@,
            name: self.name@,
            namespace: self.namespace@,
            zone_name: self.zone_name@,
            last_reconciled_at: self.last_reconciled_at.deep_view(),
        }
    }
}

impl DeepView for ZoneReference {
    type V = ZoneReferenceView;

    open spec fn deep_view(&self) -> ZoneReferenceView {
        self@
    }
}

impl Clone for ZoneReference {
    fn clone(&self) -> (r: Self)
        ensures
            r@ == self@,
    {
        ZoneReference {
            api_version: self.api_version.clone(),
            kind: self.kind.clone(),
            name: self.name.clone(),
            namespace: self.namespace.clone(),
            zone_name: self.zone_name.clone(),
            last_reconciled_at: copy_opt_string(&self.last_reconciled_at),
        }
    }
}

/// Status of a DNS record resource.
#[derive(Debug, PartialEq, Default)]
pub struct RecordStatus {
    pub conditions: Vec<Condition>,
    pub observed_generation: Option<i64>,
    /// Deprecated zone name field.
    pub zone: Option<String>,
    /// Zone that selected the record.
    pub zone_ref: Option<ZoneReference>,
    /// Hash of the spec last written to BIND9.
    pub record_hash: Option<String>,
    /// RFC 3339 time of the last successful write.
    pub last_updated: Option<String>,
    /// Display form of the addresses (A and AAAA records).
    pub addresses: Option<String>,
    /// DNS name the record was last written under.
    pub published_name: Option<String>,
}

// ---------------------------------------------------------------------------
// Record specifications
// ---------------------------------------------------------------------------

/// An IPv4 address record.
#[derive(Debug, PartialEq, Clone)]
pub struct ARecordSpec {
    pub name: String,
    pub ipv4_address: String,
    pub ttl: Option<i32>,
}

/// An IPv6 address record.
#[derive(Debug, PartialEq, Clone)]
pub struct AAAARecordSpec {
    pub name: String,
    pub ipv6_address: String,
    pub ttl: Option<i32>,
}

/// A canonical name record.
#[derive(Debug, PartialEq, Clone)]
pub struct CNAMERecordSpec {
    pub name: String,
    pub target: String,
    pub ttl: Option<i32>,
}

/// A text record.
#[derive(Debug, PartialEq, Clone)]
pub struct TXTRecordSpec {
    pub name: String,
    pub text: Vec<String>,
    pub ttl: Option<i32>,
}

/// A mail exchange record.
#[derive(Debug, PartialEq, Clone)]
pub struct MXRecordSpec {
    pub name: String,
    pub priority: i32,
    pub mail_server: String,
    pub ttl: Option<i32>,
}

/// A name server record.
#[derive(Debug, PartialEq, Clone)]
pub struct NSRecordSpec {
    pub name: String,
    pub nameserver: String,
    pub ttl: Option<i32>,
}

/// A service location record.
#[derive(Debug, PartialEq, Clone)]
pub struct SRVRecordSpec {
    pub name: String,
    pub priority: i32,
    pub weight: i32,
    pub port: i32,
    pub target: String,
    pub ttl: Option<i32>,
}

/// A certificate authority authorization record.
#[derive(Debug, PartialEq, Clone)]
pub struct CAARecordSpec {
    pub name: String,
    pub flags: i32,
    pub tag: String,
    pub value: String,
    pub ttl: Option<i32>,
}

/// Data of a service location record as written to BIND9.
#[derive(Debug, PartialEq, Clone)]
pub struct SRVRecordData {
    pub priority: i32,
    pub weight: i32,
    pub port: i32,
    pub target: String,
    pub ttl: Option<i32>,
}

/// The DNS record kinds the operator manages.
#[derive(Debug, PartialEq, Eq, Structural, Clone, Copy)]
pub enum DNSRecordKind {
    A,
    AAAA,
    TXT,
    CNAME,
    MX,
    NS,
    SRV,
    CAA,
}

/// The resource kind of each record kind, e.g. `ARecord`.
pub open spec fn kind_name(k: DNSRecordKind) -> Seq<char> {
    match k {
        DNSRecordKind::A => "ARecord"@,
        DNSRecordKind::AAAA => "AAAARecord"@,
        DNSRecordKind::TXT => "TXTRecord"@,
        DNSRecordKind::CNAME => "CNAMERecord"@,
        DNSRecordKind::MX => "MXRecord"@,
        DNSRecordKind::NS => "NSRecord"@,
        DNSRecordKind::SRV => "SRVRecord"@,
        DNSRecordKind::CAA => "CAARecord"@,
    }
}

/// The record kind whose resource kind is `s`, if any.
pub open spec fn kind_from_name(s: Seq<char>) -> Option<DNSRecordKind> {
    if s == "ARecord"@ {
        Some(DNSRecordKind::A)
    } else if s == "AAAARecord"@ {
        Some(DNSRecordKind::AAAA)
    } else if s == "TXTRecord"@ {
        Some(DNSRecordKind::TXT)
    } else if s == "CNAMERecord"@ {
        Some(DNSRecordKind::CNAME)
    } else if s == "MXRecord"@ {
        Some(DNSRecordKind::MX)
    } else if s == "NSRecord"@ {
        Some(DNSRecordKind::NS)
    } else if s == "SRVRecord"@ {
        Some(DNSRecordKind::SRV)
    } else if s == "CAARecord"@ {
        Some(DNSRecordKind::CAA)
    } else {
        None
    }
}

impl DNSRecordKind {
    /// The resource kind, e.g. `ARecord`.
    pub fn as_str(&self) -> (r: &'static str)
        ensures
            r@ == kind_name(*self),
    {
        match self {
            DNSRecordKind::A => "ARecord",
            DNSRecordKind::AAAA => "AAAARecord",
            DNSRecordKind::TXT => "TXTRecord",
            DNSRecordKind::CNAME => "CNAMERecord",
            DNSRecordKind::MX => "MXRecord",
            DNSRecordKind::NS => "NSRecord",
            DNSRecordKind::SRV => "SRVRecord",
            DNSRecordKind::CAA => "CAARecord",
        }
    }

    /// The record kind named by a resource kind; `None` for any other text.
    pub fn from_kind(kind: &str) -> (r: Option<DNSRecordKind>)
        ensures
            r == kind_from_name(kind@),
    {
        if crate::text::str_equal(kind, "ARecord") {
            Some(DNSRecordKind::A)
        } else if crate::text::str_equal(kind, "AAAARecord") {
            Some(DNSRecordKind::AAAA)
        } else if crate::text::str_equal(kind, "TXTRecord") {
            Some(DNSRecordKind::TXT)
        } else if crate::text::str_equal(kind, "CNAMERecord") {
            Some(DNSRecordKind::CNAME)
        } else if crate::text::str_equal(kind, "MXRecord") {
            Some(DNSRecordKind::MX)
        } else if crate::text::str_equal(kind, "NSRecord") {
            Some(DNSRecordKind::NS)
        } else if crate::text::str_equal(kind, "SRVRecord") {
            Some(DNSRecordKind::SRV)
        } else if crate::text::str_equal(kind, "CAARecord") {
            Some(DNSRecordKind::CAA)
        } else {
            None
        }
    }
}

/// Parsing the name of a record kind gives the kind back, and a kind is
/// parsed only from its own name: names and kinds are in one-to-one
/// correspondence.
pub proof fn lemma_kind_name_round_trip(k: DNSRecordKind, s: Seq<char>)
    ensures
        kind_from_name(kind_name(k)) == Some(k),
        kind_from_name(s) == Some(k) ==> s == kind_name(k),
{
    reveal_strlit("ARecord");
    reveal_strlit("AAAARecord");
    reveal_strlit("TXTRecord");
    reveal_strlit("CNAMERecord");
    reveal_strlit("MXRecord");
    reveal_strlit("NSRecord");
    reveal_strlit("SRVRecord");
    reveal_strlit("CAARecord");
    assert("ARecord"@.len() == 7 && "ARecord"@[0] == 'A');
    assert("AAAARecord"@.len() == 10 && "AAAARecord"@[0] == 'A');
    assert("TXTRecord"@.len() == 9 && "TXTRecord"@[0] == 'T');
    assert("CNAMERecord"@.len() == 11 && "CNAMERecord"@[0] == 'C');
    assert("MXRecord"@.len() == 8 && "MXRecord"@[0] == 'M');
    assert("NSRecord"@.len() == 8 && "NSRecord"@[0] == 'N');
    assert("SRVRecord"@.len() == 9 && "SRVRecord"@[0] == 'S');
    assert("CAARecord"@.len() == 9 && "CAARecord"@[0] == 'C');
}

} // verus!
