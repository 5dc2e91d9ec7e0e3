//! Change detection and endpoint bookkeeping of zone reconciliation.

use vstd::prelude::*;
use crate::crd::{DNSZone, InstanceReference, InstanceReferenceView, same_instance};
use crate::reconcilers::generation::{should_reconcile, spec_should_reconcile};
use crate::reconcilers::dnszone::types::EndpointAddress;
use crate::text::{concat, i64_to_decimal, opt_string_equal, signed_decimal};

verus! {

// ---------------------------------------------------------------------------
// Spec changes
// ---------------------------------------------------------------------------

/// The generation the zone's status records as reconciled, if any.
pub open spec fn observed_generation_of(zone: DNSZone) -> Option<i64> {
    match zone.status {
        Some(s) => s.observed_generation,
        None => None,
    }
}

/// Whether this is the zone's first reconciliation and whether its spec
/// changed since the last one.
pub fn detect_spec_changes(zone: &DNSZone) -> (r: (bool, bool))
    ensures
        r.0 == (observed_generation_of(*zone) is None),
        r.1 == spec_should_reconcile(zone.metadata.generation, observed_generation_of(*zone)),
{
    let observed = match &zone.status {
        Some(s) => s.observed_generation,
        None => None,
    };
    (observed.is_none(), should_reconcile(zone.metadata.generation, observed))
}

// ---------------------------------------------------------------------------
// Instance changes
// ---------------------------------------------------------------------------

/// Whether some reference in `s` has the name `n`.
pub open spec fn has_instance_name(s: Seq<InstanceReference>, n: Seq<char>) -> bool {
    exists|j: int| 0 <= j < s.len() && (#[trigger] s[j]).name@ == n
}

/// The two lists hold the same set of instance names.
pub open spec fn same_instance_names(a: Seq<InstanceReference>, b: Seq<InstanceReference>) -> bool {
    &&& forall|i: int| 0 <= i < a.len() ==> has_instance_name(b, (#[trigger] a[i]).name@)
    &&& forall|j: int| 0 <= j < b.len() ==> has_instance_name(a, (#[trigger] b[j]).name@)
}

/// The timestamp of the last reference in `s` that names the same object as
/// `k` (the entry a map keyed by the reference keeps), if there is one.
pub open spec fn last_timestamp_of(s: Seq<InstanceReference>, k: InstanceReferenceView) -> Option<
    Option<Seq<char>>,
>
    decreases s.len(),
{
    if s.len() == 0 {
        None
    } else if same_instance(s.last()@, k) {
        Some(s.last()@.last_reconciled_at)
    } else {
        last_timestamp_of(s.drop_last(), k)
    }
}

/// Some instance of the watch event is still present and carries another
/// reconciliation timestamp now.
pub open spec fn timestamps_changed(watch: Seq<InstanceReference>, current: Seq<InstanceReference>) -> bool {
    exists|i: int|
        0 <= i < watch.len() && match #[trigger] last_timestamp_of(current, watch[i]@) {
            Some(t) => Some(t) != last_timestamp_of(watch, watch[i]@),
            None => false,
        }
}

/// Whether the instances of a zone changed between the watch event and the
/// fresh read: no list in the event, another set of names, or a changed
/// reconciliation timestamp.
pub open spec fn instances_changed(watch: Option<Seq<InstanceReference>>, current: Seq<InstanceReference>) -> bool {
    match watch {
        None => true,
        Some(w) => !same_instance_names(w, current) || timestamps_changed(w, current),
    }
}

fn has_name_exec(list: &[InstanceReference], n: &String) -> (r: bool)
    ensures
        r == has_instance_name(list@, n@),
{
    for j in 0..list.len()
        invariant
            forall|k: int| 0 <= k < j ==> list@[k].name@ != n@,
    {
        if list[j].name.eq(n) {
            return true;
        }
    }
    false
}

fn all_names_in(a: &[InstanceReference], b: &[InstanceReference]) -> (r: bool)
    ensures
        r == (forall|i: int| 0 <= i < a@.len() ==> has_instance_name(b@, (#[trigger] a@[i]).name@)),
{
    for i in 0..a.len()
        invariant
            forall|k: int| 0 <= k < i ==> has_instance_name(b@, (#[trigger] a@[k]).name@),
    {
        if !has_name_exec(b, &a[i].name) {
            return false;
        }
    }
    true
}

/// Timestamp of the last entry of `list` naming the same object as `key`.
fn last_timestamp<'a>(list: &'a [InstanceReference], key: &InstanceReference) -> (r: Option<
    &'a Option<String>,
>)
    ensures
        match r {
            Some(t) => last_timestamp_of(list@, key@) == Some(t.deep_view()),
            None => last_timestamp_of(list@, key@) is None,
        },
{
    let mut i: usize = list.len();
    assert(list@.take(i as int) =~= list@);
    while i > 0
        invariant
            i <= list.len(),
            last_timestamp_of(list@, key@) == last_timestamp_of(list@.take(i as int), key@),
        decreases i,
    {
        let e = &list[i - 1];
        assert(list@.take(i as int).drop_last() =~= list@.take(i - 1));
        assert(list@.take(i as int).last() == list@[i - 1]);
        if *e == *key {
            return Some(&e.last_reconciled_at);
        }
        i = i - 1;
    }
    None
}

/// Whether the instances of a zone changed between the watch event that
/// triggered the reconcile (`watch_instances`) and the zone as read again
/// (`current_instances`): `true` when the event carried no list, when an
/// instance was added or removed, or when an instance that is still there
/// carries another `last_reconciled_at`. `namespace` and `name` identify the
/// zone.
pub fn detect_instance_changes(
    namespace: &str,
    name: &str,
    watch_instances: Option<&Vec<InstanceReference>>,
    current_instances: &[InstanceReference],
) -> (r: bool)
    ensures
        r == instances_changed(
            match watch_instances {
                Some(w) => Some(w@),
                None => None,
            },
            current_instances@,
        ),
{
    let watch: &Vec<InstanceReference> = match watch_instances {
        Some(w) => w,
        None => {
            return true;
        },
    };
    let ws: &[InstanceReference] = watch.as_slice();
    if !all_names_in(ws, current_instances) || !all_names_in(current_instances, ws) {
        return true;
    }
    for i in 0..ws.len()
        invariant
            ws@ == watch@,
            match watch_instances {
                Some(w) => w@ == ws@,
                None => false,
            },
            forall|k: int|
                0 <= k < i ==> match #[trigger] last_timestamp_of(current_instances@, ws@[k]@) {
                    Some(t) => Some(t) == last_timestamp_of(ws@, ws@[k]@),
                    None => true,
                },
    {
        match last_timestamp(current_instances, &ws[i]) {
            Some(now) => {
                match last_timestamp(ws, &ws[i]) {
                    Some(then) => {
                        if !opt_string_equal(now, then) {
                            assert(match last_timestamp_of(current_instances@, ws@[i as int]@) {
                                Some(t) => Some(t) != last_timestamp_of(ws@, ws@[i as int]@),
                                None => false,
                            });
                            return true;
                        }
                    },
                    None => {
                        assert(match last_timestamp_of(current_instances@, ws@[i as int]@) {
                            Some(t) => Some(t) != last_timestamp_of(ws@, ws@[i as int]@),
                            None => false,
                        });
                        return true;
                    },
                }
            },
            None => {},
        }
    }
    false
}

/// A list compared with itself shows no change: re-reading a zone whose
/// instances did not move does not set off another configuration pass.
pub proof fn lemma_same_instances_unchanged(w: Seq<InstanceReference>)
    ensures
        !instances_changed(Some(w), w),
{
    assert forall|i: int| 0 <= i < w.len() implies has_instance_name(w, (#[trigger] w[i]).name@) by {
        assert(w[i].name@ == w[i].name@);
    }
}

// ---------------------------------------------------------------------------
// Endpoints
// ---------------------------------------------------------------------------

/// A named port of an endpoints subset.
#[derive(Debug, PartialEq, Clone)]
pub struct EndpointPortEntry {
    pub name: Option<String>,
    pub port: i32,
}

/// One subset of a service's endpoints: the ready addresses and the ports
/// they serve.
#[derive(Debug, PartialEq, Clone)]
pub struct EndpointSubsetEntry {
    /// IPs of the ready pods.
    pub addresses: Option<Vec<String>>,
    pub ports: Option<Vec<EndpointPortEntry>>,
}

/// The port named `port_name` in `ports`: the first one so named.
pub open spec fn named_port(ports: Seq<EndpointPortEntry>, port_name: Seq<char>) -> Option<i32>
    decreases ports.len(),
{
    if ports.len() == 0 {
        None
    } else if ports[0].name is Some && ports[0].name->0@ == port_name {
        Some(ports[0].port)
    } else {
        named_port(ports.drop_first(), port_name)
    }
}

/// The addresses one subset contributes: each ready address with the
/// subset's port of that name, or nothing when the subset lacks the port.
pub open spec fn subset_endpoints(subset: EndpointSubsetEntry, port_name: Seq<char>) -> Seq<(Seq<char>, i32)> {
    let port = match subset.ports {
        Some(p) => named_port(p@, port_name),
        None => None,
    };
    match port {
        Some(p) => match subset.addresses {
            Some(a) => a@.map_values(|ip: String| (ip@, p)),
            None => Seq::empty(),
        },
        None => Seq::empty(),
    }
}

/// The endpoints of all subsets, in order.
pub open spec fn all_endpoints(subsets: Seq<EndpointSubsetEntry>, port_name: Seq<char>) -> Seq<(Seq<char>, i32)>
    decreases subsets.len(),
{
    if subsets.len() == 0 {
        Seq::empty()
    } else {
        all_endpoints(subsets.drop_last(), port_name) + subset_endpoints(subsets.last(), port_name)
    }
}

/// An endpoint address as a pair of IP and port.
pub open spec fn endpoint_view(e: EndpointAddress) -> (Seq<char>, i32) {
    (e.ip@, e.port)
}

fn find_named_port(ports: &Vec<EndpointPortEntry>, port_name: &str) -> (r: Option<i32>)
    ensures
        r == named_port(ports@, port_name@),
{
    let mut i: usize = 0;
    assert(ports@.skip(0) =~= ports@);
    while i < ports.len()
        invariant
            i <= ports.len(),
            named_port(ports@, port_name@) == named_port(ports@.skip(i as int), port_name@),
        decreases ports.len() - i,
    {
        assert(ports@.skip(i as int).drop_first() =~= ports@.skip(i + 1));
        assert(ports@.skip(i as int)[0] == ports@[i as int]);
        match &ports[i].name {
            Some(n) => {
                if crate::text::str_equal(n.as_str(), port_name) {
                    return Some(ports[i].port);
                }
            },
            None => {},
        }
        i = i + 1;
    }
    None
}

/// The ready endpoints of a service for the port named `port_name`, from
/// the subsets of its `Endpoints` object. `None` when there is none.
pub fn ready_endpoints(subsets: &Option<Vec<EndpointSubsetEntry>>, port_name: &str) -> (r: Option<
    Vec<EndpointAddress>,
>)
    ensures
        ({
            let all = match subsets {
                Some(s) => all_endpoints(s@, port_name@),
                None => Seq::empty(),
            };
            match r {
                Some(v) => all.len() > 0 && v@.map_values(|e: EndpointAddress| endpoint_view(e)) == all,
                None => all.len() == 0,
            }
        }),
{
    let mut result: Vec<EndpointAddress> = Vec::new();
    let ghost all = match subsets {
        Some(s) => all_endpoints(s@, port_name@),
        None => Seq::empty(),
    };
    match subsets {
        Some(subs) => {
            for k in 0..subs.len()
                invariant
                    result@.map_values(|e: EndpointAddress| endpoint_view(e)) == all_endpoints(
                        subs@.take(k as int),
                        port_name@,
                    ),
            {
                assert(subs@.take(k + 1).drop_last() =~= subs@.take(k as int));
                assert(subs@.take(k + 1).last() == subs@[k as int]);
                let subset = &subs[k];
                let port = match &subset.ports {
                    Some(p) => find_named_port(p, port_name),
                    None => None,
                };
                match port {
                    Some(p) => match &subset.addresses {
                        Some(addrs) => {
                            let ghost before = result@.map_values(|e: EndpointAddress| endpoint_view(e));
                            let ghost base_len = result.len();
                            for a in 0..addrs.len()
                                invariant
                                    result.len() == base_len + a,
                                    result@.map_values(|e: EndpointAddress| endpoint_view(e)) == before
                                        + addrs@.take(a as int).map_values(|ip: String| (ip@, p)),
                            {
                                let ghost old_r = result@;
                                let entry = EndpointAddress { ip: addrs[a].clone(), port: p };
                                assert(endpoint_view(entry) == (addrs@[a as int]@, p));
                                result.push(entry);
                                assert(result@.map_values(|e: EndpointAddress| endpoint_view(e)) =~= old_r.map_values(
                                    |e: EndpointAddress| endpoint_view(e),
                                ).push((addrs@[a as int]@, p)));
                                assert(addrs@.take(a + 1).map_values(|ip: String| (ip@, p)) =~= addrs@.take(
                                    a as int,
                                ).map_values(|ip: String| (ip@, p)).push((addrs@[a as int]@, p)));
                                assert(result@.map_values(|e: EndpointAddress| endpoint_view(e)) =~= before
                                    + addrs@.take(a + 1).map_values(|ip: String| (ip@, p)));
                            }
                            assert(addrs@.take(addrs.len() as int) =~= addrs@);
                        },
                        None => {
                            assert(subset_endpoints(subs@[k as int], port_name@) =~= Seq::empty());
                            assert(all_endpoints(subs@.take(k + 1), port_name@) =~= all_endpoints(
                                subs@.take(k as int),
                                port_name@,
                            ));
                        },
                    },
                    None => {
                        assert(subset_endpoints(subs@[k as int], port_name@) =~= Seq::empty());
                        assert(all_endpoints(subs@.take(k + 1), port_name@) =~= all_endpoints(
                            subs@.take(k as int),
                            port_name@,
                        ));
                    },
                }
            }
            assert(subs@.take(subs.len() as int) =~= subs@);
        },
        None => {},
    }
    if result.len() == 0 {
        None
    } else {
        Some(result)
    }
}

/// `ip:port`, the form in which an endpoint is addressed.
pub open spec fn endpoint_text(ip: Seq<char>, port: i32) -> Seq<char> {
    ip + seq![':'] + signed_decimal(port as int)
}

/// The address `ip:port` of an endpoint.
pub fn endpoint_string(e: &EndpointAddress) -> (r: String)
    ensures
        r@ == endpoint_text(e.ip@, e.port),
{
    let with_colon = concat(e.ip.as_str(), ":");
    let port = i64_to_decimal(e.port as i64);
    proof {
        reveal_strlit(":");
    }
    concat(with_colon.as_str(), port.as_str())
}

/// Name of the secret that holds the RNDC key of an instance.
pub fn rndc_secret_name(instance_name: &str) -> (r: String)
    ensures
        r@ == instance_name@ + "-rndc-key"@,
{
    concat(instance_name, "-rndc-key")
}

/// Results of running one operation on every endpoint of a set of
/// instances.
pub struct EndpointTally {
    /// The first endpoint visited.
    pub first_endpoint: Option<String>,
    /// Endpoints on which the operation succeeded.
    pub succeeded: usize,
    /// Description of each failure, in order.
    pub failures: Vec<String>,
}

impl EndpointTally {
    /// A tally with nothing recorded.
    pub fn new() -> (r: Self)
        ensures
            r.first_endpoint is None,
            r.succeeded == 0,
            r.failures@.len() == 0,
    {
        EndpointTally { first_endpoint: None, succeeded: 0, failures: Vec::new() }
    }

    /// Records the outcome of the operation on `endpoint`: `None` for
    /// success, else the failure's description.
    pub fn record(&mut self, endpoint: &String, failure: Option<String>)
        requires
            old(self).succeeded < usize::MAX,
        ensures
            final(self).first_endpoint.deep_view() == match old(self).first_endpoint {
                Some(f) => Some(f@),
                None => Some(endpoint@),
            },
            final(self).succeeded == old(self).succeeded + if failure is None { 1int } else { 0int },
            final(self).failures.deep_view() == match failure {
                Some(f) => old(self).failures.deep_view().push(f@),
                None => old(self).failures.deep_view(),
            },
    {
        if self.first_endpoint.is_none() {
            self.first_endpoint = Some(endpoint.clone());
        }
        match failure {
            Some(f) => {
                let ghost before = self.failures.deep_view();
                self.failures.push(f);
                assert(self.failures.deep_view() =~= before.push(f@));
            },
            None => {
                self.succeeded = self.succeeded + 1;
            },
        }
    }

    /// The first endpoint and the number of successes, or the failures
    /// when every endpoint tried failed.
    pub fn finish(self) -> (r: Result<(Option<String>, usize), Vec<String>>)
        ensures
            match r {
                Ok((first, n)) => !(self.succeeded == 0 && self.failures@.len() > 0) && n
                    == self.succeeded && first.deep_view() == self.first_endpoint.deep_view(),
                Err(f) => self.succeeded == 0 && self.failures@.len() > 0 && f.deep_view()
                    == self.failures.deep_view(),
            },
    {
        if self.succeeded == 0 && self.failures.len() > 0 {
            Err(self.failures)
        } else {
            Ok((self.first_endpoint, self.succeeded))
        }
    }

    /// The first endpoint and the number of successes, or the failures
    /// when any endpoint failed (the policy when every endpoint must
    /// succeed).
    pub fn finish_all_required(self) -> (r: Result<(Option<String>, usize), Vec<String>>)
        ensures
            match r {
                Ok((first, n)) => self.failures@.len() == 0 && n == self.succeeded
                    && first.deep_view() == self.first_endpoint.deep_view(),
                Err(f) => self.failures@.len() > 0 && f.deep_view() == self.failures.deep_view(),
            },
    {
        if self.failures.len() > 0 {
            Err(self.failures)
        } else {
            Ok((self.first_endpoint, self.succeeded))
        }
    }
}

} // verus!
