//! Which instances and pods of a cluster serve a role, and the endpoints
//! reached through them.

use vstd::prelude::*;
use crate::crd::{Bind9Instance, InstanceReference, InstanceReferenceView, ServerRole};
use crate::reconcilers::dnszone::types::PodInfo;
use crate::reconcilers::dnszone::validation::pair_lt;
use crate::text::{concat, lemma_seq_lt_total, lemma_seq_lt_transitive, str_equal, str_less};

verus! {

// ---------------------------------------------------------------------------
// Instances by role
// ---------------------------------------------------------------------------

/// The references whose instance was read and has role `role`, in order.
/// Each reference comes with the role read for it, or `None` when the
/// instance could not be read.
pub open spec fn refs_with_role(
    fetched: Seq<(InstanceReference, Option<ServerRole>)>,
    role: ServerRole,
) -> Seq<InstanceReferenceView>
    decreases fetched.len(),
{
    if fetched.len() == 0 {
        Seq::empty()
    } else {
        let rest = refs_with_role(fetched.drop_last(), role);
        if fetched.last().1 == Some(role) {
            rest.push(fetched.last().0@)
        } else {
            rest
        }
    }
}

fn filter_by_role(fetched: &[(InstanceReference, Option<ServerRole>)], role: ServerRole) -> (r: Vec<
    InstanceReference,
>)
    ensures
        r.deep_view() == refs_with_role(fetched@, role),
{
    let mut r: Vec<InstanceReference> = Vec::new();
    for i in 0..fetched.len()
        invariant
            r.deep_view() == refs_with_role(fetched@.take(i as int), role),
    {
        assert(fetched@.take(i + 1).drop_last() =~= fetched@.take(i as int));
        assert(fetched@.take(i + 1).last() == fetched@[i as int]);
        let (reference, found) = &fetched[i];
        if *found == Some(role) {
            let ghost before = r.deep_view();
            r.push(reference.clone());
            assert(r.deep_view() =~= before.push(reference@));
        }
    }
    assert(fetched@.take(fetched.len() as int) =~= fetched@);
    r
}

/// The references of primary instances, from each reference with the role
/// read for it (`None` when the instance could not be read: it is skipped).
pub fn filter_primary_instances(fetched: &[(InstanceReference, Option<ServerRole>)]) -> (r: Vec<
    InstanceReference,
>)
    ensures
        r.deep_view() == refs_with_role(fetched@, ServerRole::Primary),
{
    filter_by_role(fetched, ServerRole::Primary)
}

/// The references of secondary instances, from each reference with the role
/// read for it (`None` when the instance could not be read: it is skipped).
pub fn filter_secondary_instances(fetched: &[(InstanceReference, Option<ServerRole>)]) -> (r: Vec<
    InstanceReference,
>)
    ensures
        r.deep_view() == refs_with_role(fetched@, ServerRole::Secondary),
{
    filter_by_role(fetched, ServerRole::Secondary)
}

/// `(name, namespace)` of the instances of cluster `cluster` with role
/// `role` that have both a name and a namespace, in order.
pub open spec fn cluster_instances(
    instances: Seq<Bind9Instance>,
    cluster: Seq<char>,
    role: ServerRole,
) -> Seq<(Seq<char>, Seq<char>)>
    decreases instances.len(),
{
    if instances.len() == 0 {
        Seq::empty()
    } else {
        let rest = cluster_instances(instances.drop_last(), cluster, role);
        let i = instances.last();
        if i.spec.cluster_ref@ == cluster && i.spec.role == role && i.metadata.name is Some
            && i.metadata.namespace is Some {
            rest.push((i.metadata.name->0@, i.metadata.namespace->0@))
        } else {
            rest
        }
    }
}

/// `(name, namespace)` of the instances of `cluster_name` that have role
/// `role`.
pub fn cluster_instances_with_role(
    instances: &[Bind9Instance],
    cluster_name: &str,
    role: ServerRole,
) -> (r: Vec<(String, String)>)
    ensures
        r@.map_values(|p: (String, String)| (p.0@, p.1@)) == cluster_instances(
            instances@,
            cluster_name@,
            role,
        ),
{
    let mut r: Vec<(String, String)> = Vec::new();
    for k in 0..instances.len()
        invariant
            r@.map_values(|p: (String, String)| (p.0@, p.1@)) == cluster_instances(
                instances@.take(k as int),
                cluster_name@,
                role,
            ),
    {
        assert(instances@.take(k + 1).drop_last() =~= instances@.take(k as int));
        assert(instances@.take(k + 1).last() == instances@[k as int]);
        let inst = &instances[k];
        if str_equal(inst.spec.cluster_ref.as_str(), cluster_name) && inst.spec.role == role {
            match (&inst.metadata.name, &inst.metadata.namespace) {
                (Some(n), Some(ns)) => {
                    let ghost before = r@;
                    let pair = (n.clone(), ns.clone());
                    r.push(pair);
                    assert(r@.map_values(|p: (String, String)| (p.0@, p.1@)) =~= before.map_values(
                        |p: (String, String)| (p.0@, p.1@),
                    ).push((n@, ns@)));
                },
                _ => {},
            }
        }
    }
    assert(instances@.take(instances.len() as int) =~= instances@);
    r
}

/// The label selector of the pods of an instance.
pub fn bind9_pod_selector(instance_name: &str) -> (r: String)
    ensures
        r@ == "app=bind9,instance="@ + instance_name@,
{
    concat("app=bind9,instance=", instance_name)
}

// ---------------------------------------------------------------------------
// Pods
// ---------------------------------------------------------------------------

/// What is read of a pod.
#[derive(Debug, PartialEq, Clone)]
pub struct PodSummary {
    pub name: Option<String>,
    pub ip: Option<String>,
    /// `Running`, `Pending`, ...
    pub phase: Option<String>,
}

/// Why pods could not be collected.
#[derive(Debug, PartialEq, Eq, Structural, Clone, Copy)]
pub enum PodSearchError {
    /// The cluster has no instance of the role sought.
    NoInstances,
    /// Some pod has no name.
    PodWithoutName,
    /// Some pod has no IP address.
    PodWithoutIp,
    /// No pod of the instances is running.
    NoRunningPods,
}

/// Whether a pod's phase is `Running`.
pub open spec fn is_running(p: PodSummary) -> bool {
    p.phase is Some && p.phase->0@ == "Running"@
}

/// A pod as `(name, ip, instance name, namespace)`.
pub open spec fn pod_info_view(p: PodInfo) -> (Seq<char>, Seq<char>, Seq<char>, Seq<char>) {
    (p.name@, p.ip@, p.instance_name@, p.namespace@)
}

/// The running pods of one instance, or the first pod without a name or
/// an IP (which stops the search).
pub open spec fn scan_pods(
    instance_name: Seq<char>,
    namespace: Seq<char>,
    pods: Seq<PodSummary>,
) -> Result<Seq<(Seq<char>, Seq<char>, Seq<char>, Seq<char>)>, PodSearchError>
    decreases pods.len(),
{
    if pods.len() == 0 {
        Ok(Seq::empty())
    } else {
        match scan_pods(instance_name, namespace, pods.drop_last()) {
            Err(e) => Err(e),
            Ok(found) => {
                let p = pods.last();
                if p.name is None {
                    Err(PodSearchError::PodWithoutName)
                } else if p.ip is None {
                    Err(PodSearchError::PodWithoutIp)
                } else if is_running(p) {
                    Ok(found.push((p.name->0@, p.ip->0@, instance_name, namespace)))
                } else {
                    Ok(found)
                }
            },
        }
    }
}

/// The running pods of all instances, in order, or the first failure.
pub open spec fn scan_instances(items: Seq<(String, String, Vec<PodSummary>)>) -> Result<
    Seq<(Seq<char>, Seq<char>, Seq<char>, Seq<char>)>,
    PodSearchError,
>
    decreases items.len(),
{
    if items.len() == 0 {
        Ok(Seq::empty())
    } else {
        match scan_instances(items.drop_last()) {
            Err(e) => Err(e),
            Ok(before) => match scan_pods(items.last().0@, items.last().1@, items.last().2@) {
                Err(e) => Err(e),
                Ok(found) => Ok(before + found),
            },
        }
    }
}

/// The outcome of a pod search for role `role`: an empty list of
/// instances fails for primaries and gives no pods for secondaries; no
/// running pod at all fails for primaries.
pub open spec fn pod_search(
    role: ServerRole,
    items: Seq<(String, String, Vec<PodSummary>)>,
) -> Result<Seq<(Seq<char>, Seq<char>, Seq<char>, Seq<char>)>, PodSearchError> {
    if items.len() == 0 {
        if role == ServerRole::Primary {
            Err(PodSearchError::NoInstances)
        } else {
            Ok(Seq::empty())
        }
    } else {
        match scan_instances(items) {
            Err(e) => Err(e),
            Ok(found) => if found.len() == 0 && role == ServerRole::Primary {
                Err(PodSearchError::NoRunningPods)
            } else {
                Ok(found)
            },
        }
    }
}

proof fn lemma_scan_pods_error_stays(
    instance_name: Seq<char>,
    namespace: Seq<char>,
    pods: Seq<PodSummary>,
    k: int,
)
    requires
        0 <= k <= pods.len(),
        scan_pods(instance_name, namespace, pods.take(k)) is Err,
    ensures
        scan_pods(instance_name, namespace, pods) == scan_pods(instance_name, namespace, pods.take(k)),
    decreases pods.len() - k,
{
    if k < pods.len() {
        assert(pods.take(k + 1).drop_last() =~= pods.take(k));
        lemma_scan_pods_error_stays(instance_name, namespace, pods, k + 1);
    } else {
        assert(pods.take(k) =~= pods);
    }
}

proof fn lemma_scan_instances_error_stays(items: Seq<(String, String, Vec<PodSummary>)>, k: int)
    requires
        0 <= k <= items.len(),
        scan_instances(items.take(k)) is Err,
    ensures
        scan_instances(items) == scan_instances(items.take(k)),
    decreases items.len() - k,
{
    if k < items.len() {
        assert(items.take(k + 1).drop_last() =~= items.take(k));
        lemma_scan_instances_error_stays(items, k + 1);
    } else {
        assert(items.take(k) =~= items);
    }
}

fn scan_pods_exec(
    instance_name: &String,
    namespace: &String,
    pods: &Vec<PodSummary>,
    out: &mut Vec<PodInfo>,
) -> (r: Result<(), PodSearchError>)
    ensures
        match scan_pods(instance_name@, namespace@, pods@) {
            Ok(found) => r is Ok && final(out)@.map_values(|p: PodInfo| pod_info_view(p)) == old(
                out,
            )@.map_values(|p: PodInfo| pod_info_view(p)) + found,
            Err(e) => r == Err::<(), PodSearchError>(e),
        },
{
    let ghost start = out@.map_values(|p: PodInfo| pod_info_view(p));
    for k in 0..pods.len()
        invariant
            match scan_pods(instance_name@, namespace@, pods@.take(k as int)) {
                Ok(found) => out@.map_values(|p: PodInfo| pod_info_view(p)) == start + found,
                Err(e) => false,
            },
    {
        assert(pods@.take(k + 1).drop_last() =~= pods@.take(k as int));
        assert(pods@.take(k + 1).last() == pods@[k as int]);
        let p = &pods[k];
        let name = match &p.name {
            Some(n) => n,
            None => {
                proof {
                    lemma_scan_pods_error_stays(instance_name@, namespace@, pods@, k + 1);
                }
                return Err(PodSearchError::PodWithoutName);
            },
        };
        let ip = match &p.ip {
            Some(i) => i,
            None => {
                proof {
                    lemma_scan_pods_error_stays(instance_name@, namespace@, pods@, k + 1);
                }
                return Err(PodSearchError::PodWithoutIp);
            },
        };
        let running = match &p.phase {
            Some(ph) => str_equal(ph.as_str(), "Running"),
            None => false,
        };
        if running {
            let ghost before = out@;
            let info = PodInfo {
                name: name.clone(),
                ip: ip.clone(),
                instance_name: instance_name.clone(),
                namespace: namespace.clone(),
            };
            out.push(info);
            assert(out@.map_values(|p: PodInfo| pod_info_view(p)) =~= before.map_values(
                |p: PodInfo| pod_info_view(p),
            ).push(pod_info_view(info)));
        }
    }
    assert(pods@.take(pods.len() as int) =~= pods@);
    Ok(())
}

/// The running pods of the instances of role `role` of a cluster, from the
/// pods listed for each instance as `(name, namespace, pods)`.
///
/// Fails when a pod has no name or no IP; for primaries, also when there is
/// no instance or no running pod. For secondaries an empty list of
/// instances gives no pods.
pub fn collect_running_pods(role: ServerRole, items: &[(String, String, Vec<PodSummary>)]) -> (r:
    Result<Vec<PodInfo>, PodSearchError>)
    ensures
        match pod_search(role, items@) {
            Ok(found) => r is Ok && r->Ok_0@.map_values(|p: PodInfo| pod_info_view(p)) == found,
            Err(e) => r == Err::<Vec<PodInfo>, PodSearchError>(e),
        },
{
    if items.len() == 0 {
        if role == ServerRole::Primary {
            return Err(PodSearchError::NoInstances);
        } else {
            let empty: Vec<PodInfo> = Vec::new();
            assert(empty@.map_values(|p: PodInfo| pod_info_view(p)) =~= Seq::empty());
            return Ok(empty);
        }
    }
    let mut out: Vec<PodInfo> = Vec::new();
    assert(out@.map_values(|p: PodInfo| pod_info_view(p)) =~= Seq::empty());
    for k in 0..items.len()
        invariant
            match scan_instances(items@.take(k as int)) {
                Ok(found) => out@.map_values(|p: PodInfo| pod_info_view(p)) == found,
                Err(e) => false,
            },
    {
        assert(items@.take(k + 1).drop_last() =~= items@.take(k as int));
        assert(items@.take(k + 1).last() == items@[k as int]);
        let (name, namespace, pods) = &items[k];
        match scan_pods_exec(name, namespace, pods, &mut out) {
            Ok(()) => {},
            Err(e) => {
                proof {
                    lemma_scan_instances_error_stays(items@, k + 1);
                }
                return Err(e);
            },
        }
    }
    assert(items@.take(items.len() as int) =~= items@);
    if out.len() == 0 && role == ServerRole::Primary {
        assert(out@.map_values(|p: PodInfo| pod_info_view(p)).len() == 0);
        return Err(PodSearchError::NoRunningPods);
    }
    Ok(out)
}

/// The IPs of the running pods that have one.
pub open spec fn running_ips(pods: Seq<PodSummary>) -> Seq<Seq<char>>
    decreases pods.len(),
{
    if pods.len() == 0 {
        Seq::empty()
    } else {
        let rest = running_ips(pods.drop_last());
        let p = pods.last();
        if p.ip is Some && is_running(p) {
            rest.push(p.ip->0@)
        } else {
            rest
        }
    }
}

/// The IPs of the running pods of an instance, in order.
pub fn running_pod_ips(pods: &[PodSummary]) -> (r: Vec<String>)
    ensures
        r.deep_view() == running_ips(pods@),
{
    let mut r: Vec<String> = Vec::new();
    for k in 0..pods.len()
        invariant
            r.deep_view() == running_ips(pods@.take(k as int)),
    {
        assert(pods@.take(k + 1).drop_last() =~= pods@.take(k as int));
        assert(pods@.take(k + 1).last() == pods@[k as int]);
        let p = &pods[k];
        match &p.ip {
            Some(ip) => {
                let running = match &p.phase {
                    Some(ph) => str_equal(ph.as_str(), "Running"),
                    None => false,
                };
                if running {
                    let ghost before = r.deep_view();
                    r.push(ip.clone());
                    assert(r.deep_view() =~= before.push(ip@));
                }
            },
            None => {},
        }
    }
    assert(pods@.take(pods.len() as int) =~= pods@);
    r
}

// ---------------------------------------------------------------------------
// Instances of a set of pods
// ---------------------------------------------------------------------------

/// Strictly increasing in the order of `(name, namespace)` pairs.
pub open spec fn strictly_sorted(s: Seq<(Seq<char>, Seq<char>)>) -> bool {
    forall|i: int, j: int| 0 <= i < j < s.len() ==> pair_lt(#[trigger] s[i].0, s[i].1, #[trigger] s[j].0, s[j].1)
}

/// The pairs of a list of string pairs.
pub open spec fn pair_views(s: Seq<(String, String)>) -> Seq<(Seq<char>, Seq<char>)> {
    s.map_values(|p: (String, String)| (p.0@, p.1@))
}

proof fn lemma_pair_lt_transitive(a: (Seq<char>, Seq<char>), b: (Seq<char>, Seq<char>), c: (Seq<char>, Seq<char>))
    requires
        pair_lt(a.0, a.1, b.0, b.1),
        pair_lt(b.0, b.1, c.0, c.1),
    ensures
        pair_lt(a.0, a.1, c.0, c.1),
{
    if crate::text::seq_lt(a.0, b.0) && crate::text::seq_lt(b.0, c.0) {
        lemma_seq_lt_transitive(a.0, b.0, c.0);
    } else if crate::text::seq_lt(a.1, b.1) && crate::text::seq_lt(b.1, c.1) {
        lemma_seq_lt_transitive(a.1, b.1, c.1);
    }
}

proof fn lemma_pair_lt_total(a: (Seq<char>, Seq<char>), b: (Seq<char>, Seq<char>))
    ensures
        !pair_lt(a.0, a.1, a.0, a.1),
        a != b ==> pair_lt(a.0, a.1, b.0, b.1) != pair_lt(b.0, b.1, a.0, a.1),
{
    lemma_seq_lt_total(a.0, b.0);
    lemma_seq_lt_total(a.1, b.1);
    lemma_seq_lt_total(a.0, a.0);
    lemma_seq_lt_total(a.1, a.1);
}

fn pair_less_exec(a: &(String, String), b: &(String, String)) -> (r: bool)
    ensures
        r == pair_lt(a.0@, a.1@, b.0@, b.1@),
{
    str_less(a.0.as_str(), b.0.as_str()) || (a.0.eq(&b.0) && str_less(a.1.as_str(), b.1.as_str()))
}

/// `(instance name, namespace)` of the instances the pods belong to, each
/// once, in increasing order.
pub fn unique_sorted_instances(pods: &[PodInfo]) -> (r: Vec<(String, String)>)
    ensures
        strictly_sorted(pair_views(r@)),
        forall|k: int|
            0 <= k < pods@.len() ==> pair_views(r@).contains(
                ((#[trigger] pods@[k]).instance_name@, pods@[k].namespace@),
            ),
        forall|x: (Seq<char>, Seq<char>)|
            #[trigger] pair_views(r@).contains(x) ==> exists|k: int|
                0 <= k < pods@.len() && (#[trigger] pods@[k]).instance_name@ == x.0 && pods@[k].namespace@ == x.1,
{
    let mut r: Vec<(String, String)> = Vec::new();
    for k in 0..pods.len()
        invariant
            strictly_sorted(pair_views(r@)),
            forall|m: int|
                0 <= m < k ==> pair_views(r@).contains(
                    ((#[trigger] pods@[m]).instance_name@, pods@[m].namespace@),
                ),
            forall|x: (Seq<char>, Seq<char>)|
                #[trigger] pair_views(r@).contains(x) ==> exists|m: int|
                    0 <= m < k && (#[trigger] pods@[m]).instance_name@ == x.0 && pods@[m].namespace@ == x.1,
    {
        let item = (pods[k].instance_name.clone(), pods[k].namespace.clone());
        let ghost x = (item.0@, item.1@);
        let ghost before = pair_views(r@);
        let mut j: usize = 0;
        while j < r.len() && pair_less_exec(&r[j], &item)
            invariant
                j <= r.len(),
                before == pair_views(r@),
                x == (item.0@, item.1@),
                forall|m: int| 0 <= m < j ==> pair_lt(#[trigger] before[m].0, before[m].1, x.0, x.1),
            decreases r.len() - j,
        {
            j = j + 1;
        }
        let present = j < r.len() && r[j].0.eq(&item.0) && r[j].1.eq(&item.1);
        if !present {
            proof {
                if j < r.len() {
                    lemma_pair_lt_total(before[j as int], x);
                }
            }
            r.insert(j, item);
            let ghost after = pair_views(r@);
            assert(after =~= before.insert(j as int, x));
            assert forall|a: int, b: int| 0 <= a < b < after.len() implies pair_lt(
                #[trigger] after[a].0,
                after[a].1,
                #[trigger] after[b].0,
                after[b].1,
            ) by {
                if b < j {
                } else if a < j && b == j {
                } else if a < j {
                    assert(pair_lt(before[a].0, before[a].1, x.0, x.1));
                    assert(pair_lt(x.0, x.1, before[b - 1].0, before[b - 1].1)) by {
                        if b - 1 > j {
                            assert(pair_lt(before[j as int].0, before[j as int].1, before[b - 1].0, before[b - 1].1));
                            lemma_pair_lt_transitive(x, before[j as int], before[b - 1]);
                        }
                    }
                    lemma_pair_lt_transitive(before[a], x, before[b - 1]);
                } else if a == j {
                    if b - 1 > j {
                        assert(pair_lt(before[j as int].0, before[j as int].1, before[b - 1].0, before[b - 1].1));
                        lemma_pair_lt_transitive(x, before[j as int], before[b - 1]);
                    }
                } else {
                    assert(after[a] == before[a - 1]);
                    assert(after[b] == before[b - 1]);
                }
            }
            assert(after[j as int] == x);
            assert forall|m: int| 0 <= m < k + 1 implies after.contains(
                ((#[trigger] pods@[m]).instance_name@, pods@[m].namespace@),
            ) by {
                if m < k {
                    let y = (pods@[m].instance_name@, pods@[m].namespace@);
                    let w = choose|w: int| 0 <= w < before.len() && before[w] == y;
                    if w < j {
                        assert(after[w] == y);
                    } else {
                        assert(after[w + 1] == y);
                    }
                }
            }
            assert forall|y: (Seq<char>, Seq<char>)| #[trigger] after.contains(y) implies exists|m: int|
                0 <= m < k + 1 && (#[trigger] pods@[m]).instance_name@ == y.0 && pods@[m].namespace@ == y.1 by {
                let w = choose|w: int| 0 <= w < after.len() && after[w] == y;
                if w == j {
                    assert(pods@[k as int].instance_name@ == y.0);
                } else if w < j {
                    assert(before.contains(y));
                } else {
                    assert(before[w - 1] == y);
                    assert(before.contains(y));
                }
            }
        } else {
            assert(before[j as int] == x);
            assert forall|y: (Seq<char>, Seq<char>)| #[trigger] before.contains(y) implies exists|m: int|
                0 <= m < k + 1 && (#[trigger] pods@[m]).instance_name@ == y.0 && pods@[m].namespace@ == y.1 by {
            }
        }
    }
    r
}

} // verus!
