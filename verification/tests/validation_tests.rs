//! Tests of instance selection, duplicate zones and pending instances.

use bindy::crd::InstanceReference;
use bindy::reconcilers::dnszone::validation::{
    check_for_duplicate_zones, filter_instances_needing_reconciliation, get_instances_from_zone,
    instance_allows_zone_namespace, ZoneInstancesError,
};
use bindy::crd::{
    Bind9Instance, Bind9InstanceSpec, DNSZone, DNSZoneSpec, DNSZoneStatus, InstanceReferenceWithStatus,
    InstanceSource, InstanceStatus, LabelSelector, ObjectMeta, SOARecord, ServerRole,
};

fn create_instance_ref(name: &str, namespace: &str) -> InstanceReference {
    InstanceReference {
        api_version: "bindy.firestoned.io/v1beta1".to_string(),
        kind: "Bind9Instance".to_string(),
        name: name.to_string(),
        namespace: namespace.to_string(),
        last_reconciled_at: None,
    }
}

#[test]
fn test_filter_instances_needing_reconciliation_all_need_reconciliation() {
    let instances = vec![
        create_instance_ref("instance-1", "default"),
        create_instance_ref("instance-2", "default"),
        create_instance_ref("instance-3", "default"),
    ];

    let result = filter_instances_needing_reconciliation(&instances);

    assert_eq!(result.len(), 3);
}

#[test]
fn test_filter_instances_needing_reconciliation_some_already_reconciled() {
    let mut instances = vec![
        create_instance_ref("instance-1", "default"),
        create_instance_ref("instance-2", "default"),
        create_instance_ref("instance-3", "default"),
    ];

    // Set timestamp on instance-2 (already reconciled)
    instances[1].last_reconciled_at = Some("2025-01-01T00:00:00Z".to_string());

    let result = filter_instances_needing_reconciliation(&instances);

    // Should only return instance-1 and instance-3
    assert_eq!(result.len(), 2);
    assert_eq!(result[0].name, "instance-1");
    assert_eq!(result[1].name, "instance-3");
}

#[test]
fn test_filter_instances_needing_reconciliation_none_need_reconciliation() {
    let mut instances = vec![
        create_instance_ref("instance-1", "default"),
        create_instance_ref("instance-2", "default"),
    ];

    // Set timestamp on all instances (all already reconciled)
    instances[0].last_reconciled_at = Some("2025-01-01T00:00:00Z".to_string());
    instances[1].last_reconciled_at = Some("2025-01-01T00:00:01Z".to_string());

    let result = filter_instances_needing_reconciliation(&instances);

    assert_eq!(result.len(), 0);
}

// ---------------------------------------------------------------------------
// Instances of a zone
// ---------------------------------------------------------------------------

fn pairs(items: &[(&str, &str)]) -> Vec<(String, String)> {
    items.iter().map(|(k, v)| (k.to_string(), v.to_string())).collect()
}

fn instance(name: &str, namespace: &str, labels: &[(&str, &str)], annotations: &[(&str, &str)]) -> Bind9Instance {
    Bind9Instance {
        metadata: ObjectMeta {
            name: Some(name.to_string()),
            namespace: Some(namespace.to_string()),
            labels: Some(pairs(labels)),
            annotations: if annotations.is_empty() { None } else { Some(pairs(annotations)) },
            ..Default::default()
        },
        spec: Bind9InstanceSpec {
            cluster_ref: "main".to_string(),
            role: ServerRole::Primary,
        },
    }
}

fn zone(name: &str, namespace: &str, zone_name: &str, selector_labels: Option<&[(&str, &str)]>) -> DNSZone {
    DNSZone {
        metadata: ObjectMeta {
            name: Some(name.to_string()),
            namespace: Some(namespace.to_string()),
            generation: Some(1),
            ..Default::default()
        },
        spec: DNSZoneSpec {
            zone_name: zone_name.to_string(),
            cluster_ref: None,
            soa_record: SOARecord {
                primary_ns: "ns1.example.com.".to_string(),
                admin_email: "admin.example.com.".to_string(),
                serial: 1,
                refresh: 3600,
                retry: 600,
                expire: 604_800,
                negative_ttl: 86_400,
            },
            ttl: None,
            name_servers: None,
            name_server_ips: None,
            records_from: None,
            bind9_instances_from: selector_labels.map(|l| {
                vec![InstanceSource {
                    selector: LabelSelector {
                        match_labels: Some(pairs(l)),
                        match_expressions: None,
                    },
                }]
            }),
        },
        status: None,
    }
}

const ALLOW: &str = "bindy.firestoned.io/allow-zone-namespaces";

#[test]
fn annotation_admits_listed_namespaces_and_the_wildcard() {
    let listed = instance("i", "infra", &[], &[(ALLOW, "team-a, team-b")]);
    assert!(instance_allows_zone_namespace(&listed, "team-b"));
    assert!(!instance_allows_zone_namespace(&listed, "team-c"));
    let wildcard = instance("i", "infra", &[], &[(ALLOW, " * ")]);
    assert!(instance_allows_zone_namespace(&wildcard, "anything"));
    let none = instance("i", "infra", &[], &[]);
    assert!(!instance_allows_zone_namespace(&none, "team-a"));
}

#[test]
fn zone_instances_pass_the_selector_and_the_namespace_gate() {
    let z = zone("z", "team-a", "example.com", Some(&[("dns", "prod")]));
    let instances = vec![
        instance("same-ns", "team-a", &[("dns", "prod")], &[]),
        instance("other-ns-denied", "infra", &[("dns", "prod")], &[]),
        instance("other-ns-allowed", "infra", &[("dns", "prod")], &[(ALLOW, "team-a")]),
        instance("unlabelled", "team-a", &[("dns", "dev")], &[]),
    ];
    let refs = get_instances_from_zone(&z, &instances).expect("instances");
    let names: Vec<&str> = refs.iter().map(|r| r.name.as_str()).collect();
    assert_eq!(names, vec!["same-ns", "other-ns-allowed"]);
    assert_eq!(refs[1].namespace, "infra");
    assert_eq!(refs[0].api_version, "bindy.firestoned.io/v1beta1");
    assert_eq!(refs[0].kind, "Bind9Instance");
    assert!(refs.iter().all(|r| r.last_reconciled_at.is_none()));
}

#[test]
fn zone_instances_report_each_error() {
    let no_selectors = zone("z", "team-a", "example.com", None);
    assert_eq!(
        get_instances_from_zone(&no_selectors, &[]),
        Err(ZoneInstancesError::NoSelectors)
    );
    let z = zone("z", "team-a", "example.com", Some(&[("dns", "prod")]));
    assert_eq!(
        get_instances_from_zone(&z, &[instance("i", "team-a", &[("dns", "dev")], &[])]),
        Err(ZoneInstancesError::NoMatchingInstances)
    );
    assert_eq!(
        get_instances_from_zone(&z, &[instance("i", "infra", &[("dns", "prod")], &[])]),
        Err(ZoneInstancesError::OnlyCrossNamespaceMatches)
    );
}

// ---------------------------------------------------------------------------
// Duplicate zones
// ---------------------------------------------------------------------------

fn entry(name: &str, status: InstanceStatus) -> InstanceReferenceWithStatus {
    InstanceReferenceWithStatus {
        api_version: "bindy.firestoned.io/v1beta1".to_string(),
        kind: "Bind9Instance".to_string(),
        name: name.to_string(),
        namespace: "infra".to_string(),
        status,
        last_reconciled_at: None,
        message: None,
    }
}

fn claiming(mut z: DNSZone, entries: Vec<InstanceReferenceWithStatus>) -> DNSZone {
    z.status = Some(DNSZoneStatus { bind9_instances: entries, ..Default::default() });
    z
}

#[test]
fn zones_without_instances_do_not_block_a_name() {
    let a = zone("a", "default", "example.com", None);
    let b = zone("b", "default", "example.com", None);
    let all = vec![a, b];
    assert!(check_for_duplicate_zones(&all[0], &all).is_none());
    assert!(check_for_duplicate_zones(&all[1], &all).is_none());
}

#[test]
fn a_zone_holding_the_name_on_an_instance_is_a_conflict() {
    let holder = claiming(
        zone("first", "team-a", "example.com", None),
        vec![entry("live", InstanceStatus::Configured)],
    );
    let newcomer = zone("second", "team-b", "example.com", None);
    let all = vec![holder, newcomer];

    let info = check_for_duplicate_zones(&all[1], &all).expect("the name is held");
    assert_eq!(info.zone_name, "example.com");
    assert_eq!(info.conflicting_zones.len(), 1);
    assert_eq!(info.conflicting_zones[0].name, "first");
    assert_eq!(info.conflicting_zones[0].namespace, "team-a");

    assert!(check_for_duplicate_zones(&all[0], &all).is_none(), "the newcomer holds nothing");
}

#[test]
fn failed_instances_do_not_hold_a_name() {
    let failed = claiming(
        zone("first", "team-a", "example.com", None),
        vec![entry("broken", InstanceStatus::Failed)],
    );
    let other = zone("second", "team-b", "example.com", None);
    let all = vec![failed, other];
    assert!(check_for_duplicate_zones(&all[1], &all).is_none());
}

#[test]
fn other_zone_names_and_the_zone_itself_are_no_conflict() {
    let me = claiming(
        zone("zone", "alpha", "example.com", None),
        vec![entry("live", InstanceStatus::Configured)],
    );
    let elsewhere = claiming(
        zone("other", "alpha", "example.org", None),
        vec![entry("live", InstanceStatus::Configured)],
    );
    let all = vec![me, elsewhere];
    assert!(check_for_duplicate_zones(&all[0], &all).is_none());
}

#[test]
fn conflicts_list_only_live_instances() {
    let holder = claiming(
        zone("first", "team-a", "example.com", None),
        vec![
            entry("live", InstanceStatus::Configured),
            entry("broken", InstanceStatus::Failed),
            entry("gone", InstanceStatus::Unclaimed),
            entry("new", InstanceStatus::Claimed),
        ],
    );
    let newcomer = zone("second", "team-b", "example.com", None);
    let all = vec![holder, newcomer];
    let info = check_for_duplicate_zones(&all[1], &all).expect("conflict");
    assert_eq!(
        info.conflicting_zones[0].instance_names,
        vec!["infra/live".to_string(), "infra/new".to_string()]
    );
}

#[test]
fn conflicting_zones_are_reported_as_namespace_slash_name() {
    let live = || vec![entry("live", InstanceStatus::Configured)];
    let a = claiming(zone("first", "team-a", "example.com", None), live());
    let b = claiming(zone("second", "team-b", "example.com", None), live());
    let c = zone("third", "team-c", "example.com", None);
    let all = vec![a, b, c];
    let info = check_for_duplicate_zones(&all[2], &all).expect("conflict");
    assert_eq!(
        bindy::reconcilers::dnszone::validation::conflicting_zone_refs(&info),
        vec!["team-a/first".to_string(), "team-b/second".to_string()]
    );
}
