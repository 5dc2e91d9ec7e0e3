//! Tests of change detection and endpoint bookkeeping of zone reconciliation.

use bindy::reconcilers::dnszone::helpers::{detect_instance_changes, detect_spec_changes};
use bindy::crd::{DNSZone, DNSZoneSpec, DNSZoneStatus, InstanceReference, ObjectMeta, SOARecord};

// Helper function to create a test DNSZone
fn create_test_zone(name: &str, namespace: &str, generation: i64) -> DNSZone {
    DNSZone {
        metadata: ObjectMeta {
            name: Some(name.to_string()),
            namespace: Some(namespace.to_string()),
            generation: Some(generation),
            ..Default::default()
        },
        spec: DNSZoneSpec {
            zone_name: format!("{name}.example.com"),
            cluster_ref: None,
            soa_record: SOARecord {
                primary_ns: "ns1.example.com.".to_string(),
                admin_email: "admin.example.com.".to_string(),
                serial: 2_024_010_101,
                refresh: 3600,
                retry: 600,
                expire: 604_800,
                negative_ttl: 86_400,
            },
            ttl: Some(3600),
            name_servers: None,
            name_server_ips: None,
            records_from: None,
            bind9_instances_from: None,
        },
        status: None,
    }
}

// Helper function to create a zone with status
fn create_zone_with_status(
    name: &str,
    namespace: &str,
    generation: i64,
    observed_generation: Option<i64>,
) -> DNSZone {
    let mut zone = create_test_zone(name, namespace, generation);
    zone.status = Some(DNSZoneStatus {
        observed_generation,
        bind9_instances: vec![],
        bind9_instances_count: Some(0),
        conditions: vec![],
        records: vec![],
        records_count: 0,
    });
    zone
}

// Helper to create instance reference for testing
fn create_instance_ref(name: &str, timestamp: Option<String>) -> InstanceReference {
    InstanceReference {
        api_version: "bindy.firestoned.io/v1beta1".to_string(),
        kind: "Bind9Instance".to_string(),
        name: name.to_string(),
        namespace: "default".to_string(),
        last_reconciled_at: timestamp,
    }
}

#[test]
fn test_detect_spec_changes_first_reconciliation() {
    // Arrange: Zone with no status (first reconciliation)
    let zone = create_test_zone("test", "default", 1);

    // Act
    let (first_reconciliation, spec_changed) = detect_spec_changes(&zone);

    // Assert: Should detect first reconciliation and spec changed
    assert!(first_reconciliation, "Should be first reconciliation");
    assert!(spec_changed, "Spec should be considered changed");
}

#[test]
fn test_detect_spec_changes_no_change() {
    // Arrange: Zone with matching generation
    let zone = create_zone_with_status("test", "default", 5, Some(5));

    // Act
    let (first_reconciliation, spec_changed) = detect_spec_changes(&zone);

    // Assert: Not first reconciliation, no changes
    assert!(!first_reconciliation, "Should not be first reconciliation");
    assert!(!spec_changed, "Spec should not have changed");
}

#[test]
fn test_detect_spec_changes_with_change() {
    // Arrange: Zone with different generation (spec was updated)
    let zone = create_zone_with_status("test", "default", 7, Some(5));

    // Act
    let (first_reconciliation, spec_changed) = detect_spec_changes(&zone);

    // Assert: Not first reconciliation, but spec changed
    assert!(!first_reconciliation, "Should not be first reconciliation");
    assert!(spec_changed, "Spec should have changed");
}

#[test]
fn test_detect_instance_changes_no_watch_instances() {
    // Arrange: No instances in watch event
    let current_instances = vec![create_instance_ref("instance1", None)];

    // Act
    let changed = detect_instance_changes("default", "test", None, &current_instances);

    // Assert: Should return true (first reconciliation or error case)
    assert!(changed, "Should detect change when watch_instances is None");
}

#[test]
fn test_detect_instance_changes_list_changed_added() {
    // Arrange: Instance added
    let watch_instances = vec![create_instance_ref(
        "instance1",
        Some("2024-01-01T00:00:00Z".to_string()),
    )];

    let current_instances = vec![
        create_instance_ref("instance1", Some("2024-01-01T00:00:00Z".to_string())),
        create_instance_ref("instance2", None),
    ];

    // Act
    let changed = detect_instance_changes(
        "default",
        "test",
        Some(&watch_instances),
        &current_instances,
    );

    // Assert: Should detect list change
    assert!(changed, "Should detect instance list changed (added)");
}

#[test]
fn test_detect_instance_changes_list_changed_removed() {
    // Arrange: Instance removed
    let watch_instances = vec![
        create_instance_ref("instance1", Some("2024-01-01T00:00:00Z".to_string())),
        create_instance_ref("instance2", Some("2024-01-01T00:00:00Z".to_string())),
    ];

    let current_instances = vec![create_instance_ref(
        "instance1",
        Some("2024-01-01T00:00:00Z".to_string()),
    )];

    // Act
    let changed = detect_instance_changes(
        "default",
        "test",
        Some(&watch_instances),
        &current_instances,
    );

    // Assert: Should detect list change
    assert!(changed, "Should detect instance list changed (removed)");
}

#[test]
fn test_detect_instance_changes_timestamp_changed() {
    // Arrange: Same instances, but timestamp changed (cleared)
    let watch_instances = vec![create_instance_ref(
        "instance1",
        Some("2024-01-01T00:00:00Z".to_string()),
    )];

    let current_instances = vec![create_instance_ref("instance1", None)];

    // Act
    let changed = detect_instance_changes(
        "default",
        "test",
        Some(&watch_instances),
        &current_instances,
    );

    // Assert: a timestamp change on an instance that is still there is a change
    assert!(
        changed,
        "Timestamp changes should be detected to trigger reconciliation"
    );
}

#[test]
fn test_detect_instance_changes_no_change() {
    // Arrange: Same instances, same timestamps
    let watch_instances = vec![
        create_instance_ref("instance1", Some("2024-01-01T00:00:00Z".to_string())),
        create_instance_ref("instance2", Some("2024-01-02T00:00:00Z".to_string())),
    ];

    let current_instances = vec![
        create_instance_ref("instance1", Some("2024-01-01T00:00:00Z".to_string())),
        create_instance_ref("instance2", Some("2024-01-02T00:00:00Z".to_string())),
    ];

    // Act
    let changed = detect_instance_changes(
        "default",
        "test",
        Some(&watch_instances),
        &current_instances,
    );

    // Assert: Should not detect changes
    assert!(!changed, "Should not detect changes when nothing changed");
}

#[test]
fn test_detect_instance_changes_empty_lists() {
    // Arrange: Both empty
    let watch_instances = vec![];
    let current_instances = vec![];

    // Act
    let changed = detect_instance_changes(
        "default",
        "test",
        Some(&watch_instances),
        &current_instances,
    );

    // Assert: Should not detect changes
    assert!(
        !changed,
        "Should not detect changes when both lists are empty"
    );
}

// ---------------------------------------------------------------------------
// Endpoints
// ---------------------------------------------------------------------------

use bindy::reconcilers::dnszone::helpers::{
    endpoint_string, ready_endpoints, rndc_secret_name, EndpointPortEntry, EndpointSubsetEntry,
    EndpointTally,
};
use bindy::reconcilers::dnszone::types::EndpointAddress;

fn port(name: Option<&str>, number: i32) -> EndpointPortEntry {
    EndpointPortEntry {
        name: name.map(|n| n.to_string()),
        port: number,
    }
}

#[test]
fn ready_endpoints_take_the_named_port_of_each_subset() {
    let subsets = Some(vec![
        EndpointSubsetEntry {
            addresses: Some(vec!["10.0.0.1".to_string(), "10.0.0.2".to_string()]),
            ports: Some(vec![port(Some("dns-tcp"), 53), port(Some("rndc-api"), 8080)]),
        },
        EndpointSubsetEntry {
            addresses: Some(vec!["10.0.0.3".to_string()]),
            ports: Some(vec![port(None, 9), port(Some("rndc-api"), 8081)]),
        },
        EndpointSubsetEntry {
            addresses: Some(vec!["10.0.0.9".to_string()]),
            ports: Some(vec![port(Some("dns-tcp"), 53)]),
        },
    ]);
    let found = ready_endpoints(&subsets, "rndc-api").expect("endpoints");
    assert_eq!(
        found,
        vec![
            EndpointAddress { ip: "10.0.0.1".to_string(), port: 8080 },
            EndpointAddress { ip: "10.0.0.2".to_string(), port: 8080 },
            EndpointAddress { ip: "10.0.0.3".to_string(), port: 8081 },
        ]
    );
}

#[test]
fn ready_endpoints_without_a_match_are_none() {
    let subsets = Some(vec![EndpointSubsetEntry {
        addresses: None,
        ports: Some(vec![port(Some("rndc-api"), 8080)]),
    }]);
    assert_eq!(ready_endpoints(&subsets, "rndc-api"), None);
    assert_eq!(ready_endpoints(&None, "rndc-api"), None);
}

#[test]
fn endpoint_string_joins_ip_and_port() {
    let e = EndpointAddress { ip: "10.1.2.3".to_string(), port: 953 };
    assert_eq!(endpoint_string(&e), "10.1.2.3:953");
    let n = EndpointAddress { ip: "h".to_string(), port: -1 };
    assert_eq!(endpoint_string(&n), "h:-1");
}

#[test]
fn rndc_secret_name_appends_the_suffix() {
    assert_eq!(rndc_secret_name("primary-0"), "primary-0-rndc-key");
}

#[test]
fn tally_fails_only_when_every_endpoint_failed() {
    let mut tally = EndpointTally::new();
    tally.record(&"a:1".to_string(), Some("boom".to_string()));
    tally.record(&"b:2".to_string(), None);
    assert_eq!(tally.finish(), Ok((Some("a:1".to_string()), 1)));

    let mut all_failed = EndpointTally::new();
    all_failed.record(&"a:1".to_string(), Some("x".to_string()));
    all_failed.record(&"b:2".to_string(), Some("y".to_string()));
    assert_eq!(all_failed.finish(), Err(vec!["x".to_string(), "y".to_string()]));

    let empty = EndpointTally::new();
    assert_eq!(empty.finish(), Ok((None, 0)));
}

#[test]
fn strict_tally_fails_on_any_failure() {
    let mut tally = EndpointTally::new();
    tally.record(&"a:1".to_string(), None);
    tally.record(&"b:2".to_string(), Some("down".to_string()));
    assert_eq!(tally.finish_all_required(), Err(vec!["down".to_string()]));

    let mut ok = EndpointTally::new();
    ok.record(&"a:1".to_string(), None);
    assert_eq!(ok.finish_all_required(), Ok((Some("a:1".to_string()), 1)));
}

#[test]
fn timestamp_of_the_last_duplicate_entry_counts() {
    // A map keyed by the reference keeps the last entry of each object.
    let watch = vec![
        create_instance_ref("instance1", Some("t1".to_string())),
        create_instance_ref("instance1", Some("t2".to_string())),
    ];
    let current = vec![create_instance_ref("instance1", Some("t2".to_string()))];
    assert!(!detect_instance_changes("default", "test", Some(&watch), &current));
}
