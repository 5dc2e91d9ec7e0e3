//! Tests of the decisions of the record reconcilers and controller.

use bindy::crd::{
    ARecordSpec, Condition, DNSRecordKind, DNSZone, DNSZoneSpec, DNSZoneStatus, MXRecordSpec,
    ObjectMeta, RecordReferenceWithTimestamp, RecordStatus, SOARecord, ZoneReference,
};
use bindy::reconcilers::records::{
    add_failure_write, add_success_write, deletion_outcome, detect_renamed_record,
    record_deletion_skip, record_reconcile_step, DeletionSkip, RecordReconcileAction,
    RecordReconcileEvent, RecordReconcileState,
    mark_record_reconciled, preparation_failure_write, record_deletion_name,
    record_status_update, rename_failure_write, unselected_record_write, PreparationFailure,
    RecordSpec,
};
use bindy::record_operator::{
    missing_namespace_error, reconcile_error_for, records_to_reconcile, resource_key,
    FinalizerFailure, ReconcileError,
};

fn status_with_published(name: Option<&str>) -> RecordStatus {
    RecordStatus {
        published_name: name.map(|n| n.to_string()),
        ..Default::default()
    }
}

#[test]
fn renames_are_detected_from_the_published_name() {
    let published = status_with_published(Some("old"));
    assert_eq!(detect_renamed_record(Some(&published), "new"), Some("old".to_string()));
    assert_eq!(detect_renamed_record(Some(&published), "old"), None);
    assert_eq!(detect_renamed_record(Some(&status_with_published(None)), "new"), None);
    assert_eq!(detect_renamed_record(None, "new"), None);
}

#[test]
fn deletion_uses_the_published_then_spec_then_resource_name() {
    assert_eq!(
        record_deletion_name(&Some(status_with_published(Some("pub"))), &Some("spec".to_string()), "res"),
        "pub"
    );
    assert_eq!(
        record_deletion_name(&Some(status_with_published(None)), &Some("spec".to_string()), "res"),
        "spec"
    );
    assert_eq!(record_deletion_name(&None, &None, "res"), "res");
}

#[test]
fn strict_deletions_fail_on_any_failure() {
    assert_eq!(deletion_outcome(true, vec!["e".to_string()]), Err(vec!["e".to_string()]));
    assert_eq!(deletion_outcome(false, vec!["e".to_string()]), Ok(()));
    assert_eq!(deletion_outcome(true, vec![]), Ok(()));
}

#[test]
fn unselected_records_are_marked_once_per_generation() {
    let observed = Some(RecordStatus { observed_generation: Some(3), ..Default::default() });
    assert!(unselected_record_write(&observed, Some(3)).is_none());
    let w = unselected_record_write(&observed, Some(4)).expect("write");
    assert_eq!(w.condition_type, "Ready");
    assert_eq!(w.status, "False");
    assert_eq!(w.reason, "NotSelected");
    assert_eq!(w.message, "Record not selected by any DNSZone recordsFrom selector");
    assert!(unselected_record_write(&None, Some(1)).is_some());
    assert!(unselected_record_write(&None, None).is_none());
}

fn zone_ref() -> ZoneReference {
    ZoneReference {
        api_version: "bindy.firestoned.io/v1beta1".to_string(),
        kind: "DNSZone".to_string(),
        name: "example".to_string(),
        namespace: "team".to_string(),
        zone_name: "example.com".to_string(),
        last_reconciled_at: None,
    }
}

#[test]
fn preparation_failures_write_their_reasons() {
    let z = zone_ref();
    let w = preparation_failure_write(&z, &PreparationFailure::ZoneNotFound("404".to_string()));
    assert_eq!(w.reason, "ZoneNotFound");
    assert_eq!(w.message, "Referenced DNSZone team/example not found: 404");
    let w = preparation_failure_write(&z, &PreparationFailure::ZoneNotConfigured("none".to_string()));
    assert_eq!((w.reason.as_str(), w.message.as_str()), ("ZoneNotConfigured", "DNSZone has no instances: none"));
    let w = preparation_failure_write(&z, &PreparationFailure::InstanceFilterError("x".to_string()));
    assert_eq!(w.message, "Failed to filter primary instances: x");
    let w = preparation_failure_write(&z, &PreparationFailure::NoPrimaryInstances);
    assert_eq!(
        (w.reason.as_str(), w.message.as_str()),
        ("NoPrimaryInstances", "DNSZone has no primary instances configured")
    );
    assert!(w.record_hash.is_none() && w.published_name.is_none());
}

#[test]
fn add_outcomes_write_their_statuses() {
    let spec = RecordSpec::A(ARecordSpec {
        name: "www".to_string(),
        ipv4_address: "192.0.2.1".to_string(),
        ttl: Some(300),
    });
    let ok = add_success_write(&spec, "example.com", "h1".to_string(), "2025-01-01T00:00:00Z".to_string());
    assert_eq!(ok.status, "True");
    assert_eq!(ok.reason, "ReconcileSucceeded");
    assert_eq!(ok.message, "A record added to zone example.com");
    assert_eq!(ok.record_hash.as_deref(), Some("h1"));
    assert_eq!(ok.addresses.as_deref(), Some("192.0.2.1"));
    assert_eq!(ok.published_name.as_deref(), Some("www"));

    let mx = RecordSpec::MX(MXRecordSpec {
        name: "@".to_string(),
        priority: 10,
        mail_server: "mail.example.com.".to_string(),
        ttl: None,
    });
    let ok = add_success_write(&mx, "example.com", "h".to_string(), "t".to_string());
    assert_eq!(ok.message, "MX record added to zone example.com");
    assert!(ok.addresses.is_none());
    assert_eq!(mx.kind(), DNSRecordKind::MX);
    assert_eq!(mx.ttl(), None);

    assert_eq!(add_failure_write("timeout").message, "Failed to add record to zone: timeout");
    assert_eq!(
        rename_failure_write("old", "refused").message,
        "Failed to delete renamed record 'old' from zone: refused"
    );
}

fn condition(status: &str, reason: &str, message: &str, time: &str) -> Condition {
    Condition {
        condition_type: "Ready".to_string(),
        status: status.to_string(),
        reason: Some(reason.to_string()),
        message: Some(message.to_string()),
        last_transition_time: Some(time.to_string()),
    }
}

#[test]
fn status_writes_settle_and_keep_transition_times() {
    let w = add_failure_write("boom");
    let (first, event) = record_status_update(&None, Some(2), &w, None, "T1").expect("first write");
    assert_eq!(event, "Warning");
    assert_eq!(first.observed_generation, Some(2));
    assert_eq!(first.conditions.len(), 1);
    assert_eq!(first.conditions[0].last_transition_time.as_deref(), Some("T1"));

    // The same write for the same generation is skipped.
    assert!(record_status_update(&Some(first), Some(2), &w, None, "T2").is_none());

    // Same status, new message: written, transition time kept.
    let current = RecordStatus {
        conditions: vec![condition("False", "ReconcileFailed", "old", "T0")],
        observed_generation: Some(2),
        zone: Some("example.com".to_string()),
        ..Default::default()
    };
    let (next, _) = record_status_update(&Some(current), Some(2), &w, None, "T3").expect("write");
    assert_eq!(next.conditions[0].last_transition_time.as_deref(), Some("T0"));
    assert_eq!(next.zone.as_deref(), Some("example.com"));

    // A status change takes the new time; an explicit observed generation wins.
    let current = RecordStatus {
        conditions: vec![condition("False", "ReconcileFailed", "old", "T0")],
        observed_generation: Some(2),
        ..Default::default()
    };
    let ok = add_success_write(
        &RecordSpec::A(ARecordSpec { name: "www".to_string(), ipv4_address: "192.0.2.1".to_string(), ttl: None }),
        "example.com",
        "h".to_string(),
        "T4".to_string(),
    );
    let (next, event) = record_status_update(&Some(current), Some(2), &ok, Some(5), "T4").expect("write");
    assert_eq!(event, "Normal");
    assert_eq!(next.conditions[0].last_transition_time.as_deref(), Some("T4"));
    assert_eq!(next.observed_generation, Some(5));
    assert_eq!(next.addresses.as_deref(), Some("192.0.2.1"));
}

fn record(kind: &str, name: &str, namespace: &str, stamp: Option<&str>) -> RecordReferenceWithTimestamp {
    RecordReferenceWithTimestamp {
        api_version: "bindy.firestoned.io/v1beta1".to_string(),
        kind: kind.to_string(),
        name: name.to_string(),
        namespace: namespace.to_string(),
        record_name: None,
        last_reconciled_at: stamp.map(|s| s.to_string()),
    }
}

#[test]
fn marking_a_record_reconciled_stamps_the_first_match() {
    let mut status = DNSZoneStatus {
        records: vec![
            record("ARecord", "web", "team", None),
            record("TXTRecord", "web", "team", None),
            record("ARecord", "web", "team", None),
        ],
        ..Default::default()
    };
    assert!(mark_record_reconciled(&mut status, "ARecord", "web", "team", "NOW"));
    assert_eq!(status.records[0].last_reconciled_at.as_deref(), Some("NOW"));
    assert_eq!(status.records[1].last_reconciled_at, None);
    assert_eq!(status.records[2].last_reconciled_at, None);
    assert!(!mark_record_reconciled(&mut status, "MXRecord", "web", "team", "NOW"));
}

fn zone(namespace: Option<&str>, records: Vec<RecordReferenceWithTimestamp>) -> DNSZone {
    DNSZone {
        metadata: ObjectMeta {
            name: Some("example".to_string()),
            namespace: namespace.map(|s| s.to_string()),
            ..Default::default()
        },
        spec: DNSZoneSpec {
            zone_name: "example.com".to_string(),
            cluster_ref: None,
            soa_record: SOARecord {
                primary_ns: "ns1.".to_string(),
                admin_email: "a.".to_string(),
                serial: 1,
                refresh: 1,
                retry: 1,
                expire: 1,
                negative_ttl: 1,
            },
            ttl: None,
            name_servers: None,
            name_server_ips: None,
            records_from: None,
            bind9_instances_from: None,
        },
        status: Some(DNSZoneStatus { records, ..Default::default() }),
    }
}

#[test]
fn a_zone_change_wakes_its_unreconciled_records_of_one_kind() {
    let z = zone(
        Some("team"),
        vec![
            record("ARecord", "a1", "team", None),
            record("ARecord", "a2", "team", Some("t")),
            record("TXTRecord", "t1", "team", None),
            record("ARecord", "a3", "elsewhere", None),
        ],
    );
    assert_eq!(records_to_reconcile(&z, "ARecord"), vec![("a1".to_string(), "team".to_string())]);
    assert!(records_to_reconcile(&zone(None, vec![record("ARecord", "a1", "team", None)]), "ARecord").is_empty());
}

#[test]
fn controller_errors_and_keys() {
    assert_eq!(resource_key("ARecord", "team", "web"), "ARecord/team/web");
    assert_eq!(missing_namespace_error("ARecord").message(), "ARecord has no namespace");
    assert_eq!(
        reconcile_error_for("ARecord", FinalizerFailure::AddFinalizer("conflict".to_string())),
        ReconcileError::new("Finalizer error: conflict".to_string())
    );
    assert_eq!(
        reconcile_error_for("ARecord", FinalizerFailure::ApplyFailed("bind9 down".to_string())).message,
        "bind9 down"
    );
    assert_eq!(reconcile_error_for("ARecord", FinalizerFailure::UnnamedObject).message, "ARecord has no name");
    assert_eq!(
        reconcile_error_for("ARecord", FinalizerFailure::InvalidFinalizer).message,
        "Invalid finalizer for ARecord"
    );
}

#[test]
fn srv_data_copies_the_spec() {
    let spec = bindy::crd::SRVRecordSpec {
        name: "_sip._tcp".to_string(),
        priority: 10,
        weight: 60,
        port: 5060,
        target: "sip.example.com.".to_string(),
        ttl: Some(600),
    };
    let data = bindy::reconcilers::records::srv_record_data(&spec);
    assert_eq!(
        data,
        bindy::crd::SRVRecordData {
            priority: 10,
            weight: 60,
            port: 5060,
            target: "sip.example.com.".to_string(),
            ttl: Some(600),
        }
    );
}

#[test]
fn deletion_skips_the_dns_step_where_there_is_nowhere_to_delete_from() {
    assert_eq!(record_deletion_skip(false, true, true, Some(2)), Some(DeletionSkip::NoZoneRef));
    assert_eq!(record_deletion_skip(true, false, true, Some(2)), Some(DeletionSkip::ZoneNotFound));
    assert_eq!(record_deletion_skip(true, true, false, Some(2)), Some(DeletionSkip::ZoneHasNoInstances));
    assert_eq!(record_deletion_skip(true, true, true, None), Some(DeletionSkip::PrimaryFilterFailed));
    assert_eq!(record_deletion_skip(true, true, true, Some(0)), Some(DeletionSkip::NoPrimaryInstances));
    assert_eq!(record_deletion_skip(true, true, true, Some(1)), None);
    // best-effort deletion from the primaries never blocks the resource's deletion
    assert_eq!(deletion_outcome(false, vec!["unreachable".to_string()]), Ok(()));
}

#[test]
fn a_renamed_record_is_added_only_after_its_old_name_is_deleted() {
    let (state, action) = record_reconcile_step(RecordReconcileState::Prepared, RecordReconcileEvent::Start(Some("old".to_string())));
    assert_eq!(state, RecordReconcileState::DeletingOldName("old".to_string()));
    assert_eq!(action, RecordReconcileAction::DeleteOldName);

    // adding is not possible while the old name is being deleted
    let (state, action) = record_reconcile_step(state, RecordReconcileEvent::Added(Ok(())));
    assert_eq!(action, RecordReconcileAction::Nothing);
    assert_eq!(state, RecordReconcileState::DeletingOldName("old".to_string()));

    let (failed, action) =
        record_reconcile_step(RecordReconcileState::DeletingOldName("old".to_string()), RecordReconcileEvent::OldNameDeleted(Err("refused".to_string())));
    assert_eq!(failed, RecordReconcileState::Finished);
    assert_eq!(action, RecordReconcileAction::RenameFailed("old".to_string(), "refused".to_string()));

    let (state, action) = record_reconcile_step(state, RecordReconcileEvent::OldNameDeleted(Ok(())));
    assert_eq!((state, action), (RecordReconcileState::Adding, RecordReconcileAction::AddRecord));
}

#[test]
fn a_record_that_was_not_renamed_is_added_at_once() {
    let (state, action) = record_reconcile_step(RecordReconcileState::Prepared, RecordReconcileEvent::Start(None));
    assert_eq!(state, RecordReconcileState::Adding);
    assert_eq!(action, RecordReconcileAction::AddRecord);
    let (state, action) = record_reconcile_step(state, RecordReconcileEvent::Added(Ok(())));
    assert_eq!((state, action), (RecordReconcileState::Finished, RecordReconcileAction::Published));
    let (_, action) =
        record_reconcile_step(RecordReconcileState::Adding, RecordReconcileEvent::Added(Err("timeout".to_string())));
    assert_eq!(action, RecordReconcileAction::AddFailed("timeout".to_string()));
}
