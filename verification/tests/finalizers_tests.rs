//! Tests of finalizer bookkeeping and of the guarded patches.

use bindy::crd::ObjectMeta;
use bindy::reconcilers::finalizers::{
    build_add_finalizer_patch, build_remove_finalizer_patch, ensure_finalizer_patch,
    has_finalizer, FinalizerError, PatchOperation, PatchValue,
};

const TEST_FINALIZER: &str = "test.firestoned.io/finalizer";

#[test]
fn test_finalizer_list_manipulation() {
    // Test finalizer list operations that would happen in ensure_finalizer
    let mut finalizers: Vec<String> = vec![];

    // Adding first finalizer
    finalizers.push(TEST_FINALIZER.to_string());
    assert_eq!(finalizers.len(), 1);
    assert!(finalizers.contains(&TEST_FINALIZER.to_string()));

    // Idempotency check - don't add if already present
    if !finalizers.contains(&TEST_FINALIZER.to_string()) {
        finalizers.push(TEST_FINALIZER.to_string());
    }
    assert_eq!(finalizers.len(), 1); // Should still be 1

    // Adding different finalizer
    let other_finalizer = "other.firestoned.io/finalizer";
    finalizers.push(other_finalizer.to_string());
    assert_eq!(finalizers.len(), 2);

    // Removing specific finalizer
    finalizers.retain(|f| f != TEST_FINALIZER);
    assert_eq!(finalizers.len(), 1);
    assert!(!finalizers.contains(&TEST_FINALIZER.to_string()));
    assert!(finalizers.contains(&other_finalizer.to_string()));

    // Removing last finalizer
    finalizers.retain(|f| f != other_finalizer);
    assert_eq!(finalizers.len(), 0);
}

fn meta(finalizers: Option<Vec<&str>>, resource_version: Option<&str>) -> ObjectMeta {
    ObjectMeta {
        name: Some("x".to_string()),
        finalizers: finalizers.map(|f| f.iter().map(|s| s.to_string()).collect()),
        resource_version: resource_version.map(|s| s.to_string()),
        ..Default::default()
    }
}

#[test]
fn finalizer_presence_is_read_from_the_metadata() {
    assert!(!has_finalizer(&meta(None, None), TEST_FINALIZER));
    assert!(has_finalizer(&meta(Some(vec!["a", TEST_FINALIZER]), None), TEST_FINALIZER));
    assert!(!has_finalizer(&meta(Some(vec!["a"]), None), TEST_FINALIZER));
}

#[test]
fn adding_to_an_empty_list_creates_it_guarded_by_its_absence() {
    let ops = build_add_finalizer_patch(&[], None, TEST_FINALIZER).expect("patch");
    assert_eq!(
        ops,
        vec![
            PatchOperation::Test { path: "/metadata/finalizers".to_string(), value: PatchValue::Null },
            PatchOperation::Add {
                path: "/metadata/finalizers".to_string(),
                value: PatchValue::TextList(vec![TEST_FINALIZER.to_string()]),
            },
        ]
    );
}

#[test]
fn appending_is_guarded_by_the_resource_version() {
    let existing = vec!["other".to_string()];
    let ops = build_add_finalizer_patch(&existing, Some("42"), TEST_FINALIZER).expect("patch");
    assert_eq!(
        ops,
        vec![
            PatchOperation::Test {
                path: "/metadata/resourceVersion".to_string(),
                value: PatchValue::Text("42".to_string()),
            },
            PatchOperation::Add {
                path: "/metadata/finalizers/-".to_string(),
                value: PatchValue::Text(TEST_FINALIZER.to_string()),
            },
        ]
    );
    assert_eq!(
        build_add_finalizer_patch(&existing, None, TEST_FINALIZER),
        Err(FinalizerError::MissingResourceVersion)
    );
}

#[test]
fn removal_targets_the_first_position() {
    let existing = vec!["a".to_string(), TEST_FINALIZER.to_string(), TEST_FINALIZER.to_string()];
    let ops = build_remove_finalizer_patch(&existing, TEST_FINALIZER).expect("patch");
    assert_eq!(
        ops,
        vec![
            PatchOperation::Test {
                path: "/metadata/finalizers/1".to_string(),
                value: PatchValue::Text(TEST_FINALIZER.to_string()),
            },
            PatchOperation::Remove { path: "/metadata/finalizers/1".to_string() },
        ]
    );
    assert_eq!(build_remove_finalizer_patch(&["a".to_string()], TEST_FINALIZER), None);
}

#[test]
fn ensuring_a_present_finalizer_asks_for_nothing() {
    assert_eq!(ensure_finalizer_patch(&meta(Some(vec![TEST_FINALIZER]), Some("1")), TEST_FINALIZER), Ok(None));
    assert!(matches!(
        ensure_finalizer_patch(&meta(None, None), TEST_FINALIZER),
        Ok(Some(_))
    ));
    assert_eq!(
        ensure_finalizer_patch(&meta(Some(vec!["a"]), None), TEST_FINALIZER),
        Err(FinalizerError::MissingResourceVersion)
    );
}

#[test]
fn removal_after_addition_targets_the_added_entry() {
    let mut list = vec!["a".to_string(), "b".to_string()];
    list.push(TEST_FINALIZER.to_string());
    let ops = build_remove_finalizer_patch(&list, TEST_FINALIZER).expect("patch");
    assert_eq!(ops[1], PatchOperation::Remove { path: "/metadata/finalizers/2".to_string() });
}
