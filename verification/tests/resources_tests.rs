//! Tests of the naming rules and data handling the resource helpers rely on.

use std::collections::BTreeMap;

const FIELD_MANAGER: &str = "test-controller";

#[test]
fn test_configmap_data_manipulation() {
    // Test data manipulation operations
    let mut data = BTreeMap::new();

    // Add initial data
    data.insert("key1".to_string(), "value1".to_string());
    assert_eq!(data.len(), 1);
    assert_eq!(data.get("key1").unwrap(), "value1");

    // Update existing key
    data.insert("key1".to_string(), "value1-updated".to_string());
    assert_eq!(data.len(), 1);
    assert_eq!(data.get("key1").unwrap(), "value1-updated");

    // Add new key
    data.insert("key2".to_string(), "value2".to_string());
    assert_eq!(data.len(), 2);

    // Remove key
    data.remove("key1");
    assert_eq!(data.len(), 1);
    assert!(!data.contains_key("key1"));
    assert_eq!(data.get("key2").unwrap(), "value2");
}

#[test]
fn test_resource_name_validation_logic() {
    // Test the logic that validates resource names
    let valid_names = vec!["test-resource", "test.resource", "test123", "a"];
    let invalid_names = vec!["", "Test", "test_resource", "test resource"];

    for name in valid_names {
        // These should be acceptable Kubernetes names
        assert!(name
            .chars()
            .all(|c| c.is_ascii_lowercase() || c.is_ascii_digit() || c == '-' || c == '.'));
    }

    for name in invalid_names {
        // These should NOT be acceptable
        let is_valid = !name.is_empty()
            && name
                .chars()
                .all(|c| c.is_ascii_lowercase() || c.is_ascii_digit() || c == '-' || c == '.');
        assert!(!is_valid);
    }
}

#[test]
fn test_namespace_name_validation_logic() {
    // Test namespace naming rules
    let valid_namespaces = vec!["default", "kube-system", "test-ns", "ns1"];
    let invalid_namespaces = vec!["", "Kube-System", "test_ns", "test ns"];

    for ns in valid_namespaces {
        assert!(!ns.is_empty());
        assert!(ns
            .chars()
            .all(|c| c.is_ascii_lowercase() || c.is_ascii_digit() || c == '-'));
    }

    for ns in invalid_namespaces {
        let is_valid = !ns.is_empty()
            && ns
                .chars()
                .all(|c| c.is_ascii_lowercase() || c.is_ascii_digit() || c == '-');
        assert!(!is_valid);
    }
}

#[test]
fn test_field_manager_string() {
    // Test field manager naming conventions
    let valid_managers = vec!["bindy-controller", "test-controller", "my-operator"];

    for manager in valid_managers {
        assert!(!manager.is_empty());
        assert!(manager.len() <= 128); // Kubernetes limit
        assert!(manager
            .chars()
            .all(|c| c.is_ascii_lowercase() || c.is_ascii_digit() || c == '-'));
    }

    assert_eq!(FIELD_MANAGER, "test-controller");
}
