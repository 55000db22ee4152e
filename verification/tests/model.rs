use onmsctl::provisioning::model::{Assets, API_VERSION, KIND};

#[test]
fn api_version_constants_are_exact() {
    assert_eq!(API_VERSION, "provisioning.opennms.org/v1");
    assert_eq!(KIND, "Requisition");
}

#[test]
fn assets_keep_names_sorted_and_replace_in_place() {
    let mut a = Assets::new();
    a.insert("rack".to_string(), "r1".to_string());
    a.insert("city".to_string(), "NYC".to_string());
    a.insert("rack".to_string(), "r2".to_string());
    assert_eq!(a.len(), 2);
    assert_eq!(a.name_at(0), "city");
    assert_eq!(a.value_at(0), "NYC");
    assert_eq!(a.name_at(1), "rack");
    assert_eq!(a.value_at(1), "r2");
    assert!(!a.is_empty());
    assert!(Assets::new().is_empty());
}
