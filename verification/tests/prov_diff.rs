use onmsctl::json::Value;
use onmsctl::provisioning::diff::{
    aggregate_rescan_decision, canonicalize, classify_leaf, diff_requisition, l1_compare,
    scan_relevant_paths, L1Result, ScanRelevance,
};
use onmsctl::provisioning::model::{
    ApiVersion, Assets, Detector, ForeignSourceSpec, Interface, Kind, Metadata, Node, Parameter,
    Policy, RequisitionLocal, SnmpPrimary, Spec,
};

fn doc(fs: Option<ForeignSourceSpec>, nodes: Vec<Node>) -> RequisitionLocal {
    RequisitionLocal {
        api_version: ApiVersion,
        kind: Kind,
        metadata: Metadata { name: "acme-prod".to_string(), unmodeled: None },
        spec: Spec { foreign_source: fs, nodes },
    }
}

fn node(fid: &str, label: &str, categories: &[&str], interfaces: Vec<Interface>) -> Node {
    Node {
        foreign_id: fid.to_string(),
        label: label.to_string(),
        location: None,
        interfaces,
        categories: categories.iter().map(|c| c.to_string()).collect(),
        assets: Assets::new(),
    }
}

fn iface(ip: &str, services: &[&str], snmp: Option<SnmpPrimary>) -> Interface {
    Interface {
        ip: ip.to_string(),
        services: services.iter().map(|s| s.to_string()).collect(),
        snmp_primary: snmp,
    }
}

fn detector(name: &str, params: &[(&str, &str)]) -> Detector {
    Detector {
        name: name.to_string(),
        class: None,
        parameters: params
            .iter()
            .map(|(k, v)| Parameter { key: k.to_string(), value: v.to_string() })
            .collect(),
    }
}

fn policy(name: &str, class: &str) -> Policy {
    Policy { name: name.to_string(), class: class.to_string(), parameters: vec![] }
}

fn fs(scan: Option<&str>, detectors: Vec<Detector>, policies: Vec<Policy>) -> ForeignSourceSpec {
    ForeignSourceSpec { scan_interval: scan.map(|s| s.to_string()), detectors, policies }
}

fn paths(p: &[&str]) -> Vec<String> {
    p.iter().map(|s| s.to_string()).collect()
}

#[test]
fn reordered_object_keys_produce_same_canonical_bytes() {
    let a = doc(None, vec![node("web01", "w", &[], vec![])]);
    let b = doc(None, vec![node("web01", "w", &[], vec![])]);
    assert_eq!(canonicalize(&a), canonicalize(&b));
    assert_eq!(l1_compare(&a, &b), L1Result::Unchanged);
}

#[test]
fn reordered_categories_produce_same_canonical_bytes() {
    let a = doc(None, vec![node("web01", "w", &["Production", "Web"], vec![])]);
    let b = doc(None, vec![node("web01", "w", &["Web", "Production"], vec![])]);
    assert_eq!(canonicalize(&a), canonicalize(&b));
    assert_eq!(l1_compare(&a, &b), L1Result::Unchanged);
}

#[test]
fn duplicate_categories_canonicalize_away() {
    let a = doc(None, vec![node("web01", "w", &["Production", "Production", "Web"], vec![])]);
    let b = doc(None, vec![node("web01", "w", &["Production", "Web"], vec![])]);
    assert_eq!(canonicalize(&a), canonicalize(&b));
}

#[test]
fn reordered_services_produce_same_canonical_bytes() {
    let a = doc(None, vec![node("web01", "w", &[], vec![iface("10.0.0.5", &["HTTP", "ICMP", "SNMP"], None)])]);
    let b = doc(None, vec![node("web01", "w", &[], vec![iface("10.0.0.5", &["SNMP", "ICMP", "HTTP"], None)])]);
    assert_eq!(canonicalize(&a), canonicalize(&b));
}

#[test]
fn reordered_nodes_produce_same_canonical_bytes() {
    let a = doc(None, vec![node("web01", "web01", &[], vec![]), node("web02", "web02", &[], vec![])]);
    let b = doc(None, vec![node("web02", "web02", &[], vec![]), node("web01", "web01", &[], vec![])]);
    assert_eq!(canonicalize(&a), canonicalize(&b));
}

#[test]
fn reordered_interfaces_within_a_node_produce_same_canonical_bytes() {
    let a = doc(None, vec![node("web01", "w", &[], vec![iface("10.0.0.5", &[], None), iface("10.0.0.6", &[], None)])]);
    let b = doc(None, vec![node("web01", "w", &[], vec![iface("10.0.0.6", &[], None), iface("10.0.0.5", &[], None)])]);
    assert_eq!(canonicalize(&a), canonicalize(&b));
}

#[test]
fn reordered_parameters_within_a_detector_produce_same_canonical_bytes() {
    let a = doc(Some(fs(None, vec![detector("SNMP", &[("timeout", "1000"), ("retries", "2")])], vec![])), vec![]);
    let b = doc(Some(fs(None, vec![detector("SNMP", &[("retries", "2"), ("timeout", "1000")])], vec![])), vec![]);
    assert_eq!(canonicalize(&a), canonicalize(&b));
}

#[test]
fn reordered_detectors_produce_different_canonical_bytes() {
    let a = doc(Some(fs(None, vec![detector("ICMP", &[]), detector("SNMP", &[])], vec![])), vec![]);
    let b = doc(Some(fs(None, vec![detector("SNMP", &[]), detector("ICMP", &[])], vec![])), vec![]);
    assert_ne!(canonicalize(&a), canonicalize(&b));
    assert_eq!(l1_compare(&a, &b), L1Result::Changed);
}

#[test]
fn reordered_policies_produce_different_canonical_bytes() {
    let a = doc(Some(fs(None, vec![], vec![policy("Alpha", "o.X"), policy("Beta", "o.Y")])), vec![]);
    let b = doc(Some(fs(None, vec![], vec![policy("Beta", "o.Y"), policy("Alpha", "o.X")])), vec![]);
    assert_ne!(canonicalize(&a), canonicalize(&b));
}

#[test]
fn adding_a_node_changes_canonical_bytes() {
    let a = doc(None, vec![node("web01", "w", &[], vec![])]);
    let b = doc(None, vec![node("web01", "w", &[], vec![]), node("web02", "w2", &[], vec![])]);
    assert_ne!(canonicalize(&a), canonicalize(&b));
    assert_eq!(l1_compare(&a, &b), L1Result::Changed);
}

#[test]
fn changing_a_label_changes_canonical_bytes() {
    let a = doc(None, vec![node("web01", "original", &[], vec![])]);
    let b = doc(None, vec![node("web01", "changed", &[], vec![])]);
    assert_ne!(canonicalize(&a), canonicalize(&b));
}

#[test]
fn changing_snmp_primary_changes_canonical_bytes() {
    let a = doc(None, vec![node("web01", "w", &[], vec![iface("10.0.0.5", &[], Some(SnmpPrimary::P))])]);
    let b = doc(None, vec![node("web01", "w", &[], vec![iface("10.0.0.5", &[], Some(SnmpPrimary::S))])]);
    assert_ne!(canonicalize(&a), canonicalize(&b));
}

#[test]
fn canonicalize_is_deterministic_across_repeated_calls() {
    let d = doc(None, vec![node("web01", "w", &[], vec![])]);
    let bytes_a = canonicalize(&d);
    let bytes_b = canonicalize(&d);
    let bytes_c = canonicalize(&d);
    assert_eq!(bytes_a, bytes_b);
    assert_eq!(bytes_b, bytes_c);
}

#[test]
fn l1_compare_reflexive() {
    let d = doc(None, vec![]);
    assert_eq!(l1_compare(&d, &d), L1Result::Unchanged);
}

#[test]
fn rescan_classifier_scan_relevant_leaves() {
    let relevant = [
        "spec.nodes[0]",
        "spec.nodes[0].interfaces[0]",
        "spec.nodes[0].interfaces[0].ip",
        "spec.nodes[0].interfaces[0].services",
        "spec.nodes[0].interfaces[0].services[2]",
        "spec.nodes[0].interfaces[0].snmpPrimary",
        "spec.foreignSource.detectors",
        "spec.foreignSource.detectors[0]",
        "spec.foreignSource.detectors[0].class",
        "spec.foreignSource.policies",
        "spec.foreignSource.policies[1].parameters[0]",
    ];
    for p in relevant {
        assert_eq!(classify_leaf(p), ScanRelevance::Relevant, "{p} should be scan-relevant");
    }
}

#[test]
fn rescan_classifier_scan_irrelevant_leaves() {
    let irrelevant = [
        "spec.nodes[0].label",
        "spec.nodes[0].categories",
        "spec.nodes[0].categories[0]",
        "spec.nodes[0].assets",
        "spec.nodes[0].assets.building",
        "spec.foreignSource.scanInterval",
    ];
    for p in irrelevant {
        assert_eq!(classify_leaf(p), ScanRelevance::Irrelevant, "{p} should be scan-irrelevant");
    }
}

#[test]
fn rescan_classifier_unknown_path_defaults_relevant() {
    let unknown = [
        "spec.somethingFuture",
        "spec.nodes[0].newField",
        "spec.foreignSource.newField",
        "topLevel.elsewhere",
    ];
    for p in unknown {
        assert_eq!(classify_leaf(p), ScanRelevance::Relevant, "{p} should default to scan-relevant");
    }
}

#[test]
fn rescan_classifier_normalizes_indices() {
    assert_eq!(classify_leaf("spec.nodes[0].label"), classify_leaf("spec.nodes[999].label"));
    assert_eq!(
        classify_leaf("spec.nodes[0].interfaces[0].ip"),
        classify_leaf("spec.nodes[42].interfaces[7].ip")
    );
}

#[test]
fn rescan_aggregator_any_relevant_means_true() {
    let p = paths(&[
        "spec.nodes[0].label",
        "spec.nodes[0].categories",
        "spec.foreignSource.detectors[0].name",
    ]);
    assert!(aggregate_rescan_decision(&p));
}

#[test]
fn rescan_aggregator_all_irrelevant_means_false() {
    let p = paths(&[
        "spec.nodes[0].label",
        "spec.nodes[0].categories[0]",
        "spec.nodes[0].assets.building",
        "spec.foreignSource.scanInterval",
    ]);
    assert!(!aggregate_rescan_decision(&p));
}

#[test]
fn rescan_aggregator_empty_is_false() {
    let p: Vec<String> = vec![];
    assert!(!aggregate_rescan_decision(&p));
}

#[test]
fn scan_relevant_paths_keeps_order_and_relevant_only() {
    let p = paths(&["spec.nodes[0].label", "spec.nodes[*]", "spec.foreignSource.detectors[1]"]);
    assert_eq!(scan_relevant_paths(&p), paths(&["spec.nodes[*]", "spec.foreignSource.detectors[1]"]));
}

#[test]
fn diff_empty_for_identical_requisitions() {
    let a = doc(None, vec![node("web01", "w", &[], vec![iface("10.0.0.5", &[], None)])]);
    let b = a.clone();
    let d = diff_requisition(&a, &b);
    assert!(d.is_empty(), "identical inputs produce empty delta");
    assert_eq!(d.iter_paths().len(), 0);
}

#[test]
fn diff_detects_added_node() {
    let a = doc(None, vec![node("web01", "w1", &[], vec![]), node("web02", "w2", &[], vec![])]);
    let b = doc(None, vec![node("web01", "w1", &[], vec![])]);
    let d = diff_requisition(&a, &b);
    assert_eq!(d.nodes_added.len(), 1);
    assert_eq!(d.nodes_added[0].foreign_id, "web02");
    assert!(d.nodes_removed.is_empty());
    assert!(d.nodes_modified.is_empty());
    assert!(d.iter_paths().iter().any(|p| p == "spec.nodes[*]"));
}

#[test]
fn diff_detects_removed_node() {
    let a = doc(None, vec![node("web01", "w1", &[], vec![])]);
    let b = doc(None, vec![node("web01", "w1", &[], vec![]), node("web02", "w2", &[], vec![])]);
    let d = diff_requisition(&a, &b);
    assert_eq!(d.nodes_removed.len(), 1);
    assert_eq!(d.nodes_removed[0].foreign_id, "web02");
    assert!(d.nodes_added.is_empty());
}

#[test]
fn diff_detects_modified_label_as_irrelevant_leaf() {
    let a = doc(None, vec![node("web01", "changed", &[], vec![])]);
    let b = doc(None, vec![node("web01", "original", &[], vec![])]);
    let d = diff_requisition(&a, &b);
    assert_eq!(d.nodes_modified.len(), 1);
    let m = &d.nodes_modified[0];
    assert_eq!(m.foreign_id, "web01");
    assert!(m.leaves.iter().any(|c| c.path.ends_with(".label")));
    assert!(!aggregate_rescan_decision(&d.iter_paths()));
}

#[test]
fn diff_detects_modified_snmp_primary_as_relevant_leaf() {
    let a = doc(None, vec![node("web01", "w", &[], vec![iface("10.0.0.5", &[], Some(SnmpPrimary::P))])]);
    let b = doc(None, vec![node("web01", "w", &[], vec![iface("10.0.0.5", &[], Some(SnmpPrimary::S))])]);
    let d = diff_requisition(&a, &b);
    assert_eq!(d.nodes_modified.len(), 1);
    let m = &d.nodes_modified[0];
    assert!(m.leaves.iter().any(|c| c.path.ends_with(".snmpPrimary")), "leaves = {:?}", m.leaves);
    assert!(aggregate_rescan_decision(&d.iter_paths()));
}

#[test]
fn diff_detects_foreign_source_detector_reorder() {
    let a = doc(Some(fs(None, vec![detector("ICMP", &[]), detector("SNMP", &[])], vec![])), vec![]);
    let b = doc(Some(fs(None, vec![detector("SNMP", &[]), detector("ICMP", &[])], vec![])), vec![]);
    let d = diff_requisition(&a, &b);
    assert!(!d.foreign_source_changes.is_empty(), "ordered list reorder must surface");
    assert!(aggregate_rescan_decision(&d.iter_paths()));
}

#[test]
fn diff_ignores_category_reorder() {
    let a = doc(None, vec![node("web01", "w", &["Production", "Web"], vec![])]);
    let b = doc(None, vec![node("web01", "w", &["Web", "Production"], vec![])]);
    let d = diff_requisition(&a, &b);
    assert!(d.is_empty(), "set reorder does not surface in L2");
}

#[test]
fn diff_paths_are_rooted_at_spec() {
    let a = doc(None, vec![node("web01", "changed", &[], vec![])]);
    let b = doc(None, vec![node("web01", "original", &[], vec![])]);
    let d = diff_requisition(&a, &b);
    for leaf in &d.nodes_modified[0].leaves {
        assert!(leaf.path.starts_with("spec.nodes[*]"), "leaf path '{}' should start with spec.nodes[*]", leaf.path);
    }
}

#[test]
fn diff_foreign_source_paths_are_rooted() {
    let a = doc(Some(fs(Some("1d"), vec![], vec![])), vec![]);
    let b = doc(Some(fs(Some("2h"), vec![], vec![])), vec![]);
    let d = diff_requisition(&a, &b);
    assert!(!d.foreign_source_changes.is_empty());
    for leaf in &d.foreign_source_changes {
        assert!(leaf.path.starts_with("spec.foreignSource"), "leaf path '{}' should start with spec.foreignSource", leaf.path);
    }
    assert!(!aggregate_rescan_decision(&d.iter_paths()));
}

#[test]
fn diff_mixed_buckets_at_once() {
    let a = doc(None, vec![node("web01", "NEW", &[], vec![]), node("web03", "w3", &[], vec![])]);
    let b = doc(None, vec![node("web01", "OLD", &[], vec![]), node("web04", "w4", &[], vec![])]);
    let d = diff_requisition(&a, &b);
    let added: Vec<&str> = d.nodes_added.iter().map(|n| n.foreign_id.as_str()).collect();
    let removed: Vec<&str> = d.nodes_removed.iter().map(|n| n.foreign_id.as_str()).collect();
    let modified: Vec<&str> = d.nodes_modified.iter().map(|n| n.foreign_id.as_str()).collect();
    assert_eq!(added, vec!["web03"]);
    assert_eq!(removed, vec!["web04"]);
    assert_eq!(modified, vec!["web01"]);
    assert!(aggregate_rescan_decision(&d.iter_paths()));
}

#[test]
fn diff_leaf_change_carries_from_and_to() {
    let a = doc(None, vec![node("web01", "NEW", &[], vec![])]);
    let b = doc(None, vec![node("web01", "OLD", &[], vec![])]);
    let d = diff_requisition(&a, &b);
    let label_change = d.nodes_modified[0]
        .leaves
        .iter()
        .find(|c| c.path.ends_with(".label"))
        .expect("label leaf change present");
    assert_eq!(label_change.from, Value::Str("OLD".into()));
    assert_eq!(label_change.to, Value::Str("NEW".into()));
}

#[test]
fn diff_added_foreign_source_block_surfaces() {
    let a = doc(Some(fs(Some("1d"), vec![], vec![])), vec![]);
    let b = doc(None, vec![]);
    let d = diff_requisition(&a, &b);
    assert!(!d.foreign_source_changes.is_empty(), "adding foreignSource must surface");
    assert!(aggregate_rescan_decision(&d.iter_paths()));
}

#[test]
fn canonical_bytes_are_compact_json_of_sorted_document() {
    let a = doc(None, vec![node("web02", "b", &["Web", "Db", "Web"], vec![]), node("web01", "a", &[], vec![])]);
    let text = String::from_utf8(canonicalize(&a)).unwrap();
    assert!(text.starts_with("{\"apiVersion\":\"provisioning.opennms.org/v1\""), "{text}");
    let i1 = text.find("web01").unwrap();
    let i2 = text.find("web02").unwrap();
    assert!(i1 < i2, "nodes sorted by foreign id: {text}");
    assert!(text.contains("[\"Db\",\"Web\"]"), "categories sorted and deduplicated: {text}");
}

#[test]
fn l1_compare_is_symmetric_and_ignores_all_reorderings_at_once() {
    let a = doc(
        Some(fs(Some("1d"), vec![detector("ICMP", &[("retries", "2"), ("timeout", "3000")])], vec![])),
        vec![
            node("web01", "w", &["Prod", "Web"], vec![iface("10.0.0.1", &["ICMP", "HTTP"], None), iface("10.0.0.2", &[], None)]),
            node("db01", "d", &["Prod"], vec![]),
        ],
    );
    let b = doc(
        Some(fs(Some("1d"), vec![detector("ICMP", &[("timeout", "3000"), ("retries", "2")])], vec![])),
        vec![
            node("db01", "d", &["Prod", "Prod"], vec![]),
            node("web01", "w", &["Web", "Prod", "Web"], vec![iface("10.0.0.2", &[], None), iface("10.0.0.1", &["HTTP", "ICMP", "ICMP"], None)]),
        ],
    );
    assert_eq!(l1_compare(&a, &b), L1Result::Unchanged);
    assert_eq!(l1_compare(&b, &a), L1Result::Unchanged);
    let c = doc(None, vec![node("web01", "w", &[], vec![])]);
    assert_eq!(l1_compare(&a, &c), L1Result::Changed);
    assert_eq!(l1_compare(&c, &a), L1Result::Changed);
}

#[test]
fn diff_node_lists_are_the_sorted_id_sets() {
    let local = doc(None, vec![node("zeta", "z", &[], vec![]), node("alpha", "a", &[], vec![]), node("mid", "m2", &[], vec![]), node("beta", "b", &[], vec![])]);
    let remote = doc(None, vec![node("mid", "m", &[], vec![]), node("gamma", "g", &[], vec![]), node("beta", "b", &[], vec![]), node("delta", "d", &[], vec![])]);
    let d = diff_requisition(&local, &remote);
    let added: Vec<&str> = d.nodes_added.iter().map(|n| n.foreign_id.as_str()).collect();
    let removed: Vec<&str> = d.nodes_removed.iter().map(|n| n.foreign_id.as_str()).collect();
    let modified: Vec<&str> = d.nodes_modified.iter().map(|n| n.foreign_id.as_str()).collect();
    assert_eq!(added, vec!["alpha", "zeta"]);
    assert_eq!(removed, vec!["delta", "gamma"]);
    assert_eq!(modified, vec!["mid"]);
    for m in &d.nodes_modified {
        assert!(!m.leaves.is_empty());
        for leaf in &m.leaves {
            assert!(leaf.path.starts_with("spec.nodes[*]"));
            assert_ne!(leaf.from, leaf.to);
        }
    }
}
