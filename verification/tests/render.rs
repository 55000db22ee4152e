use onmsctl::json::Value;
use onmsctl::provisioning::apply::{ApplyOutcome, ApplyState, ForeignSourceAction};
use onmsctl::provisioning::diff::{LeafChange, NodeModification, NodeRef, RequisitionDelta};
use onmsctl::provisioning::model::{ApiVersion, ForeignSourceSpec, Kind, Metadata, RequisitionLocal, Spec};
use onmsctl::provisioning::render::render_apply_diff;
use onmsctl::provisioning::server::{DetectorServer, ForeignSourceServer, PolicyServer};

fn local(fs: Option<ForeignSourceSpec>) -> RequisitionLocal {
    RequisitionLocal {
        api_version: ApiVersion,
        kind: Kind,
        metadata: Metadata { name: "acme-prod".to_string(), unmodeled: None },
        spec: Spec { foreign_source: fs, nodes: vec![] },
    }
}

fn minimal_local() -> RequisitionLocal {
    local(None)
}

fn local_with_fs() -> RequisitionLocal {
    local(Some(ForeignSourceSpec { scan_interval: Some("1d".to_string()), detectors: vec![], policies: vec![] }))
}

fn empty_delta() -> RequisitionDelta {
    RequisitionDelta { foreign_source_changes: vec![], nodes_added: vec![], nodes_removed: vec![], nodes_modified: vec![] }
}

fn node_ref(fid: &str) -> NodeRef {
    NodeRef { foreign_id: fid.to_string(), value: Value::Object(vec![]) }
}

fn outcome(
    state: ApplyState,
    rescan: bool,
    fs_action: ForeignSourceAction,
    delta: RequisitionDelta,
    original_remote_fs: Option<ForeignSourceServer>,
) -> ApplyOutcome {
    ApplyOutcome {
        state,
        delta,
        rescan_existing: rescan,
        foreign_source_action: fs_action,
        original_remote_fs,
        pre_trigger_last_import_ms: None,
        scan_relevant_leaves: vec![],
    }
}

#[test]
fn unchanged_short_summary_no_details() {
    let o = outcome(ApplyState::Unchanged, false, ForeignSourceAction::NoChange, empty_delta(), None);
    let rendered = render_apply_diff(&local_with_fs(), &o);
    assert_eq!(rendered, "Requisition/acme-prod (unchanged)\n  (no changes)\n");
}

#[test]
fn create_with_added_node_renders_plus_prefix() {
    let delta = RequisitionDelta { nodes_added: vec![node_ref("web01")], ..empty_delta() };
    let o = outcome(ApplyState::Created, true, ForeignSourceAction::Created, delta, None);
    let rendered = render_apply_diff(&local_with_fs(), &o);
    assert!(rendered.contains("Requisition/acme-prod (create)"));
    assert!(rendered.contains("  rescanExisting: true"));
    assert!(rendered.contains("  + foreignSource: creating custom"));
    assert!(rendered.contains("    + web01"));
}

#[test]
fn updated_with_modified_node_shows_leaf_from_to() {
    let delta = RequisitionDelta {
        nodes_modified: vec![NodeModification {
            foreign_id: "web01".into(),
            leaves: vec![LeafChange {
                path: "spec.nodes[*].interfaces[0].snmpPrimary".into(),
                from: Value::Str("S".into()),
                to: Value::Str("P".into()),
            }],
        }],
        ..empty_delta()
    };
    let o = outcome(ApplyState::Updated, true, ForeignSourceAction::NoChange, delta, None);
    let rendered = render_apply_diff(&local_with_fs(), &o);
    assert!(rendered.contains("    ~ web01"));
    assert!(rendered.contains("        spec.nodes[*].interfaces[0].snmpPrimary: \"S\" → \"P\""));
}

#[test]
fn fs_deletion_enumerates_displaced_detectors_and_policies() {
    let orig_fs = ForeignSourceServer {
        name: "acme-prod".into(),
        date_stamp: None,
        scan_interval: Some("30m".into()),
        detectors: vec![
            DetectorServer {
                name: "SNMP".into(),
                class: "org.opennms.netmgt.provision.detector.snmp.SnmpDetector".into(),
                parameter: vec![],
            },
            DetectorServer {
                name: "ICMP".into(),
                class: "org.opennms.netmgt.provision.detector.icmp.IcmpDetector".into(),
                parameter: vec![],
            },
        ],
        policies: vec![PolicyServer {
            name: "Production tag".into(),
            class: "org.opennms.netmgt.provision.persist.policies.NodeCategorySettingPolicy".into(),
            parameter: vec![],
        }],
    };
    let o = outcome(ApplyState::Updated, false, ForeignSourceAction::Deleted, empty_delta(), Some(orig_fs));
    let rendered = render_apply_diff(&minimal_local(), &o);
    assert!(rendered.contains("  - foreignSource: deleting custom"));
    assert!(rendered.contains("    displaced detectors:"));
    assert!(rendered.contains("      - SNMP (org.opennms.netmgt.provision.detector.snmp.SnmpDetector)"));
    assert!(rendered.contains("      - ICMP (org.opennms.netmgt.provision.detector.icmp.IcmpDetector)"));
    assert!(rendered.contains("    displaced policies:"));
    assert!(rendered.contains(
        "      - Production tag (org.opennms.netmgt.provision.persist.policies.NodeCategorySettingPolicy)"
    ));
}

#[test]
fn omitting_foreign_source_emits_default_footnote() {
    let delta = RequisitionDelta { nodes_added: vec![node_ref("web01")], ..empty_delta() };
    let o = outcome(ApplyState::Created, true, ForeignSourceAction::NoChange, delta, None);
    let rendered = render_apply_diff(&minimal_local(), &o);
    assert!(rendered.contains(
        "  note: uses Horizon's default foreign-source; out-of-band changes to\n\
         \x20 the default are not surfaced by this diff\n"
    ));
}

#[test]
fn footnote_suppressed_when_fs_action_is_not_no_change() {
    let o = outcome(ApplyState::Updated, false, ForeignSourceAction::Deleted, empty_delta(), None);
    let rendered = render_apply_diff(&minimal_local(), &o);
    assert!(!rendered.contains("note: uses Horizon's default"));
}

#[test]
fn yaml_with_explicit_fs_does_not_emit_footnote() {
    let delta = RequisitionDelta { nodes_added: vec![node_ref("web01")], ..empty_delta() };
    let o = outcome(ApplyState::Created, true, ForeignSourceAction::Created, delta, None);
    let rendered = render_apply_diff(&local_with_fs(), &o);
    assert!(!rendered.contains("Note: local YAML omits"));
    assert!(!rendered.contains("note: uses Horizon's default"));
}

#[test]
fn fs_deletion_with_no_original_fs_renders_header_only() {
    let o = outcome(ApplyState::Updated, false, ForeignSourceAction::Deleted, empty_delta(), None);
    let rendered = render_apply_diff(&minimal_local(), &o);
    assert!(rendered.contains("  - foreignSource: deleting custom"));
    assert!(!rendered.contains("displaced detectors"));
    assert!(!rendered.contains("displaced policies"));
}

#[test]
fn removed_node_renders_minus_prefix() {
    let delta = RequisitionDelta { nodes_removed: vec![node_ref("old-host")], ..empty_delta() };
    let o = outcome(ApplyState::Updated, true, ForeignSourceAction::NoChange, delta, None);
    let rendered = render_apply_diff(&local_with_fs(), &o);
    assert!(rendered.contains("    - old-host"));
}

#[test]
fn leaf_with_absent_from_renders_as_absent_marker() {
    let delta = RequisitionDelta {
        nodes_modified: vec![NodeModification {
            foreign_id: "web01".into(),
            leaves: vec![LeafChange {
                path: "spec.nodes[*].label".into(),
                from: Value::Null,
                to: Value::Str("web01.acme".into()),
            }],
        }],
        ..empty_delta()
    };
    let o = outcome(ApplyState::Updated, false, ForeignSourceAction::NoChange, delta, None);
    let rendered = render_apply_diff(&local_with_fs(), &o);
    assert!(rendered.contains("spec.nodes[*].label: <absent> → \"web01.acme\""));
}

#[test]
fn dry_run_state_label_appears() {
    let delta = RequisitionDelta { nodes_added: vec![node_ref("web01")], ..empty_delta() };
    let o = outcome(ApplyState::DryRun, true, ForeignSourceAction::Created, delta, None);
    let rendered = render_apply_diff(&local_with_fs(), &o);
    assert!(rendered.starts_with("Requisition/acme-prod (dry-run)"));
}

#[test]
fn full_preview_text_for_an_update() {
    let delta = RequisitionDelta {
        foreign_source_changes: vec![LeafChange {
            path: "spec.foreignSource.scanInterval".into(),
            from: Value::Str("2h".into()),
            to: Value::Str("1d".into()),
        }],
        nodes_added: vec![node_ref("n1")],
        ..empty_delta()
    };
    let o = outcome(ApplyState::Updated, true, ForeignSourceAction::Updated, delta, None);
    assert_eq!(
        render_apply_diff(&local_with_fs(), &o),
        "Requisition/acme-prod (update)\n  rescanExisting: true\n\n  ~ foreignSource: updating\n    spec.foreignSource.scanInterval: \"2h\" → \"1d\"\n\n  nodes:\n    + n1\n"
    );
}
