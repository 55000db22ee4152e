use onmsctl::provisioning::apply::{
    build_local_composite, build_remote_composite, classify_fs_action, needs_default_fs,
    plan_from_remote, ApplyOptions, ApplyState, ForeignSourceAction, PlanState, RescanChoice,
    WriteStep,
};
use onmsctl::provisioning::cmd::{
    apply_summary_line, phase1_abort_message, render_combined_plan, render_multi_table,
    status_line,
};
use onmsctl::provisioning::model::{
    ApiVersion, Assets, ForeignSourceSpec, Interface, Kind, Metadata, Node, RequisitionLocal,
    SnmpPrimary, Spec,
};
use onmsctl::provisioning::multi::{
    aborted_plan_message, check_collisions, CollisionCode, MultiApplyFileResult, MultiApplyOutcome,
    MultiApplyPlan, MultiApplyPlanEntry, MultiApplyState,
};
use onmsctl::provisioning::server::{
    DetectorServer, ForeignSourceServer, InterfaceServer, NodeServer, RequisitionServer,
};

fn doc(name: &str, fs: Option<ForeignSourceSpec>, nodes: Vec<Node>) -> RequisitionLocal {
    RequisitionLocal {
        api_version: ApiVersion,
        kind: Kind,
        metadata: Metadata { name: name.to_string(), unmodeled: None },
        spec: Spec { foreign_source: fs, nodes },
    }
}

fn node(fid: &str, label: &str, interfaces: Vec<Interface>) -> Node {
    Node {
        foreign_id: fid.to_string(),
        label: label.to_string(),
        location: None,
        interfaces,
        categories: vec![],
        assets: Assets::new(),
    }
}

fn server_node(fid: &str, label: &str, ip: Option<(&str, &str)>) -> NodeServer {
    NodeServer {
        foreign_id: fid.to_string(),
        node_label: label.to_string(),
        location: None,
        building: None,
        city: None,
        parent_foreign_source: None,
        parent_foreign_id: None,
        parent_node_label: None,
        interface: match ip {
            Some((addr, primary)) => vec![InterfaceServer {
                ip_addr: addr.to_string(),
                snmp_primary: primary.to_string(),
                status: None,
                managed: None,
                descr: None,
                monitored_service: vec![],
                category: vec![],
                meta_data: vec![],
            }],
            None => vec![],
        },
        category: vec![],
        asset: vec![],
        meta_data: vec![],
    }
}

fn server_req(name: &str, nodes: Vec<NodeServer>, last_import: Option<i64>) -> RequisitionServer {
    RequisitionServer { foreign_source: name.to_string(), date_stamp: None, last_import, node: nodes }
}

fn default_fs() -> ForeignSourceServer {
    ForeignSourceServer {
        name: "default".to_string(),
        date_stamp: None,
        scan_interval: Some("1d".to_string()),
        detectors: vec![DetectorServer { name: "ICMP".into(), class: "o.Icmp".into(), parameter: vec![] }],
        policies: vec![],
    }
}

fn opts(choice: RescanChoice) -> ApplyOptions {
    ApplyOptions { dry_run: false, rescan_existing: choice }
}

#[test]
fn fs_action_classification_matches_design_d1() {
    assert_eq!(classify_fs_action(false, false), ForeignSourceAction::NoChange);
    assert_eq!(classify_fs_action(false, true), ForeignSourceAction::Created);
    assert_eq!(classify_fs_action(true, true), ForeignSourceAction::Updated);
    assert_eq!(classify_fs_action(true, false), ForeignSourceAction::Deleted);
}

#[test]
fn default_fs_needed_when_either_side_lacks_a_custom_one() {
    let portable = doc("acme", None, vec![]);
    assert!(needs_default_fs(true, &portable));
    let custom = doc("acme", Some(ForeignSourceSpec { scan_interval: None, detectors: vec![], policies: vec![] }), vec![]);
    assert!(needs_default_fs(false, &custom));
    assert!(!needs_default_fs(true, &custom));
}

#[test]
fn new_requisition_plans_a_create_with_rescan() {
    let local = doc("acme", None, vec![node("web01", "w", vec![])]);
    let d = default_fs();
    let plan = plan_from_remote(&local, None, None, Some(&d), &opts(RescanChoice::Auto));
    assert_eq!(plan.state, PlanState::WouldCreate);
    assert_eq!(plan.foreign_source_action, ForeignSourceAction::NoChange);
    assert!(plan.rescan_existing, "an added node is scan-relevant");
    assert_eq!(plan.scan_relevant_leaves, vec!["spec.nodes[*]"]);
    assert_eq!(
        plan.write_steps(),
        vec![WriteStep::PostRequisition, WriteStep::TriggerImport]
    );
    assert!(plan.pre_trigger_last_import_ms.is_none());
}

#[test]
fn identical_deployed_state_is_unchanged() {
    let local = doc("acme", None, vec![node("web01", "w", vec![])]);
    let remote = server_req("acme", vec![server_node("web01", "w", None)], Some(1234));
    let d = default_fs();
    let plan = plan_from_remote(&local, Some(&remote), None, Some(&d), &opts(RescanChoice::Force(true)));
    assert_eq!(plan.state, PlanState::Unchanged);
    assert!(plan.delta.is_empty());
    assert!(!plan.rescan_existing);
    assert!(plan.scan_relevant_leaves.is_empty());
    assert!(plan.write_steps().is_empty());
    assert_eq!(plan.pre_trigger_last_import_ms, Some(1234));
    let o = plan.into_short_circuit(ApplyState::Unchanged);
    assert_eq!(o.state, ApplyState::Unchanged);
}

#[test]
fn label_only_change_is_irrelevant_and_forced_rescan_wins() {
    let local = doc("acme", None, vec![node("web01", "new", vec![])]);
    let remote = server_req("acme", vec![server_node("web01", "old", None)], None);
    let d = default_fs();
    let auto = plan_from_remote(&local, Some(&remote), None, Some(&d), &opts(RescanChoice::Auto));
    assert_eq!(auto.state, PlanState::WouldUpdate);
    assert!(!auto.rescan_existing, "label-only change is irrelevant");
    let forced = plan_from_remote(&local, Some(&remote), None, Some(&d), &opts(RescanChoice::Force(true)));
    assert!(forced.rescan_existing);
    assert!(forced.scan_relevant_leaves.is_empty());
    let o = forced.into_executed();
    assert_eq!(o.state, ApplyState::Updated);
}

#[test]
fn snmp_primary_change_triggers_rescan() {
    let local = doc(
        "acme",
        None,
        vec![node("web01", "w", vec![Interface { ip: "10.0.0.5".into(), services: vec![], snmp_primary: Some(SnmpPrimary::P) }])],
    );
    let remote = server_req("acme", vec![server_node("web01", "w", Some(("10.0.0.5", "S")))], None);
    let d = default_fs();
    let plan = plan_from_remote(&local, Some(&remote), None, Some(&d), &opts(RescanChoice::Auto));
    assert_eq!(plan.state, PlanState::WouldUpdate);
    assert!(plan.rescan_existing, "snmpPrimary change must trigger rescan");
}

#[test]
fn custom_fs_equal_to_default_still_owes_a_delete() {
    let local = doc("acme", None, vec![]);
    let remote = server_req("acme", vec![], None);
    let custom = default_fs();
    let plan = plan_from_remote(&local, Some(&remote), Some(custom), Some(&default_fs()), &opts(RescanChoice::Auto));
    assert!(plan.delta.is_empty());
    assert_eq!(plan.foreign_source_action, ForeignSourceAction::Deleted);
    assert_eq!(plan.state, PlanState::WouldUpdate);
    assert_eq!(
        plan.write_steps(),
        vec![WriteStep::DeleteForeignSource, WriteStep::PostRequisition, WriteStep::TriggerImport]
    );
}

#[test]
fn composites_substitute_the_default_symmetrically() {
    let local = doc("acme", None, vec![]);
    let d = default_fs();
    let l = build_local_composite(&local, Some(&d));
    let r = build_remote_composite(&"acme".to_string(), None, None, Some(&d));
    assert_eq!(l.spec.foreign_source, r.spec.foreign_source);
    assert_eq!(l.spec.foreign_source.as_ref().unwrap().scan_interval.as_deref(), Some("1d"));
    assert_eq!(r.metadata.name, "acme");
}

fn entry(path: &str, plan_doc: RequisitionLocal) -> MultiApplyPlanEntry {
    let d = default_fs();
    let plan = plan_from_remote(&plan_doc, None, None, Some(&d), &opts(RescanChoice::Auto));
    MultiApplyPlanEntry { path: path.to_string(), plan }
}

#[test]
fn duplicate_metadata_name_is_a_hard_collision() {
    let parsed = vec![
        ("a.yaml".to_string(), doc("acme", None, vec![])),
        ("b.yaml".to_string(), doc("acme", None, vec![])),
    ];
    let f = check_collisions(&parsed);
    assert_eq!(f.len(), 1);
    assert_eq!(f[0].code, CollisionCode::DuplicateMetadataName);
    assert!(f[0].is_hard_error());
    assert_eq!(f[0].key, "acme");
    assert_eq!(f[0].files, vec!["a.yaml", "b.yaml"]);
    assert_eq!(f[0].message, "metadata.name 'acme' declared in 2 files: a.yaml, b.yaml");
    let plan = MultiApplyPlan { entries: vec![], parse_errors: vec![], collision_findings: f, input_count: 2 };
    assert!(plan.is_aborted());
    assert_eq!(
        aborted_plan_message(&plan),
        "execute_multi called on aborted MultiApplyPlan (caller bug): 1 hard collision(s) [acme]"
    );
    assert_eq!(
        phase1_abort_message(&plan),
        "phase-1 abort: 1 hard collision(s) detected (first: 'acme'); see stderr for the full list"
    );
    assert_eq!(render_combined_plan(&plan, false)[0], "Phase 1 plan: ABORTED");
}

#[test]
fn duplicate_foreign_id_across_files_is_a_warning() {
    let parsed = vec![
        ("a.yaml".to_string(), doc("site-a", None, vec![node("web01", "w", vec![]), node("web01", "w", vec![])])),
        ("b.yaml".to_string(), doc("site-b", None, vec![node("web01", "w", vec![]), node("db", "d", vec![])])),
    ];
    let f = check_collisions(&parsed);
    assert_eq!(f.len(), 1);
    assert_eq!(f[0].code, CollisionCode::DuplicateForeignId);
    assert!(!f[0].is_hard_error());
    assert_eq!(f[0].files, vec!["a.yaml", "b.yaml"]);
    assert_eq!(
        f[0].message,
        "foreignId 'web01' appears in 2 files: a.yaml, b.yaml (Horizon scopes foreign-id per requisition — likely a copy-paste mistake)"
    );
    let plan = MultiApplyPlan { entries: vec![], parse_errors: vec![], collision_findings: f, input_count: 2 };
    assert!(!plan.is_aborted());
}

#[test]
fn foreign_id_files_sort_as_paths_by_component() {
    let parsed = vec![
        ("reqs/a-b.yaml".to_string(), doc("one", None, vec![node("web01", "w", vec![])])),
        ("reqs/a/b.yaml".to_string(), doc("two", None, vec![node("web01", "w", vec![])])),
    ];
    let f = check_collisions(&parsed);
    assert_eq!(f.len(), 1);
    assert_eq!(f[0].files, vec!["reqs/a/b.yaml", "reqs/a-b.yaml"]);
}

#[test]
fn foreign_id_files_equal_as_paths_count_once() {
    let parsed = vec![
        ("a//b.yaml".to_string(), doc("one", None, vec![node("web01", "w", vec![])])),
        ("a/b.yaml".to_string(), doc("two", None, vec![node("web01", "w", vec![])])),
        ("./a/./b.yaml".to_string(), doc("three", None, vec![node("db", "d", vec![])])),
        ("a/b.yaml/".to_string(), doc("four", None, vec![node("db", "d", vec![])])),
    ];
    let f = check_collisions(&parsed);
    assert_eq!(f.len(), 1);
    assert_eq!(f[0].key, "db");
    assert_eq!(f[0].files, vec!["./a/./b.yaml", "a/b.yaml/"]);
}

#[test]
fn combined_plan_lists_each_file() {
    let plan = MultiApplyPlan {
        entries: vec![entry("a.yaml", doc("acme-prod", None, vec![node("n", "n", vec![])]))],
        parse_errors: vec![MultiApplyFileResult {
            path: "bad.yaml".to_string(),
            foreign_source: None,
            outcome: Err("bad.yaml: unknown field".to_string()),
        }],
        collision_findings: vec![],
        input_count: 2,
    };
    let lines = render_combined_plan(&plan, true);
    assert_eq!(lines[0], "Phase 1 plan: ABORTED");
    assert_eq!(
        lines[1],
        "  ✓ a.yaml -> Requisition/acme-prod: would-create (rescanExisting=true, foreignSource=no-change)"
    );
    assert_eq!(lines[2], "  ✗ bad.yaml -> (parse error): bad.yaml: unknown field");
    assert_eq!(phase1_abort_message(&plan), "phase-1 abort: 1 parse error(s); see stderr");
    let ok = MultiApplyPlan { entries: vec![entry("a.yaml", doc("acme-prod", None, vec![]))], parse_errors: vec![], collision_findings: vec![], input_count: 1 };
    assert_eq!(render_combined_plan(&ok, true)[0], "Phase 1 plan (1 file): (dry-run)");
}

#[test]
fn multi_outcome_table_counts_ok_and_failed() {
    let a = entry("a.yaml", doc("acme", None, vec![node("n", "n", vec![])])).plan.into_executed();
    let line = apply_summary_line("acme", &a);
    assert_eq!(line, "Requisition/acme: created (rescanExisting=true, foreignSource=no-change)\n");
    let outcome = MultiApplyOutcome {
        results: vec![
            MultiApplyFileResult { path: "a.yaml".into(), foreign_source: Some("acme".into()), outcome: Ok(a) },
            MultiApplyFileResult { path: "b.yaml".into(), foreign_source: None, outcome: Err("boom".into()) },
        ],
        collision_findings: vec![],
        state: MultiApplyState::Completed,
    };
    assert_eq!(
        render_multi_table(&outcome),
        "  ✓ a.yaml -> Requisition/acme: created (rescanExisting=true, foreignSource=no-change)\n  ✗ b.yaml -> (parse error): boom\nMulti-apply completed: 1 ok, 1 failed, 0 collision finding(s)\n"
    );
}

#[test]
fn status_line_shows_absent_stamps() {
    let r = server_req("acme", vec![server_node("a", "a", None)], Some(17));
    assert_eq!(status_line(&r), "Requisition/acme: nodes=1, date-stamp-ms=<absent>, last-import-ms=17\n");
}
