use onmsctl::classify::CmdKind;
use onmsctl::json::Value;
use onmsctl::outcome::{Action, OutcomeStatus};
use onmsctl::provisioning::apply::{plan_from_remote, ApplyOptions, ApplyState, PlanState, RescanChoice};
use onmsctl::provisioning::cmd::RescanFlag;
use onmsctl::provisioning::export::{
    export_document, export_local, missing_requisition_message, needs_default_fetch,
};
use onmsctl::provisioning::handler::{action_of, outcome_of, ProvisioningHandler};
use onmsctl::provisioning::model::{
    ApiVersion, Assets, ForeignSourceSpec, Kind, Metadata, Node, RequisitionLocal, Spec,
};
use onmsctl::provisioning::multi::{
    check_collisions, MultiApplyFileResult, MultiApplyOutcome, MultiApplyPlan,
    MultiApplyPlanEntry, MultiApplyState,
};
use onmsctl::provisioning::server::{DetectorServer, ForeignSourceServer, RequisitionServer};
use onmsctl::provisioning::verbs::{
    AssetCmd, CategoryCmd, InterfaceCmd, NodeCmd, RequisitionCmd, ServiceCmd,
};
use onmsctl::provisioning::wait::{poll_step, AsyncFlags, PollStep};
use onmsctl::snmp::handler::SnmpConfigHandler;
use onmsctl::snmp::verbs::SnmpCmd;

fn doc(name: &str, fid: &str) -> RequisitionLocal {
    RequisitionLocal {
        api_version: ApiVersion,
        kind: Kind,
        metadata: Metadata { name: name.to_string(), unmodeled: None },
        spec: Spec {
            foreign_source: None,
            nodes: vec![Node {
                foreign_id: fid.to_string(),
                label: format!("{fid}.lab"),
                location: None,
                interfaces: vec![],
                categories: vec![],
                assets: Assets::new(),
            }],
        },
    }
}

fn default_fs() -> ForeignSourceServer {
    ForeignSourceServer {
        name: "default".to_string(),
        date_stamp: None,
        scan_interval: Some("1d".to_string()),
        detectors: vec![],
        policies: vec![],
    }
}

fn opts() -> ApplyOptions {
    ApplyOptions { dry_run: false, rescan_existing: RescanChoice::Auto }
}

/// The first phase over documents given as (path, name, foreign id), none of
/// them on the server yet.
fn phase1(specs: &[(&str, &str, &str)]) -> MultiApplyPlan {
    let parsed: Vec<(String, RequisitionLocal)> =
        specs.iter().map(|(p, n, f)| (p.to_string(), doc(n, f))).collect();
    let collision_findings = check_collisions(&parsed);
    let d = default_fs();
    let entries = parsed
        .iter()
        .map(|(p, l)| MultiApplyPlanEntry {
            path: p.clone(),
            plan: plan_from_remote(l, None, None, Some(&d), &opts()),
        })
        .collect();
    MultiApplyPlan { entries, parse_errors: vec![], collision_findings, input_count: specs.len() }
}

fn no_wait() -> AsyncFlags {
    AsyncFlags { wait: false, timeout_ms: 0, poll_interval_ms: 0 }
}

// -- command classes ---------------------------------------------------------

#[test]
fn asset_classify_list_and_get_are_read() {
    let list = AssetCmd::List { db_id: 42 };
    let get = AssetCmd::Get { db_id: 42, field: "city".into() };
    assert_eq!(list.kind(), CmdKind::Read);
    assert_eq!(get.kind(), CmdKind::Read);
}

#[test]
fn classify_set_is_write() {
    let set = AssetCmd::SetField { db_id: 42, field: "city".into(), value: "NYC".into() };
    assert_eq!(set.kind(), CmdKind::Write);
}

#[test]
fn category_classify_list_is_read() {
    let list = CategoryCmd::List { fs: "acme".into(), foreign_id: "web01".into() };
    assert_eq!(list.kind(), CmdKind::Read);
}

#[test]
fn interface_classify_list_and_get_are_read() {
    let list = InterfaceCmd::List { fs: "acme".into(), foreign_id: "web01".into() };
    let get = InterfaceCmd::Get { fs: "acme".into(), foreign_id: "web01".into(), ip: "10.0.0.1".into() };
    assert_eq!(list.kind(), CmdKind::Read);
    assert_eq!(get.kind(), CmdKind::Read);
}

#[test]
fn service_classify_list_is_read() {
    let list = ServiceCmd::List { fs: "acme".into(), foreign_id: "web01".into(), ip: "10.0.0.1".into() };
    assert_eq!(list.kind(), CmdKind::Read);
}

#[test]
fn export_is_classified_read() {
    assert_eq!(SnmpCmd::Export { output_file: None }.kind(), CmdKind::Read);
}

#[test]
fn requisition_verbs_classify_writes_and_reads() {
    let apply = RequisitionCmd::Apply {
        file: "r.yaml".into(),
        dry_run: true,
        diff: false,
        rescan_existing: RescanFlag::Auto,
        explain_rescan: false,
        stop_on_error: false,
        wait_flags: no_wait(),
    };
    assert_eq!(apply.kind(), CmdKind::Write);
    let import = RequisitionCmd::Import { fs: "acme".into(), rescan_existing: false, wait_flags: no_wait() };
    assert_eq!(import.kind(), CmdKind::Write);
    assert_eq!(RequisitionCmd::Delete { fs: "acme".into(), yes: true }.kind(), CmdKind::Write);
    assert_eq!(RequisitionCmd::Status { fs: "acme".into() }.kind(), CmdKind::Read);
    assert_eq!(RequisitionCmd::List.kind(), CmdKind::Read);
    let export = RequisitionCmd::Export { fs: None, out: None, include_defaults: true };
    assert_eq!(export.kind(), CmdKind::Read);
    let convert = RequisitionCmd::Convert { from: None, foreign_sources_dir: None, out: None, explain: Some("PR001".into()) };
    assert_eq!(convert.kind(), CmdKind::Read);
    assert_eq!(RequisitionCmd::Node(NodeCmd::List { fs: "acme".into() }).kind(), CmdKind::Read);
    let set = AssetCmd::SetField { db_id: 7, field: "city".into(), value: "x".into() };
    assert_eq!(RequisitionCmd::Asset(set).kind(), CmdKind::Write);
    assert_eq!(RequisitionCmd::Asset(AssetCmd::List { db_id: 7 }).kind(), CmdKind::Read);
}

// -- the requisition handler ---------------------------------------------------

#[test]
fn handler_kinds_name_their_documents() {
    assert_eq!(ProvisioningHandler.kind(), "Requisition");
    assert_eq!(SnmpConfigHandler.kind(), "SnmpConfig");
}

#[test]
fn plan_previews_an_absent_requisition_as_create() {
    let plan = phase1(&[("reqs.yaml#0", "acme", "web01")]);
    let preview = ProvisioningHandler.plan(&plan).unwrap();
    assert_eq!(preview.len(), 1);
    assert_eq!(preview[0].action, Action::Create);
    assert_eq!(preview[0].kind, "Requisition");
    assert_eq!(preview[0].name, "acme");
    assert_eq!(preview[0].status, OutcomeStatus::Planned);
    assert_eq!(preview[0].message, "would create");
    assert!(preview[0].details.is_none());
}

#[test]
fn duplicate_metadata_name_across_docs_is_refused() {
    let plan = phase1(&[("reqs.yaml#0", "acme", "web01"), ("reqs.yaml#1", "acme", "web02")]);
    let err = ProvisioningHandler.plan(&plan).unwrap_err();
    assert!(err.contains("acme"));
    assert_eq!(err, plan.collision_findings[0].message);
}

#[test]
fn duplicate_foreign_id_warns_in_every_implicated_preview() {
    let plan = phase1(&[("reqs.yaml#0", "site-a", "web01"), ("reqs.yaml#1", "site-b", "web01")]);
    let preview = ProvisioningHandler.plan(&plan).unwrap();
    assert_eq!(preview.len(), 2);
    for o in &preview {
        assert_eq!(o.message, "would create (1 warning(s))");
        let msg = plan.collision_findings[0].message.clone();
        assert_eq!(
            o.details,
            Some(Value::Object(vec![("warnings".to_string(), Value::Array(vec![Value::Str(msg)]))]))
        );
    }
}

#[test]
fn plan_state_maps_to_its_action() {
    assert_eq!(action_of(PlanState::Unchanged), Action::Nothing);
    assert_eq!(action_of(PlanState::WouldCreate), Action::Create);
    assert_eq!(action_of(PlanState::WouldUpdate), Action::Update);
}

#[test]
fn execute_reports_each_file_in_order() {
    let d = default_fs();
    let created = plan_from_remote(&doc("acme", "web01"), None, None, Some(&d), &opts()).into_executed();
    let results = vec![
        MultiApplyFileResult {
            path: "a.yaml".into(),
            foreign_source: Some("acme".into()),
            outcome: Ok(created),
        },
        MultiApplyFileResult {
            path: "b.yaml".into(),
            foreign_source: Some("beta".into()),
            outcome: Err("HTTP 500".into()),
        },
    ];
    let out = MultiApplyOutcome { results, collision_findings: vec![], state: MultiApplyState::Completed };
    let reports = ProvisioningHandler.execute(out);
    assert_eq!(reports.len(), 2);
    assert_eq!(reports[0].name, "acme");
    assert_eq!(reports[0].status, OutcomeStatus::Created);
    assert_eq!(reports[0].message, "created");
    assert_eq!(reports[1].name, "beta");
    assert_eq!(reports[1].status, OutcomeStatus::Failed);
    assert_eq!(reports[1].message, "HTTP 500");
    assert_eq!(
        reports[1].hint.as_deref(),
        Some("re-run `onmsctl apply -f` after resolving the error")
    );
}

#[test]
fn unnamed_failure_reports_an_empty_name() {
    let r = MultiApplyFileResult { path: "x.yaml".into(), foreign_source: None, outcome: Err("bad".into()) };
    let o = outcome_of(r);
    assert_eq!(o.name, "");
    assert_eq!(o.action, Action::Nothing);
    let d = default_fs();
    let mut p = plan_from_remote(&doc("acme", "web01"), None, None, Some(&d), &opts());
    p.state = PlanState::Unchanged;
    let dry = p.into_short_circuit(ApplyState::DryRun);
    let o = outcome_of(MultiApplyFileResult { path: "y".into(), foreign_source: Some("acme".into()), outcome: Ok(dry) });
    assert_eq!(o.status, OutcomeStatus::Skipped);
    assert_eq!(o.message, "dry-run");
}

// -- waiting for an import ---------------------------------------------------

#[test]
fn poll_converges_when_last_import_moves() {
    match poll_step("acme", Some(100), Some(Some(200)), false, 60_000) {
        PollStep::Done(t) => assert_eq!(t, 200),
        other => panic!("unexpected {other:?}"),
    }
    match poll_step("acme", None, Some(Some(5)), true, 60_000) {
        PollStep::Done(t) => assert_eq!(t, 5),
        other => panic!("unexpected {other:?}"),
    }
}

#[test]
fn poll_keeps_waiting_on_unchanged_or_cleared_time() {
    assert!(matches!(poll_step("acme", Some(100), Some(Some(100)), false, 60_000), PollStep::Sleep));
    assert!(matches!(poll_step("acme", Some(100), Some(None), false, 60_000), PollStep::Sleep));
}

#[test]
fn poll_times_out_with_humanized_duration() {
    match poll_step("acme", Some(100), Some(Some(100)), true, 90_500) {
        PollStep::TimedOut { handle, timeout } => {
            assert_eq!(handle, "acme");
            assert_eq!(timeout, "1m30s");
        }
        other => panic!("unexpected {other:?}"),
    }
}

#[test]
fn poll_fails_when_requisition_vanishes() {
    match poll_step("acme", Some(100), None, false, 1000) {
        PollStep::Failed { handle, reason } => {
            assert_eq!(handle, "acme");
            assert_eq!(reason, "requisition 'acme' vanished during poll");
        }
        other => panic!("unexpected {other:?}"),
    }
}

// -- export ------------------------------------------------------------------

fn server_req() -> RequisitionServer {
    RequisitionServer { foreign_source: "acme".into(), date_stamp: None, last_import: None, node: vec![] }
}

#[test]
fn export_inlines_default_only_without_custom_fs() {
    let d = default_fs();
    let (local, inlined) = export_local(&server_req(), true, None, Some(&d));
    assert!(inlined);
    assert_eq!(local.spec.foreign_source.as_ref().unwrap().scan_interval.as_deref(), Some("1d"));

    let mut custom = default_fs();
    custom.name = "acme".into();
    custom.scan_interval = Some("2d".into());
    custom.detectors = vec![DetectorServer { name: "ICMP".into(), class: "o.Icmp".into(), parameter: vec![] }];
    let (local, inlined) = export_local(&server_req(), true, Some(&custom), Some(&d));
    assert!(!inlined);
    assert_eq!(local.spec.foreign_source.as_ref().unwrap().scan_interval.as_deref(), Some("2d"));

    let (local, inlined) = export_local(&server_req(), false, None, None);
    assert!(!inlined);
    assert!(local.spec.foreign_source.is_none());
}

#[test]
fn export_fetches_default_once_per_need() {
    assert!(needs_default_fetch(false, true, false));
    assert!(!needs_default_fetch(false, true, true));
    assert!(!needs_default_fetch(true, true, false));
    assert!(!needs_default_fetch(false, false, false));
}

#[test]
fn export_header_names_inlining_or_portable_style() {
    let portable = RequisitionLocal {
        api_version: ApiVersion,
        kind: Kind,
        metadata: Metadata { name: "acme".into(), unmodeled: None },
        spec: Spec { foreign_source: None, nodes: vec![] },
    };
    let s = export_document(&portable, false, 0, "body\n");
    assert!(s.starts_with("# yaml-language-server: $schema="));
    assert!(s.contains("# Portable style: spec.foreignSource is omitted"));
    assert!(s.ends_with("body\n"));

    let s = export_document(&portable, true, 86_400 + 3_661, "body\n");
    assert!(s.contains("inlined from Horizon's default foreign-source at 1970-01-02T01:01:01Z.\n"));
    assert!(!s.contains("Portable style"));

    let mut pinned = portable.clone();
    pinned.spec.foreign_source = Some(ForeignSourceSpec { scan_interval: None, detectors: vec![], policies: vec![] });
    let s = export_document(&pinned, false, 0, "body\n");
    assert!(!s.contains("Portable style"));
    assert!(!s.contains("inlined"));
}

#[test]
fn missing_requisition_names_the_request() {
    assert_eq!(
        missing_requisition_message("acme"),
        "no requisition 'acme' on the server (GET /rest/requisitions/acme returned 404)"
    );
}

// -- admitting the first phase ----------------------------------------------------

use onmsctl::provisioning::multi::{phase1_admit, Phase1};

#[test]
fn unreadable_file_aborts_before_collision_checks() {
    let reads = vec![
        ("a.yaml".to_string(), Ok(doc("acme", "web01"))),
        ("b.yaml".to_string(), Err("b.yaml: bad indentation".to_string())),
        ("c.yaml".to_string(), Ok(doc("acme", "web02"))),
    ];
    match phase1_admit(reads, 3) {
        Phase1::Aborted(p) => {
            assert!(p.is_aborted());
            assert_eq!(p.input_count, 3);
            assert!(p.entries.is_empty());
            assert!(p.collision_findings.is_empty());
            assert_eq!(p.parse_errors.len(), 1);
            assert_eq!(p.parse_errors[0].path, "b.yaml");
            assert!(p.parse_errors[0].foreign_source.is_none());
            assert_eq!(p.parse_errors[0].outcome.as_ref().err().map(|s| s.as_str()), Some("b.yaml: bad indentation"));
        }
        Phase1::Ready(..) => panic!("expected an abort"),
    }
}

#[test]
fn duplicate_name_aborts_with_collisions_only() {
    let reads = vec![
        ("a.yaml".to_string(), Ok(doc("acme", "web01"))),
        ("b.yaml".to_string(), Ok(doc("acme", "web02"))),
    ];
    match phase1_admit(reads, 2) {
        Phase1::Aborted(p) => {
            assert!(p.parse_errors.is_empty());
            assert_eq!(p.collision_findings.len(), 1);
            assert!(p.collision_findings[0].is_hard_error());
            assert_eq!(p.input_count, 2);
        }
        Phase1::Ready(..) => panic!("expected an abort"),
    }
}

#[test]
fn duplicate_foreign_id_proceeds_with_a_warning() {
    let reads = vec![
        ("a.yaml".to_string(), Ok(doc("site-a", "web01"))),
        ("b.yaml".to_string(), Ok(doc("site-b", "web01"))),
    ];
    match phase1_admit(reads, 2) {
        Phase1::Ready(parsed, c) => {
            assert_eq!(parsed.len(), 2);
            assert_eq!(parsed[0].0, "a.yaml");
            assert_eq!(parsed[1].1.metadata.name, "site-b");
            assert_eq!(c.len(), 1);
            assert!(!c[0].is_hard_error());
        }
        Phase1::Aborted(_) => panic!("expected to proceed"),
    }
}

// -- purging a requisition -------------------------------------------------------

use onmsctl::provisioning::cmd::{
    delete_cancelled, delete_notes, delete_table_line, half_purged_warning, preflight_absent_note,
};

#[test]
fn purge_notes_follow_what_was_deleted() {
    let (noop, echo) = delete_notes("acme", true, true, false, true);
    assert_eq!(
        noop.as_deref(),
        Some("note: Requisition/acme was not present on the server (both pending and deployed snapshots returned 404); delete was a no-op.")
    );
    assert!(echo.is_none());
    let (noop, echo) = delete_notes("acme", true, true, true, false);
    assert!(noop.is_none());
    assert!(echo.is_none());
    let (noop, echo) = delete_notes("acme", false, true, false, true);
    assert!(noop.is_none());
    assert_eq!(echo.as_deref(), Some("Requisition/acme deleted (pending + deployed snapshots purged)."));
    assert_eq!(delete_table_line("acme"), "Requisition/acme: deleted (pending + deployed snapshots purged)\n");
}

#[test]
fn purge_warnings_and_cancellations_name_the_requisition() {
    assert!(half_purged_warning("acme", true).is_none());
    let w = half_purged_warning("acme", false).unwrap();
    assert!(w.starts_with("warning: Requisition/acme — pending snapshot was deleted"));
    assert!(w.ends_with("re-run `requisition delete acme` to retry the deployed purge."));
    assert_eq!(delete_cancelled("acme", true), "delete cancelled by operator (EOF on stdin): acme");
    assert_eq!(delete_cancelled("acme", false), "delete cancelled by operator: acme");
    assert_eq!(
        preflight_absent_note("acme"),
        "note: requisition 'acme' is not present on the server (pre-confirm GET returned 404); skipping confirmation."
    );
}

// -- applying one file or several ---------------------------------------------------

use onmsctl::provisioning::cmd::{
    apply_mode_notes, check_input_size, import_completed_line, waits_for_import, MAX_INPUT_BYTES,
};

#[test]
fn flags_without_effect_are_noted_per_mode() {
    assert_eq!(
        apply_mode_notes(true, true, true, true),
        vec![
            "note: --diff has no effect in multi-file mode (use --dry-run + -o yaml for a per-file preview)".to_string(),
            "note: --explain-rescan has no effect in multi-file mode (use it per-file with --dry-run)".to_string(),
        ]
    );
    assert_eq!(
        apply_mode_notes(false, true, true, true),
        vec!["note: --stop-on-error has no effect in single-file mode (use it with --file <dir>)".to_string()]
    );
    assert!(apply_mode_notes(false, true, true, false).is_empty());
    assert!(apply_mode_notes(true, false, false, true).is_empty());
}

#[test]
fn oversized_input_is_refused_with_the_cap() {
    assert!(check_input_size("r.yaml", MAX_INPUT_BYTES).is_ok());
    assert_eq!(
        check_input_size("r.yaml", MAX_INPUT_BYTES + 1).unwrap_err(),
        "r.yaml is 16777217 bytes, exceeds apply input cap of 16777216 bytes"
    );
}

#[test]
fn wait_follows_only_a_triggered_import() {
    assert!(waits_for_import(true, ApplyState::Created));
    assert!(waits_for_import(true, ApplyState::Updated));
    assert!(!waits_for_import(true, ApplyState::Unchanged));
    assert!(!waits_for_import(true, ApplyState::DryRun));
    assert!(!waits_for_import(false, ApplyState::Created));
    assert_eq!(
        import_completed_line("acme", 1700000000000),
        "Requisition/acme: import completed (last-import-ms=1700000000000)"
    );
}

// -- dry runs ----------------------------------------------------------------------

use onmsctl::provisioning::apply::{decide_apply, ApplyNext, WriteStep};

#[test]
fn dry_run_never_writes_and_unchanged_short_circuits() {
    let d = default_fs();
    let p = plan_from_remote(&doc("acme", "web01"), None, None, Some(&d), &opts());
    assert_eq!(p.state, PlanState::WouldCreate);
    match decide_apply(p, true) {
        ApplyNext::Done(o) => assert_eq!(o.state, ApplyState::DryRun),
        ApplyNext::Execute(..) => panic!("a dry run must not write"),
    }
    let p = plan_from_remote(&doc("acme", "web01"), None, None, Some(&d), &opts());
    match decide_apply(p, false) {
        ApplyNext::Execute(_, steps) => {
            assert_eq!(steps.last(), Some(&WriteStep::TriggerImport));
            assert!(steps.contains(&WriteStep::PostRequisition));
        }
        ApplyNext::Done(_) => panic!("a new requisition must be written"),
    }
    let mut p = plan_from_remote(&doc("acme", "web01"), None, None, Some(&d), &opts());
    p.state = PlanState::Unchanged;
    match decide_apply(p, false) {
        ApplyNext::Done(o) => assert_eq!(o.state, ApplyState::Unchanged),
        ApplyNext::Execute(..) => panic!("an unchanged plan must not write"),
    }
}

// -- the output of a conversion ---------------------------------------------------

use onmsctl::provisioning::cmd::{convert_stream, output_file_name};
use onmsctl::provisioning::pipeline::ConversionResult;

fn conv(name: &str, yaml: Option<&str>) -> ConversionResult {
    ConversionResult { foreign_source: name.to_string(), yaml: yaml.map(|y| y.to_string()), findings: vec![] }
}

#[test]
fn converted_documents_stream_with_separators() {
    let results = vec![conv("orphan", None), conv("a", Some("a: 1\n")), conv("x", None), conv("b", Some("b: 2\n"))];
    assert_eq!(convert_stream(&results), "a: 1\n---\nb: 2\n");
    assert_eq!(convert_stream(&vec![conv("orphan", None)]), "");
}

#[test]
fn unsafe_requisition_names_are_not_written() {
    assert_eq!(output_file_name("out", "acme-prod").unwrap(), "acme-prod.yaml");
    assert_eq!(
        output_file_name("out", "../../etc/passwd").unwrap_err(),
        "refusing to write to 'out/../../etc/passwd.yaml': foreign-source name contains path-unsafe characters (allowed: alphanumeric, '-', '_', '.')"
    );
}

// -- small reports ---------------------------------------------------------------

use onmsctl::provisioning::cmd::{
    finding_line, non_interactive_refusal, recovery_hint, unknown_code_message, worst_exit_code,
};
use onmsctl::provisioning::finding::{Finding, FindingCode};
use onmsctl::provisioning::multi::multi_state;

#[test]
fn findings_print_code_severity_source_and_message() {
    let f = Finding::new(FindingCode::Pr004, "no FS".to_string());
    assert_eq!(finding_line(&f), "PR004 info: no FS");
    let g = Finding::new(FindingCode::Pr001, "unmodeled".to_string()).with_source("/x/a.xml".to_string());
    assert_eq!(finding_line(&g), "PR001 warning [/x/a.xml]: unmodeled");
}

#[test]
fn worst_exit_code_is_the_worst_over_all_results() {
    let mut a = conv("a", Some("a: 1\n"));
    a.findings = vec![Finding::new(FindingCode::Pr004, "x".to_string())];
    let mut b = conv("b", Some("b: 1\n"));
    b.findings = vec![Finding::new(FindingCode::Pr001, "y".to_string())];
    assert_eq!(worst_exit_code(&vec![a.clone()]), 0);
    assert_eq!(worst_exit_code(&vec![a, b]), 1);
    assert_eq!(worst_exit_code(&vec![]), 0);
}

#[test]
fn refusals_and_hints_name_the_requisition() {
    let r = non_interactive_refusal("acme", false, true);
    assert_eq!(
        r,
        "error: `requisition delete acme` requires --yes in non-interactive contexts (stdin is not a terminal). Re-run with: onmsctl requisition delete acme --yes — this guards a destructive operation that purges both pending and deployed snapshots in a single call."
    );
    assert!(non_interactive_refusal("acme", false, false).contains("(stdin and stderr are not terminals)"));
    assert!(non_interactive_refusal("acme", true, false).contains("(stderr is not a terminal (redirected?))"));
    assert_eq!(unknown_code_message("PR999"), "unknown finding code 'PR999'; known: PR001, PR002, PR003, PR004, PR005");
    assert!(recovery_hint("acme").starts_with("note: partial writes are possible for Requisition/acme — "));
    assert!(recovery_hint("acme").ends_with("Run `onmsctl requisition status acme` to verify server state before retrying."));
    assert_eq!(multi_state(true), MultiApplyState::StoppedEarly);
    assert_eq!(multi_state(false), MultiApplyState::Completed);
}

// -- exporting and applying back -------------------------------------------------

use onmsctl::provisioning::convert::requisition_from_wire;
use onmsctl::provisioning::server::{InterfaceServer, NodeServer};

#[test]
fn portable_export_reapplies_as_unchanged() {
    let mut req = server_req();
    req.node = vec![NodeServer {
        foreign_id: "web01".into(),
        node_label: "web01.lab".into(),
        location: Some("HQ".into()),
        building: Some("B1".into()),
        city: None,
        parent_foreign_source: None,
        parent_foreign_id: None,
        parent_node_label: None,
        interface: vec![InterfaceServer {
            ip_addr: "10.0.0.1".into(),
            snmp_primary: "P".into(),
            status: Some(1),
            managed: None,
            descr: None,
            monitored_service: vec![],
            category: vec![],
            meta_data: vec![],
        }],
        category: vec![],
        asset: vec![],
        meta_data: vec![],
    }];
    req.last_import = Some(1700000000000);
    let local = requisition_from_wire(&req, None);
    let d = default_fs();
    let plan = plan_from_remote(&local, Some(&req), None, Some(&d), &opts());
    assert_eq!(plan.state, PlanState::Unchanged);
    assert!(plan.write_steps().is_empty());
    assert_eq!(plan.pre_trigger_last_import_ms, Some(1700000000000));
}

// -- execution steps ----------------------------------------------------------------

use onmsctl::provisioning::apply::{exec_next, ExecNext};
use onmsctl::provisioning::multi::{
    executed_result, finish_multi, multi_step, plan_states, unchanged_result, MultiAction,
};
use onmsctl::snmp::handler::{agent_step_result, snmp_step, SnmpAction, SnmpPlan};

#[test]
fn execution_issues_the_writes_in_order_then_reports() {
    let d = default_fs();
    let plan = || plan_from_remote(&doc("acme", "web01"), None, None, Some(&d), &opts());
    match exec_next(plan(), &vec![]) {
        ExecNext::Write(_, s) => assert_eq!(s, WriteStep::PostRequisition),
        _ => panic!("the first write is owed"),
    }
    match exec_next(plan(), &vec![Ok(())]) {
        ExecNext::Write(_, s) => assert_eq!(s, WriteStep::TriggerImport),
        _ => panic!("the import is owed"),
    }
    match exec_next(plan(), &vec![Ok(()), Ok(())]) {
        ExecNext::Done(o) => assert_eq!(o.state, ApplyState::Created),
        _ => panic!("all writes succeeded"),
    }
}

#[test]
fn execution_stops_at_the_first_failed_write() {
    let d = default_fs();
    let p = plan_from_remote(&doc("acme", "web01"), None, None, Some(&d), &opts());
    match exec_next(p, &vec![Err("HTTP 500 posting requisition".to_string())]) {
        ExecNext::Failed(e) => assert_eq!(e, "HTTP 500 posting requisition"),
        _ => panic!("a failed write ends the execution"),
    }
    let p = plan_from_remote(&doc("acme", "web01"), None, None, Some(&d), &opts());
    match exec_next(p, &vec![Ok(()), Err("import refused".to_string()), Ok(())]) {
        ExecNext::Failed(e) => assert_eq!(e, "import refused"),
        _ => panic!("a failed write ends the execution"),
    }
}

#[test]
fn unchanged_plan_executes_without_writes() {
    let d = default_fs();
    let mut p = plan_from_remote(&doc("acme", "web01"), None, None, Some(&d), &opts());
    p.state = PlanState::Unchanged;
    match exec_next(p, &vec![]) {
        ExecNext::Done(o) => assert_eq!(o.state, ApplyState::Unchanged),
        _ => panic!("an unchanged plan owes no write"),
    }
}

fn entry_with_state(path: &str, name: &str, state: PlanState) -> MultiApplyPlanEntry {
    let d = default_fs();
    let mut plan = plan_from_remote(&doc(name, "n"), None, None, Some(&d), &opts());
    plan.state = state;
    MultiApplyPlanEntry { path: path.to_string(), plan }
}

fn two_entry_plan() -> MultiApplyPlan {
    MultiApplyPlan {
        entries: vec![
            entry_with_state("a.yaml", "a", PlanState::Unchanged),
            entry_with_state("b.yaml", "b", PlanState::WouldCreate),
        ],
        parse_errors: vec![],
        collision_findings: vec![],
        input_count: 2,
    }
}

#[test]
fn multi_steps_answer_unchanged_entries_without_a_call() {
    let plan = two_entry_plan();
    assert!(matches!(multi_step(&plan_states(&plan), &vec![], true), MultiAction::Unchanged(0)));
    let first = unchanged_result(entry_with_state("a.yaml", "a", PlanState::Unchanged));
    assert_eq!(first.path, "a.yaml");
    assert_eq!(first.foreign_source.as_deref(), Some("a"));
    assert_eq!(first.outcome.as_ref().unwrap().state, ApplyState::Unchanged);
    let done = vec![first];
    assert!(matches!(multi_step(&plan_states(&plan), &done, true), MultiAction::Execute(1)));
    let mut done = done;
    done.push(executed_result("b.yaml".to_string(), "b".to_string(), Ok(
        plan_from_remote(&doc("b", "n"), None, None, Some(&default_fs()), &opts()).into_executed(),
    )));
    assert!(matches!(multi_step(&plan_states(&plan), &done, true), MultiAction::Finish(MultiApplyState::Completed)));
    let out = finish_multi(plan, done, MultiApplyState::Completed);
    assert_eq!(out.results.len(), 2);
    assert_eq!(out.state, MultiApplyState::Completed);
}

#[test]
fn multi_steps_stop_early_only_when_asked() {
    let plan = MultiApplyPlan {
        entries: vec![
            entry_with_state("a.yaml", "a", PlanState::WouldCreate),
            entry_with_state("b.yaml", "b", PlanState::WouldCreate),
        ],
        parse_errors: vec![],
        collision_findings: vec![],
        input_count: 2,
    };
    let failed = vec![executed_result("a.yaml".to_string(), "a".to_string(), Err("HTTP 503".to_string()))];
    assert!(matches!(multi_step(&plan_states(&plan), &failed, true), MultiAction::Finish(MultiApplyState::StoppedEarly)));
    assert!(matches!(multi_step(&plan_states(&plan), &failed, false), MultiAction::Execute(1)));
}

fn snmp_plan(agent_unchanged: bool, trapd_unchanged: Option<bool>) -> SnmpPlan {
    SnmpPlan { previews: vec![], diff: None, agent_unchanged, trapd_unchanged }
}

#[test]
fn snmp_execution_writes_only_what_changes() {
    let in_sync = snmp_plan(true, None);
    match snmp_step(&in_sync, &vec![]) {
        SnmpAction::Report(o) => {
            assert_eq!(o.status, OutcomeStatus::Unchanged);
            assert_eq!(o.name, "default");
        }
        _ => panic!("an unchanged agent config is not uploaded"),
    }
    let one = vec![onmsctl::snmp::handler::agent_preview(true)];
    assert!(matches!(snmp_step(&in_sync, &one), SnmpAction::Finish));

    let both = snmp_plan(false, Some(false));
    assert!(matches!(snmp_step(&both, &vec![]), SnmpAction::UploadAgent));
    let failed_upload = vec![onmsctl::snmp::handler::upload_outcome(Err("connection refused".to_string()))];
    assert_eq!(failed_upload[0].status, OutcomeStatus::Failed);
    assert!(matches!(snmp_step(&both, &failed_upload), SnmpAction::UpdateTrapd));

    let trapd_in_sync = snmp_plan(false, Some(true));
    match snmp_step(&trapd_in_sync, &failed_upload) {
        SnmpAction::Report(o) => assert_eq!(o.name, "default (trapd)"),
        _ => panic!("an unchanged trap-daemon config is not updated"),
    }
    let two = vec![onmsctl::snmp::handler::agent_preview(true), onmsctl::snmp::handler::trapd_preview(true)];
    assert!(matches!(snmp_step(&both, &two), SnmpAction::Finish));
}

#[test]
fn agent_secrets_that_cannot_be_read_end_the_execution() {
    let e = agent_step_result(Err("secret from environment variable SNMP_X: not present".to_string()), Ok(()));
    assert_eq!(e.err().as_deref(), Some("secret from environment variable SNMP_X: not present"));
    let failed = agent_step_result(Ok(()), Err("connection refused".to_string())).unwrap();
    assert_eq!(failed.status, OutcomeStatus::Failed);
    assert_eq!(failed.message, "connection refused");
    let ok = agent_step_result(Ok(()), Ok(())).unwrap();
    assert_eq!(ok.status, OutcomeStatus::Updated);
    assert_eq!(ok.message, "snmp-config replaced");
}
