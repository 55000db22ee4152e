use onmsctl::outcome::{Action, OutcomeStatus};
use onmsctl::snmp::handler::{
    agent_preview, check_singleton, plan_snmp, render_diff, render_trapd_diff, trapd_preview,
    trapd_update_outcome, upload_outcome, TRAPD_NAME,
};
use onmsctl::snmp::model::{
    DefinitionLocal, Metadata, Params, SnmpConfigLocal, Spec, Trapd, SINGLETON_NAME,
};
use onmsctl::snmp::server::{Configuration, Definition, SnmpConfig, Snmpv3User, TrapdConfig};

fn doc(defaults: Option<Params>, definitions: Vec<DefinitionLocal>, trapd: Option<Trapd>) -> SnmpConfigLocal {
    SnmpConfigLocal {
        api_version: "snmp.opennms.org/v1".to_string(),
        kind: "SnmpConfig".to_string(),
        metadata: Metadata { name: "default".to_string() },
        spec: Spec { defaults, profiles: vec![], definitions, trapd },
    }
}

fn v2c() -> Option<Params> {
    Some(Params { version: Some("v2c".into()), ..Default::default() })
}

fn deployed_v2c() -> SnmpConfig {
    SnmpConfig { defaults: Configuration { version: Some("v2c".into()), ..Default::default() }, ..Default::default() }
}

#[test]
fn more_than_one_document_is_rejected() {
    let err = check_singleton(2).unwrap_err();
    assert!(err.contains("singleton"), "got: {err}");
    assert_eq!(err, "kind: SnmpConfig is a singleton — expected exactly one document, got 2");
    assert!(check_singleton(1).is_ok());
    assert!(check_singleton(0).is_err());
}

#[test]
fn previews_name_each_endpoint() {
    let a = agent_preview(true);
    assert_eq!(a.name, SINGLETON_NAME);
    assert_eq!(a.action, Action::Nothing);
    assert_eq!(a.status, OutcomeStatus::Unchanged);
    assert_eq!(a.message, "in sync");
    let t = trapd_preview(false);
    assert_eq!(t.name, TRAPD_NAME);
    assert_eq!(t.action, Action::Update);
    assert_eq!(t.status, OutcomeStatus::Planned);
    assert_eq!(t.kind, "SnmpConfig");
}

#[test]
fn plan_diffs_then_execute_uploads() {
    let local = doc(
        v2c(),
        vec![DefinitionLocal { location: Some("hq".into()), specifics: vec!["192.168.8.8".into()], ..Default::default() }],
        None,
    );
    let plan = plan_snmp(&local, &deployed_v2c(), None);
    assert_eq!(plan.previews.len(), 1);
    assert_eq!(plan.previews[0].action, Action::Update);
    assert!(!plan.agent_unchanged);
    assert!(plan.trapd_unchanged.is_none());
    let d = plan.diff.expect("a changed plan renders a diff");
    assert!(d.contains("definitions: changed (0 deployed -> 1 desired)"), "{d}");
    let o = upload_outcome(Ok(()));
    assert_eq!(o.status, OutcomeStatus::Updated);
    assert_eq!(o.message, "snmp-config replaced");
}

#[test]
fn unchanged_config_is_a_noop() {
    let local = doc(v2c(), vec![], None);
    let plan = plan_snmp(&local, &deployed_v2c(), None);
    assert_eq!(plan.previews[0].status, OutcomeStatus::Unchanged);
    assert!(plan.diff.is_none(), "unchanged plan renders no diff");
    assert!(plan.agent_unchanged);
}

#[test]
fn trapd_block_reconciles_both_endpoints() {
    let t = Trapd { snmp_trap_port: Some(162), new_suspect_on_trap: Some(false), ..Default::default() };
    let local = doc(v2c(), vec![], Some(t));
    let deployed_t = TrapdConfig { snmp_trap_port: Some(100), new_suspect_on_trap: Some(false), ..Default::default() };
    let plan = plan_snmp(&local, &deployed_v2c(), Some(&deployed_t));
    assert_eq!(plan.previews.len(), 2, "agent + trapd previews");
    assert_eq!(plan.previews[1].name, TRAPD_NAME);
    assert_eq!(plan.previews[1].action, Action::Update);
    assert_eq!(plan.previews[0].status, OutcomeStatus::Unchanged);
    assert_eq!(plan.trapd_unchanged, Some(false));
    let d = plan.diff.unwrap();
    assert_eq!(d, "trapd: trap-daemon config update\n  port:     100 -> 162\n  v3 users: 0 deployed -> 0 desired");
}

#[test]
fn no_trapd_block_issues_zero_trapd_traffic() {
    let local = doc(v2c(), vec![], None);
    let deployed_t = TrapdConfig { snmp_trap_port: Some(100), ..Default::default() };
    let plan = plan_snmp(&local, &deployed_v2c(), Some(&deployed_t));
    assert_eq!(plan.previews.len(), 1, "only the agent preview, no trapd");
    assert!(plan.trapd_unchanged.is_none());
}

#[test]
fn trapd_create_from_nothing_on_404() {
    let t = Trapd { snmp_trap_port: Some(162), new_suspect_on_trap: Some(false), ..Default::default() };
    let local = doc(v2c(), vec![], Some(t));
    let plan = plan_snmp(&local, &deployed_v2c(), None);
    assert_eq!(plan.trapd_unchanged, Some(false));
    let o = trapd_update_outcome(Ok(()), Ok(()));
    assert_eq!(o.status, OutcomeStatus::Updated, "create path");
    assert_eq!(o.name, TRAPD_NAME);
}

#[test]
fn trapd_failures_carry_their_hints() {
    let o = trapd_update_outcome(Ok(()), Err("HTTP 404 (see NMS-19128)".to_string()));
    assert_eq!(o.status, OutcomeStatus::Failed);
    assert!(o.message.contains("NMS-19128"));
    assert_eq!(o.hint.as_deref(), Some("verify the server exposes the Trapd REST API and re-apply"));
    let r = trapd_update_outcome(Err("no env".to_string()), Ok(()));
    assert_eq!(r.status, OutcomeStatus::Failed);
    assert_eq!(r.hint.as_deref(), Some("resolve the trap-daemon passphrase reference and re-apply"));
    let u = upload_outcome(Err("connection refused".to_string()));
    assert_eq!(u.status, OutcomeStatus::Failed);
    assert_eq!(u.message, "connection refused");
    assert_eq!(u.hint.as_deref(), Some("verify connectivity and re-apply"));
}

#[test]
fn render_diff_reports_tiers_and_counts() {
    let deployed = deployed_v2c();
    let desired = SnmpConfig {
        definition: vec![Definition { location: Some("hq".into()), specific: vec!["10.0.0.1".into()], ..Default::default() }],
        ..deployed_v2c()
    };
    assert_eq!(
        render_diff(&deployed, &desired),
        "snmp-config: whole-config replace via upload\n  defaults:    unchanged\n  definitions: changed (0 deployed -> 1 desired)\n  profiles:    unchanged (0 deployed -> 0 desired)"
    );
}

#[test]
fn render_trapd_diff_hides_passphrases() {
    let deployed = TrapdConfig::default();
    let desired = TrapdConfig {
        snmp_trap_port: Some(-5),
        snmpv3_user: vec![Snmpv3User { auth_passphrase: Some("sekret".into()), ..Default::default() }],
        ..Default::default()
    };
    let s = render_trapd_diff(&deployed, &desired);
    assert_eq!(s, "trapd: trap-daemon config update\n  port:     - -> -5\n  v3 users: 0 deployed -> 1 desired");
    assert!(!s.contains("sekret"));
}
