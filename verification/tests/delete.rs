use onmsctl::provisioning::cmd::{
    categories_table, delete_start, delete_step, interfaces_table, nodes_table, requisitions_table,
    DeleteAction, DeleteEvent, DeletePhase, DeleteState,
};
use onmsctl::provisioning::server::{InterfaceServer, NodeServer};

fn node(fid: &str, label: &str, location: Option<&str>, ifaces: Vec<InterfaceServer>) -> NodeServer {
    NodeServer {
        foreign_id: fid.to_string(),
        node_label: label.to_string(),
        location: location.map(|l| l.to_string()),
        building: None,
        city: None,
        parent_foreign_source: None,
        parent_foreign_id: None,
        parent_node_label: None,
        interface: ifaces,
        category: vec![],
        asset: vec![],
        meta_data: vec![],
    }
}

fn iface(ip: &str, primary: &str, status: Option<i32>) -> InterfaceServer {
    InterfaceServer {
        ip_addr: ip.to_string(),
        snmp_primary: primary.to_string(),
        status,
        managed: None,
        descr: None,
        monitored_service: vec![],
        category: vec![],
        meta_data: vec![],
    }
}

#[test]
fn listings_show_a_placeholder_when_empty() {
    assert_eq!(requisitions_table(&vec![]), "(no requisitions)\n");
    assert_eq!(requisitions_table(&vec!["a".to_string(), "b".to_string()]), "a\nb\n");
    assert_eq!(categories_table(&vec![]), "(no categories)\n");
    assert_eq!(nodes_table(&vec![]), "(no nodes)\n");
    assert_eq!(
        nodes_table(&vec![node("web01", "Web 01", Some("dc1"), vec![]), node("db", "DB", None, vec![])]),
        "web01  Web 01 location=dc1\ndb  DB\n"
    );
    assert_eq!(interfaces_table(&node("n", "n", None, vec![])), "(no interfaces)\n");
    assert_eq!(
        interfaces_table(&node("n", "n", None, vec![iface("10.0.0.1", "P", Some(1)), iface("10.0.0.2", "N", None)])),
        "10.0.0.1  snmp-primary=P status=1\n10.0.0.2  snmp-primary=N\n"
    );
}

fn step(st: DeleteState, ev: DeleteEvent) -> (DeleteState, DeleteAction) {
    delete_step(st, ev)
}

#[test]
fn purge_with_yes_deletes_both_snapshots_in_order() {
    let (st, a) = step(delete_start("acme".to_string()), DeleteEvent::Begin { yes: true, stdin_tty: false, stderr_tty: false });
    assert!(matches!(a, DeleteAction::DeletePending(None)));
    let (st, a) = step(st, DeleteEvent::Deleted);
    assert!(matches!(a, DeleteAction::DeleteDeployed));
    let (st, a) = step(st, DeleteEvent::Absent);
    assert_eq!(st.phase, DeletePhase::Finished);
    match a {
        DeleteAction::Finish(pending_absent, deployed_absent, noop, echo) => {
            assert!(!pending_absent && deployed_absent);
            assert!(noop.is_none() && echo.is_none());
        }
        _ => panic!("the purge is over"),
    }
}

#[test]
fn purge_without_terminal_is_refused() {
    let (st, a) = step(delete_start("acme".to_string()), DeleteEvent::Begin { yes: false, stdin_tty: false, stderr_tty: true });
    assert_eq!(st.phase, DeletePhase::Finished);
    match a {
        DeleteAction::Fail(None, e) => assert!(e.contains("requires --yes") && e.contains("stdin is not a terminal")),
        _ => panic!("refused"),
    }
}

#[test]
fn purge_asks_and_cancels_unless_confirmed() {
    let (st, a) = step(delete_start("acme".to_string()), DeleteEvent::Begin { yes: false, stdin_tty: true, stderr_tty: true });
    assert!(matches!(a, DeleteAction::Probe));
    let (st, a) = step(st, DeleteEvent::Found { node_count: 3, last_import_ms: None });
    match a {
        DeleteAction::Prompt(p) => assert!(p.starts_with("About to purge Requisition/acme (3 node(s), never imported).")),
        _ => panic!("a prompt"),
    }
    let (_, a) = step(st, DeleteEvent::Answer("no\n".to_string()));
    match a {
        DeleteAction::Fail(None, e) => assert_eq!(e, "delete cancelled by operator: acme"),
        _ => panic!("cancelled"),
    }
}

#[test]
fn confirmed_purge_echoes_and_a_failed_deployed_delete_warns() {
    let (st, _) = step(delete_start("acme".to_string()), DeleteEvent::Begin { yes: false, stdin_tty: true, stderr_tty: true });
    let (st, _) = step(st, DeleteEvent::Found { node_count: 1, last_import_ms: None });
    let (st, a) = step(st, DeleteEvent::Answer(" YES ".to_string()));
    assert!(matches!(a, DeleteAction::DeletePending(None)));
    assert!(st.confirmed);
    let (st, _) = step(st, DeleteEvent::Deleted);
    let (_, a) = step(st, DeleteEvent::Failed("HTTP 500".to_string()));
    match a {
        DeleteAction::Fail(Some(w), e) => {
            assert!(w.starts_with("warning: Requisition/acme — pending snapshot was deleted"));
            assert_eq!(e, "HTTP 500");
        }
        _ => panic!("half purged"),
    }
}

#[test]
fn absent_requisition_is_noted_and_purged_without_asking() {
    let (st, _) = step(delete_start("gone".to_string()), DeleteEvent::Begin { yes: false, stdin_tty: true, stderr_tty: true });
    let (st, a) = step(st, DeleteEvent::NotFound);
    match a {
        DeleteAction::DeletePending(Some(n)) => assert!(n.contains("skipping confirmation")),
        _ => panic!("note then delete"),
    }
    let (st, _) = step(st, DeleteEvent::Absent);
    let (_, a) = step(st, DeleteEvent::Absent);
    match a {
        DeleteAction::Finish(true, true, noop, echo) => assert!(noop.is_none() && echo.is_none()),
        _ => panic!("no-op purge"),
    }
}
