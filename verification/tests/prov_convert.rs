use onmsctl::json::Value;
use onmsctl::provisioning::convert::{requisition_from_wire, requisition_to_wire};
use onmsctl::provisioning::diff::{l1_compare, L1Result};
use onmsctl::provisioning::model::{
    ApiVersion, Assets, Detector, ForeignSourceSpec, Interface, Kind, Metadata, Node,
    RequisitionLocal, SnmpPrimary, Spec,
};

fn doc(fs: Option<ForeignSourceSpec>, nodes: Vec<Node>) -> RequisitionLocal {
    RequisitionLocal {
        api_version: ApiVersion,
        kind: Kind,
        metadata: Metadata { name: "acme-prod".to_string(), unmodeled: None },
        spec: Spec { foreign_source: fs, nodes },
    }
}

fn node(fid: &str, label: &str) -> Node {
    Node {
        foreign_id: fid.to_string(),
        label: label.to_string(),
        location: None,
        interfaces: vec![],
        categories: vec![],
        assets: Assets::new(),
    }
}

fn strs(v: &[&str]) -> Vec<String> {
    v.iter().map(|s| s.to_string()).collect()
}

#[test]
fn local_to_server_reconstructs_wire_shape() {
    let mut n = node("web01", "web01.acme");
    n.categories = strs(&["Production", "Web"]);
    n.assets.insert("city".to_string(), "Heilbronn".to_string());
    n.assets.insert("rack".to_string(), "A4".to_string());
    n.interfaces = vec![Interface {
        ip: "10.0.0.5".to_string(),
        snmp_primary: Some(SnmpPrimary::P),
        services: strs(&["ICMP", "SNMP", "HTTP"]),
    }];
    let fs = ForeignSourceSpec {
        scan_interval: Some("1d".to_string()),
        detectors: vec![Detector {
            name: "ICMP".to_string(),
            class: Some("org.opennms.netmgt.provision.detector.icmp.IcmpDetector".to_string()),
            parameters: vec![],
        }],
        policies: vec![],
    };
    let local = doc(Some(fs), vec![n]);
    let (req, fs) = requisition_to_wire(&local);

    assert_eq!(req.foreign_source, "acme-prod");
    assert!(req.date_stamp.is_none());
    assert!(req.last_import.is_none());
    assert_eq!(req.node.len(), 1);

    let n = &req.node[0];
    assert_eq!(n.foreign_id, "web01");
    assert_eq!(n.node_label, "web01.acme");
    let cats: Vec<_> = n.category.iter().map(|c| c.name.as_str()).collect();
    assert_eq!(cats, vec!["Production", "Web"]);
    let assets: Vec<_> = n.asset.iter().map(|a| (a.name.as_str(), a.value.as_str())).collect();
    assert_eq!(assets, vec![("city", "Heilbronn"), ("rack", "A4")]);

    assert_eq!(n.interface.len(), 1);
    let i = &n.interface[0];
    assert_eq!(i.ip_addr, "10.0.0.5");
    assert_eq!(i.snmp_primary, "P");
    let svc: Vec<_> = i.monitored_service.iter().map(|s| s.service_name.as_str()).collect();
    assert_eq!(svc, vec!["ICMP", "SNMP", "HTTP"]);

    let fs = fs.expect("FS reconstructed");
    assert_eq!(fs.name, "acme-prod");
    assert_eq!(fs.scan_interval.as_deref(), Some("1d"));
    assert_eq!(fs.detectors.len(), 1);
    assert_eq!(fs.detectors[0].class, "org.opennms.netmgt.provision.detector.icmp.IcmpDetector");
}

#[test]
fn omitted_snmp_primary_defaults_to_not_eligible() {
    let mut n = node("web01", "w");
    n.interfaces = vec![Interface { ip: "10.0.0.5".to_string(), snmp_primary: None, services: vec![] }];
    let local = doc(None, vec![n]);
    let (req, _fs) = requisition_to_wire(&local);
    assert_eq!(req.node[0].interface[0].snmp_primary, "N");
}

#[test]
fn omitted_foreign_source_produces_no_fs_payload() {
    let local = doc(None, vec![]);
    let (_req, fs) = requisition_to_wire(&local);
    assert!(fs.is_none(), "omitting foreignSource => no FS payload to POST");
}

#[test]
fn location_is_emitted_on_the_wire_when_present() {
    let mut n = node("bbone-sw01", "bbone-sw01");
    n.location = Some("labmonkeys-hq".to_string());
    let local = doc(None, vec![n]);
    let (req, _fs) = requisition_to_wire(&local);
    assert_eq!(req.node[0].location.as_deref(), Some("labmonkeys-hq"));
}

#[test]
fn absent_location_is_byte_stable_on_the_wire() {
    let local = doc(None, vec![node("web01", "w")]);
    let (req, _fs) = requisition_to_wire(&local);
    assert!(req.node[0].location.is_none());
}

#[test]
fn location_round_trips_through_wire_and_is_idempotent() {
    let mut n = node("bbone-sw01", "bbone-sw01");
    n.location = Some("labmonkeys-hq".to_string());
    let local = doc(None, vec![n]);
    let (req, _fs) = requisition_to_wire(&local);

    let remote = requisition_from_wire(&req, None);
    assert_eq!(remote.spec.nodes[0].location.as_deref(), Some("labmonkeys-hq"));
    assert_eq!(
        l1_compare(&local, &remote),
        L1Result::Unchanged,
        "re-applying an unchanged location must be a no-op"
    );
}

#[test]
fn requisition_to_wire_strips_unmodeled_annotation() {
    let node_inner = Value::Object(vec![("location".to_string(), Value::Str("HQ".to_string()))]);
    let unmodeled = vec![(
        "nodes".to_string(),
        Value::Object(vec![("web01".to_string(), node_inner)]),
    )];
    let local = RequisitionLocal {
        api_version: ApiVersion,
        kind: Kind,
        metadata: Metadata { name: "acme-prod".to_string(), unmodeled: Some(unmodeled) },
        spec: Spec { foreign_source: None, nodes: vec![] },
    };
    let (wire_req, wire_fs) = requisition_to_wire(&local);
    assert!(wire_req.node.is_empty());
    assert!(wire_fs.is_none());
    assert_eq!(wire_req.foreign_source, "acme-prod");
}

#[test]
fn wire_round_trip_keeps_every_modeled_field() {
    let mut n = node("web01", "web01.acme");
    n.location = Some("HQ".to_string());
    n.categories = strs(&["Web"]);
    n.assets.insert("city".to_string(), "Heilbronn".to_string());
    n.interfaces = vec![Interface {
        ip: "10.0.0.5".to_string(),
        snmp_primary: Some(SnmpPrimary::S),
        services: strs(&["ICMP"]),
    }];
    let local = doc(None, vec![n]);
    let (req, fs) = requisition_to_wire(&local);
    let back = requisition_from_wire(&req, fs.as_ref());
    assert_eq!(l1_compare(&local, &back), L1Result::Unchanged);
    assert_eq!(back.spec.nodes[0].assets.value_at(0), "Heilbronn");
    assert_eq!(back.spec.nodes[0].interfaces[0].snmp_primary, Some(SnmpPrimary::S));
}

#[test]
fn assets_read_back_what_was_set() {
    let mut a = Assets::new();
    a.insert("rack".to_string(), "A4".to_string());
    a.insert("city".to_string(), "Heilbronn".to_string());
    a.insert("rack".to_string(), "B1".to_string());
    assert_eq!(a.get("rack").map(|s| s.as_str()), Some("B1"));
    assert_eq!(a.get("city").map(|s| s.as_str()), Some("Heilbronn"));
    assert!(a.get("building").is_none());
    assert_eq!(a.len(), 2);
    assert_eq!(a.name_at(0), "city");
    assert_eq!(a.name_at(1), "rack");
}
