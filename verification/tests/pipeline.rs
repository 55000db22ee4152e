use onmsctl::json::{obj_get, Value};
use onmsctl::provisioning::finding::{Finding, FindingCode, Severity};
use onmsctl::provisioning::pipeline::{convert_parsed, directory_results, orphan_results, ConversionResult};
use onmsctl::provisioning::xml::{
    AssetXml, CategoryXml, DetectorXml, DetectorsXml, ForeignSourceXml, InterfaceXml, MetaDataXml,
    MonitoredServiceXml, NodeXml, PoliciesXml, RequisitionXml,
};

fn svc(name: &str) -> MonitoredServiceXml {
    MonitoredServiceXml { service_name: name.to_string(), meta_data: vec![], extras: vec![] }
}

fn md(context: &str, key: &str, value: &str) -> MetaDataXml {
    MetaDataXml { context: context.to_string(), key: key.to_string(), value: value.to_string() }
}

fn iface(ip: &str) -> InterfaceXml {
    InterfaceXml {
        ip_addr: ip.to_string(),
        snmp_primary: None,
        status: None,
        descr: None,
        monitored_services: vec![],
        meta_data: vec![],
        extras: vec![],
    }
}

fn node(fid: &str, label: &str) -> NodeXml {
    NodeXml {
        foreign_id: fid.to_string(),
        node_label: label.to_string(),
        location: None,
        city: None,
        interfaces: vec![],
        categories: vec![],
        assets: vec![],
        meta_data: vec![],
        extras: vec![],
    }
}

fn req(fs: &str, nodes: Vec<NodeXml>) -> RequisitionXml {
    RequisitionXml { foreign_source: fs.to_string(), date_stamp: None, last_import: None, nodes, extras: vec![] }
}

fn req_basic() -> RequisitionXml {
    let mut n = node("web01", "web01.acme");
    let mut i = iface("10.0.0.1");
    i.snmp_primary = Some("P".to_string());
    i.monitored_services = vec![svc("HTTP")];
    n.interfaces = vec![i];
    n.categories = vec![CategoryXml { name: "Production".to_string() }];
    n.assets = vec![AssetXml { name: "city".to_string(), value: "NYC".to_string() }];
    req("acme-prod", vec![n])
}

fn req_with_unmodeled() -> RequisitionXml {
    let mut n = node("web01", "web01");
    n.location = Some("HQ".to_string());
    n.city = Some("NYC".to_string());
    let mut i = iface("10.0.0.1");
    i.status = Some("1".to_string());
    i.descr = Some("primary nic".to_string());
    i.monitored_services = vec![svc("HTTP")];
    i.meta_data = vec![md("r", "k", "v")];
    n.interfaces = vec![i];
    n.meta_data = vec![md("r", "owner", "ops")];
    req("acme-prod", vec![n])
}

fn fs_basic() -> ForeignSourceXml {
    ForeignSourceXml {
        name: "acme-prod".to_string(),
        date_stamp: None,
        scan_interval: Some("1d".to_string()),
        detectors: DetectorsXml {
            detector: vec![DetectorXml {
                name: "SNMP".to_string(),
                class: "org.opennms.netmgt.provision.detector.snmp.SnmpDetector".to_string(),
                parameter: vec![],
            }],
        },
        policies: PoliciesXml { policy: vec![] },
    }
}

fn result_of(r: &RequisitionXml, fs: Option<&ForeignSourceXml>) -> (onmsctl::provisioning::model::RequisitionLocal, ConversionResult) {
    let (doc, findings) = convert_parsed(r, fs, None);
    let result = ConversionResult { foreign_source: r.foreign_source.clone(), yaml: Some(String::new()), findings };
    (doc, result)
}

fn get<'a>(v: &'a Value, k: &str) -> &'a Value {
    match v {
        Value::Object(e) => obj_get(e, k).unwrap_or_else(|| panic!("missing key {k} in {v:?}")),
        other => panic!("not an object: {other:?}"),
    }
}

fn annotation(doc: &onmsctl::provisioning::model::RequisitionLocal) -> Value {
    Value::Object(doc.metadata.unmodeled.clone().expect("annotation present"))
}

#[test]
fn convert_emits_yaml_and_pr004_when_no_fs() {
    let (doc, r) = result_of(&req_basic(), None);
    assert_eq!(r.foreign_source, "acme-prod");
    assert_eq!(doc.metadata.name, "acme-prod");
    assert_eq!(doc.spec.nodes[0].foreign_id, "web01");
    assert_eq!(doc.spec.nodes[0].interfaces[0].services, vec!["HTTP"]);
    assert!(doc.spec.foreign_source.is_none());
    assert!(r.findings.iter().any(|f| f.code == FindingCode::Pr004));
    assert_eq!(r.exit_code(), 0);
}

#[test]
fn convert_with_fs_emits_yaml_and_no_pr004() {
    let fs = fs_basic();
    let (doc, r) = result_of(&req_basic(), Some(&fs));
    let f = doc.spec.foreign_source.as_ref().expect("foreignSource block present");
    assert_eq!(f.scan_interval.as_deref(), Some("1d"));
    assert!(f.detectors[0].class.as_deref().unwrap().contains("SnmpDetector"));
    assert!(!r.findings.iter().any(|f| f.code == FindingCode::Pr004));
}

#[test]
fn unmodeled_attributes_each_raise_pr001() {
    let (_, r) = result_of(&req_with_unmodeled(), None);
    let pr001s: Vec<&Finding> = r.findings.iter().filter(|f| f.code == FindingCode::Pr001).collect();
    assert_eq!(pr001s.len(), 6, "expected exactly 6 PR001 findings, got {}: {:#?}", pr001s.len(), pr001s);
    assert!(pr001s.iter().any(|f| f.message.contains("'location'")));
    assert!(pr001s.iter().any(|f| f.message.contains("'city'")));
    assert!(pr001s.iter().any(|f| f.message.contains("'status'")));
    assert!(pr001s.iter().any(|f| f.message.contains("'descr'")));
    assert_eq!(r.exit_code(), 1);
}

#[test]
fn unmodeled_content_round_trips_via_metadata_annotation() {
    let (doc, _) = result_of(&req_with_unmodeled(), None);
    let a = annotation(&doc);
    let web01 = get(get(&a, "nodes"), "web01");
    assert_eq!(get(web01, "location"), &Value::Str("HQ".into()));
    assert_eq!(get(web01, "city"), &Value::Str("NYC".into()));
    match get(web01, "meta-data") {
        Value::Array(items) => {
            assert_eq!(items.len(), 1);
            assert_eq!(get(&items[0], "key"), &Value::Str("owner".into()));
        }
        other => panic!("node meta-data is a sequence: {other:?}"),
    }
    let iface = get(get(web01, "interfaces"), "10.0.0.1");
    assert_eq!(get(iface, "status"), &Value::Str("1".into()));
    assert_eq!(get(iface, "descr"), &Value::Str("primary nic".into()));
    match get(iface, "meta-data") {
        Value::Array(items) => {
            assert_eq!(items.len(), 1);
            assert_eq!(get(&items[0], "key"), &Value::Str("k".into()));
        }
        other => panic!("iface meta-data is a sequence: {other:?}"),
    }
    // The node is still converted; its location is not carried over.
    assert!(doc.spec.nodes[0].location.is_none());
}

#[test]
fn unmodeled_passthrough_captures_custom_vendor_attrs() {
    let mut r = req("acme-prod", vec![]);
    r.extras = vec![("@some-vendor-attr".to_string(), Value::Str("vendor-x".into()))];
    let mut n = node("web01.acme.com", "web01");
    n.location = Some("HQ".to_string());
    n.extras = vec![("@legacy-tag".to_string(), Value::Str("tag-1".into()))];
    let mut i = iface("10.0.0.1");
    i.extras = vec![("@custom-port-mode".to_string(), Value::Str("trunk".into()))];
    n.interfaces = vec![i];
    r.nodes = vec![n];
    let (doc, res) = result_of(&r, None);
    let a = annotation(&doc);
    assert_eq!(get(&a, "some-vendor-attr"), &Value::Str("vendor-x".into()));
    let web01 = get(get(&a, "nodes"), "web01.acme.com");
    assert_eq!(get(web01, "legacy-tag"), &Value::Str("tag-1".into()));
    assert_eq!(get(web01, "location"), &Value::Str("HQ".into()));
    let iface = get(get(web01, "interfaces"), "10.0.0.1");
    assert_eq!(get(iface, "custom-port-mode"), &Value::Str("trunk".into()));
    let messages: Vec<&str> = res.findings.iter().map(|f| f.message.as_str()).collect();
    assert!(messages.iter().any(|m| m.contains("some-vendor-attr")), "{messages:#?}");
    assert!(messages.iter().any(|m| m.contains("legacy-tag")), "{messages:#?}");
    assert!(messages.iter().any(|m| m.contains("custom-port-mode")), "{messages:#?}");
}

#[test]
fn unmodeled_annotation_is_absent_when_xml_has_no_unmodeled_content() {
    let (doc, _) = result_of(&req_basic(), None);
    assert!(doc.metadata.unmodeled.is_none());
}

#[test]
fn invalid_snmp_primary_raises_pr005() {
    let mut n = node("web01", "web01");
    let mut i = iface("10.0.0.1");
    i.snmp_primary = Some("Primary".to_string());
    n.interfaces = vec![i];
    let (doc, r) = result_of(&req("acme", vec![n]), None);
    let pr005s: Vec<&Finding> = r.findings.iter().filter(|f| f.code == FindingCode::Pr005).collect();
    assert_eq!(pr005s.len(), 1);
    assert!(pr005s[0].message.contains("Primary"));
    assert!(doc.spec.nodes[0].interfaces[0].snmp_primary.is_none());
}

#[test]
fn catalog_key_shadows_extra_of_same_name() {
    let mut n = node("web01", "web01");
    n.location = Some("HQ".to_string());
    n.extras = vec![("location".to_string(), Value::Str("NY".into()))];
    let (doc, r) = result_of(&req("acme", vec![n]), None);
    let a = annotation(&doc);
    let web01 = get(get(&a, "nodes"), "web01");
    assert_eq!(get(web01, "location"), &Value::Str("HQ".into()));
    assert!(r.findings.iter().any(|f| f.message
        == "node 'web01': 'location' collides with catalog key 'location' (child shadowed, value not preserved in annotation)"));
}

#[test]
fn findings_carry_source_path_and_exact_messages() {
    let path = "/x/acme.xml".to_string();
    let (_, findings) = convert_parsed(&req_with_unmodeled(), None, Some(&path));
    assert!(findings.iter().all(|f| f.source_path.as_deref() == Some("/x/acme.xml")));
    let msgs: Vec<&str> = findings.iter().map(|f| f.message.as_str()).collect();
    assert_eq!(msgs[0], "node 'web01': 'location' is not modeled in YAML (preserved as annotation)");
    assert_eq!(msgs[2], "node 'web01': <meta-data> elements are not modeled in YAML (1 preserved as annotation)");
    assert_eq!(msgs[5], "node 'web01' interface 10.0.0.1: <meta-data> elements not modeled (1 preserved as annotation)");
    assert_eq!(
        *msgs.last().unwrap(),
        "Requisition/acme-prod has no matching foreign-source XML; emitted YAML inherits Horizon's default-FS"
    );
}

#[test]
fn assets_later_record_replaces_earlier() {
    let mut n = node("web01", "w");
    n.assets = vec![
        AssetXml { name: "rack".to_string(), value: "1".to_string() },
        AssetXml { name: "city".to_string(), value: "NYC".to_string() },
        AssetXml { name: "rack".to_string(), value: "2".to_string() },
    ];
    let (doc, _) = result_of(&req("acme", vec![n]), None);
    let a = &doc.spec.nodes[0].assets;
    assert_eq!(a.len(), 2);
    assert_eq!((a.name_at(0).as_str(), a.value_at(0).as_str()), ("city", "NYC"));
    assert_eq!((a.name_at(1).as_str(), a.value_at(1).as_str()), ("rack", "2"));
}

#[test]
fn convert_directory_finds_orphan_fs() {
    let fs_files = vec![
        ("acme-prod".to_string(), "/fs/acme-prod.xml".to_string()),
        ("ghost".to_string(), "/fs/ghost.xml".to_string()),
    ];
    let reqs = vec!["acme-prod".to_string()];
    let acme_converted = ConversionResult {
        foreign_source: "acme-prod".to_string(),
        yaml: Some("apiVersion: provisioning.opennms.org/v1\n".to_string()),
        findings: vec![],
    };
    let results = directory_results(vec![acme_converted], &fs_files, &reqs);
    assert_eq!(results.len(), 2);
    let acme = results.iter().find(|r| r.foreign_source == "acme-prod").unwrap();
    assert!(acme.yaml.is_some());
    assert!(!acme.findings.iter().any(|f| f.code == FindingCode::Pr002));
    let ghost = results.iter().find(|r| r.foreign_source == "ghost").unwrap();
    assert!(ghost.yaml.is_none());
    assert!(ghost.findings.iter().any(|f| f.code == FindingCode::Pr002));
    assert_eq!(ghost.findings[0].message, "orphan foreign-source XML 'ghost'; no matching requisition");
    assert_eq!(ghost.findings[0].source_path.as_deref(), Some("/fs/ghost.xml"));
    let orphans = orphan_results(&fs_files, &reqs);
    assert_eq!(orphans.len(), 1);
}

#[test]
fn directory_results_put_orphans_after_conversions() {
    let fs_files = vec![
        ("b".to_string(), "/fs/b.xml".to_string()),
        ("a".to_string(), "/fs/a.xml".to_string()),
    ];
    let converted = |name: &str| ConversionResult {
        foreign_source: name.to_string(),
        yaml: Some(String::new()),
        findings: vec![],
    };
    let results = directory_results(vec![converted("z"), converted("y")], &fs_files, &vec!["z".to_string(), "y".to_string()]);
    let names: Vec<&str> = results.iter().map(|r| r.foreign_source.as_str()).collect();
    assert_eq!(names, vec!["z", "y", "a", "b"]);
}

#[test]
fn orphans_are_listed_by_name() {
    let fs_files = vec![
        ("zeta".to_string(), "/fs/zeta.xml".to_string()),
        ("a-b".to_string(), "/fs/a-b.xml".to_string()),
        ("a".to_string(), "/fs/a.xml".to_string()),
    ];
    let orphans = orphan_results(&fs_files, &vec![]);
    let names: Vec<&str> = orphans.iter().map(|o| o.foreign_source.as_str()).collect();
    assert_eq!(names, vec!["a", "a-b", "zeta"]);
}

#[test]
fn exit_code_prefers_error_over_warning() {
    let mut e = Finding::new(FindingCode::Pr001, "x".to_string());
    e.severity = Severity::Error;
    let r = ConversionResult {
        foreign_source: "a".to_string(),
        yaml: None,
        findings: vec![Finding::new(FindingCode::Pr001, "w".to_string()), e],
    };
    assert_eq!(r.exit_code(), 2);
    let info = ConversionResult {
        foreign_source: "a".to_string(),
        yaml: None,
        findings: vec![Finding::new(FindingCode::Pr004, "i".to_string())],
    };
    assert_eq!(info.exit_code(), 0);
}
