use onmsctl::provisioning::convert::parse_snmp_primary;
use onmsctl::provisioning::finding::{explain, Finding, FindingCode, Severity};
use onmsctl::provisioning::model::SnmpPrimary;

#[test]
fn as_str_matches_variant_number() {
    assert_eq!(FindingCode::Pr001.as_str(), "PR001");
    assert_eq!(FindingCode::Pr002.as_str(), "PR002");
    assert_eq!(FindingCode::Pr003.as_str(), "PR003");
    assert_eq!(FindingCode::Pr004.as_str(), "PR004");
}

#[test]
fn parse_round_trips_through_as_str() {
    for code in FindingCode::all() {
        assert_eq!(FindingCode::parse(code.as_str()), Some(code));
    }
}

#[test]
fn parse_is_case_insensitive() {
    assert_eq!(FindingCode::parse("pr001"), Some(FindingCode::Pr001));
    assert_eq!(FindingCode::parse("Pr002"), Some(FindingCode::Pr002));
}

#[test]
fn parse_rejects_unknown_codes() {
    assert_eq!(FindingCode::parse("PR999"), None);
    assert_eq!(FindingCode::parse(""), None);
    assert_eq!(FindingCode::parse("EC001"), None);
}

#[test]
fn all_catalog_codes_have_non_empty_explain() {
    for code in FindingCode::all() {
        let text = explain(code);
        assert!(
            text.starts_with(code.as_str()),
            "explain({code:?}) does not start with its code"
        );
        assert!(text.len() > 80, "explain({code:?}) is suspiciously short");
    }
}

#[test]
fn pr004_is_info_not_warning() {
    assert_eq!(FindingCode::Pr004.default_severity(), Severity::Info);
}

#[test]
fn finding_new_attaches_default_severity() {
    let f = Finding::new(FindingCode::Pr001, "unknown element <foo>".to_string());
    assert_eq!(f.severity, Severity::Warning);
    assert!(f.source_path.is_none());
}

#[test]
fn finding_with_source_attaches_path() {
    let f = Finding::new(FindingCode::Pr001, "x".to_string()).with_source("/tmp/r.xml".to_string());
    assert_eq!(f.source_path.as_deref(), Some("/tmp/r.xml"));
}

#[test]
fn snmp_primary_parses_p_s_n() {
    assert_eq!(parse_snmp_primary("P"), Some(SnmpPrimary::P));
    assert_eq!(parse_snmp_primary("S"), Some(SnmpPrimary::S));
    assert_eq!(parse_snmp_primary("N"), Some(SnmpPrimary::N));
    assert_eq!(parse_snmp_primary("X"), None);
    assert_eq!(parse_snmp_primary(""), None);
}

#[test]
fn all_lists_the_catalog_in_order() {
    assert_eq!(
        FindingCode::all(),
        vec![
            FindingCode::Pr001,
            FindingCode::Pr002,
            FindingCode::Pr003,
            FindingCode::Pr004,
            FindingCode::Pr005
        ]
    );
    assert_eq!(FindingCode::Pr005.default_severity(), Severity::Warning);
}

#[test]
fn opt_source_keeps_finding_without_path() {
    let f = Finding::new(FindingCode::Pr002, "m".to_string()).opt_source(None);
    assert!(f.source_path.is_none());
    let p = "/a/b.xml".to_string();
    let g = Finding::new(FindingCode::Pr002, "m".to_string()).opt_source(Some(&p));
    assert_eq!(g.source_path.as_deref(), Some("/a/b.xml"));
    assert_eq!(g.message, "m");
}
