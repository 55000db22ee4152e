use onmsctl::ip::{ip_le_exec, ip_to_string, parse_ip, IpAddr};
use onmsctl::snmp::model::{
    DefinitionLocal, Metadata, Params, ProfileLocal, RangeLocal, SecurityLevel, SnmpConfigLocal,
    Spec,
};
use onmsctl::snmp::secret::{FromKeyringRef, KeyringRef, SecretRef};
use onmsctl::snmp::select::{locations_for_ip, DEFAULT_LOCATION};
use onmsctl::snmp::server::{Definition, Range, SnmpConfig};
use onmsctl::snmp::validate::ConfigError;

fn doc(name: &str, profiles: Vec<ProfileLocal>, definitions: Vec<DefinitionLocal>) -> SnmpConfigLocal {
    SnmpConfigLocal {
        api_version: "snmp.opennms.org/v1".to_string(),
        kind: "SnmpConfig".to_string(),
        metadata: Metadata { name: name.to_string() },
        spec: Spec { defaults: None, profiles, definitions, trapd: None },
    }
}

fn strings(s: &[&str]) -> Vec<String> {
    s.iter().map(|x| x.to_string()).collect()
}

#[test]
fn full_document_parses_and_validates() {
    let profile = ProfileLocal {
        params: Params {
            security_level: Some(SecurityLevel::AuthPriv),
            auth_passphrase: Some(SecretRef::FromKeyring(FromKeyringRef {
                from_keyring: KeyringRef { service: "onmsctl".into(), account: "snmp-auth".into() },
            })),
            ..Default::default()
        },
        label: "core-v3".to_string(),
        filter_expression: None,
    };
    let d = DefinitionLocal {
        specifics: strings(&["192.168.8.8"]),
        ranges: vec![RangeLocal { begin: "10.0.0.1".into(), end: "10.0.0.254".into() }],
        profile_label: Some("core-v3".into()),
        ..Default::default()
    };
    let c = doc("default", vec![profile], vec![d]);
    c.validate().expect("valid");
    assert_eq!(c.spec.profiles.len(), 1);
    let p = &c.spec.profiles[0];
    assert_eq!(p.label, "core-v3");
    assert_eq!(p.params.security_level, Some(SecurityLevel::AuthPriv));
    assert!(matches!(p.params.auth_passphrase, Some(SecretRef::FromKeyring(_))));
    let d = &c.spec.definitions[0];
    assert_eq!(d.specifics, vec!["192.168.8.8"]);
    assert_eq!(d.profile_label.as_deref(), Some("core-v3"));
}

#[test]
fn wrong_singleton_name_is_rejected() {
    let c = doc("prod", vec![], vec![]);
    let err = c.validate().unwrap_err().message();
    assert!(err.contains("singleton") && err.contains("default"));
}

#[test]
fn definition_without_selector_is_rejected() {
    let c = doc("default", vec![], vec![DefinitionLocal { location: Some("x".into()), ..Default::default() }]);
    let err = c.validate().unwrap_err();
    assert!(matches!(err, ConfigError::NoSelector { index: 0 }));
    assert!(err.message().contains("no selector"));
}

#[test]
fn ipmatches_with_ranges_is_rejected() {
    let c = doc(
        "default",
        vec![],
        vec![DefinitionLocal {
            ip_matches: strings(&["10.*.*.*"]),
            ranges: vec![RangeLocal { begin: "10.0.0.1".into(), end: "10.0.0.2".into() }],
            ..Default::default()
        }],
    );
    assert!(c.validate().unwrap_err().message().contains("cannot be combined"));
}

#[test]
fn invalid_specific_ip_is_rejected() {
    let c = doc("default", vec![], vec![DefinitionLocal { specifics: strings(&["not-an-ip"]), ..Default::default() }]);
    assert!(c.validate().unwrap_err().message().contains("invalid specific IP"));
}

#[test]
fn unknown_profile_label_is_rejected() {
    let c = doc(
        "default",
        vec![],
        vec![DefinitionLocal {
            specifics: strings(&["10.0.0.1"]),
            profile_label: Some("ghost".into()),
            ..Default::default()
        }],
    );
    assert!(c.validate().unwrap_err().message().contains("names no declared"));
}

#[test]
fn wrong_api_version_and_kind_are_rejected() {
    let mut c = doc("default", vec![], vec![]);
    c.api_version = "snmp.opennms.org/v2".to_string();
    assert!(matches!(c.validate(), Err(ConfigError::ApiVersion { .. })));
    let mut c = doc("default", vec![], vec![]);
    c.kind = "Other".to_string();
    assert!(matches!(c.validate(), Err(ConfigError::Kind { .. })));
}

fn ip(s: &str) -> IpAddr {
    parse_ip(s).expect("valid IP literal")
}

fn cfg(defs: Vec<Definition>) -> SnmpConfig {
    SnmpConfig { definition: defs, ..Default::default() }
}

fn def(location: Option<&str>, specifics: &[&str], ranges: &[(&str, &str)], ip_match: &[&str]) -> Definition {
    Definition {
        location: location.map(String::from),
        specific: strings(specifics),
        range: ranges.iter().map(|(b, e)| Range { begin: b.to_string(), end: e.to_string() }).collect(),
        ip_match: strings(ip_match),
        ..Default::default()
    }
}

#[test]
fn specific_exact_match_yields_its_location() {
    let c = cfg(vec![def(Some("hq"), &["192.168.8.8"], &[], &[])]);
    assert_eq!(locations_for_ip(&c, &ip("192.168.8.8")), vec!["hq"]);
    assert!(locations_for_ip(&c, &ip("192.168.8.9")).is_empty());
}

#[test]
fn range_is_inclusive_and_numeric() {
    let c = cfg(vec![def(Some("dc"), &[], &[("10.0.0.1", "10.0.0.254")], &[])]);
    assert_eq!(locations_for_ip(&c, &ip("10.0.0.1")), vec!["dc"]);
    assert_eq!(locations_for_ip(&c, &ip("10.0.0.200")), vec!["dc"]);
    assert_eq!(locations_for_ip(&c, &ip("10.0.0.254")), vec!["dc"]);
    assert!(locations_for_ip(&c, &ip("10.0.1.1")).is_empty());
}

#[test]
fn iplike_octet_patterns_match() {
    let c = cfg(vec![def(Some("edge"), &[], &[], &["10.*.4-6.1,2"])]);
    assert_eq!(locations_for_ip(&c, &ip("10.99.5.2")), vec!["edge"]);
    assert!(locations_for_ip(&c, &ip("10.99.7.2")).is_empty());
    assert!(locations_for_ip(&c, &ip("10.99.5.3")).is_empty());
}

#[test]
fn multiple_locations_are_deduped_and_sorted() {
    let c = cfg(vec![
        def(Some("nyc-dc"), &["192.168.8.8"], &[], &[]),
        def(Some("labmonkeys-hq"), &[], &[("192.168.8.1", "192.168.8.254")], &[]),
        def(Some("nyc-dc"), &[], &[], &["192.168.8.*"]),
    ]);
    assert_eq!(locations_for_ip(&c, &ip("192.168.8.8")), vec!["labmonkeys-hq", "nyc-dc"]);
}

#[test]
fn definition_without_location_is_default() {
    let c = cfg(vec![def(None, &["192.168.8.8"], &[], &[])]);
    assert_eq!(locations_for_ip(&c, &ip("192.168.8.8")), vec![DEFAULT_LOCATION]);
}

#[test]
fn ipv6_specific_matches_any_spelling() {
    let c = cfg(vec![def(Some("v6"), &["2001:db8::1"], &[], &[])]);
    assert_eq!(locations_for_ip(&c, &ip("2001:0db8:0:0:0:0:0:1")), vec!["v6"]);
}

#[test]
fn addresses_order_v4_before_v6_then_numerically() {
    let a = parse_ip("10.0.0.9").unwrap();
    let b = parse_ip("10.0.0.10").unwrap();
    let c = parse_ip("::1").unwrap();
    assert!(ip_le_exec(&a, &b));
    assert!(!ip_le_exec(&b, &a));
    assert!(ip_le_exec(&b, &c));
    assert!(!ip_le_exec(&c, &a));
}

#[test]
fn address_parsing_and_canonical_text() {
    let cases: [(&str, Option<&str>); 31] = [
        ("0.0.0.0", Some("0.0.0.0")),
        ("10.0.0.1", Some("10.0.0.1")),
        ("255.255.255.255", Some("255.255.255.255")),
        ("256.0.0.1", None),
        ("1.2.3", None),
        ("1.2.3.4.5", None),
        ("1.2.3.4 ", None),
        ("", None),
        ("::", Some("::")),
        ("::1", Some("::1")),
        ("1::", Some("1::")),
        ("fe80::1:2", Some("fe80::1:2")),
        ("2001:db8::8a2e:370:7334", Some("2001:db8::8a2e:370:7334")),
        ("2001:0db8:0000:0000:0000:ff00:0042:8329", Some("2001:db8::ff00:42:8329")),
        ("1:2:3:4:5:6:7:8", Some("1:2:3:4:5:6:7:8")),
        ("1:2:3:4:5:6:7:8:9", None),
        ("1::2::3", None),
        (":::", None),
        ("::ffff:192.0.2.1", Some("::ffff:192.0.2.1")),
        ("::192.0.2.1", Some("::c000:201")),
        ("1:2:3:4:5:6:1.2.3.4", Some("1:2:3:4:5:6:102:304")),
        ("12345::", None),
        ("g::1", None),
        ("1:0:0:0:1:0:0:1", Some("1::1:0:0:1")),
        ("0:0:0:0:0:0:0:1", Some("::1")),
        ("1:0:0:2:0:0:0:3", Some("1:0:0:2::3")),
        ("1:0:2:3:4:5:6:7", Some("1:0:2:3:4:5:6:7")),
        ("[::1]", None),
        ("::1%eth0", None),
        ("FE80::A", Some("fe80::a")),
        ("::FFFF:10.0.0.1", Some("::ffff:10.0.0.1")),
    ];
    for (text, expected) in cases {
        let got = parse_ip(text).map(|a| ip_to_string(&a));
        assert_eq!(got.as_deref(), expected, "parsing {text:?}");
    }
}
