use onmsctl::snmp::convert::{
    from_wire, to_wire, to_wire_with_secrets, trapd_from_wire, trapd_to_wire,
    trapd_to_wire_with_secrets, ResolvedSecrets,
};
use onmsctl::snmp::diff::{tiers_match, trapd_unchanged, unchanged};
use onmsctl::snmp::model::{
    DefinitionLocal, Metadata, Params, ProfileLocal, SecurityLevel, SnmpConfigLocal, Spec, Trapd,
    TrapdV3User,
};
use onmsctl::snmp::secret::{FromEnvRef, SecretRef};
use onmsctl::snmp::server::{Configuration, Definition, SnmpConfig, Snmpv3User, TrapdConfig};

fn cfg_with(read_community: Option<&str>, defs: Vec<Definition>) -> SnmpConfig {
    SnmpConfig {
        defaults: Configuration {
            version: Some("v2c".into()),
            read_community: read_community.map(String::from),
            ..Default::default()
        },
        definition: defs,
        ..Default::default()
    }
}

fn def(location: &str, specifics: &[&str]) -> Definition {
    Definition {
        location: Some(location.into()),
        specific: specifics.iter().map(|s| s.to_string()).collect(),
        ..Default::default()
    }
}

#[test]
fn secret_only_difference_is_unchanged() {
    let a = cfg_with(Some("public"), vec![]);
    let b = cfg_with(Some("ROTATED"), vec![]);
    assert!(unchanged(&a, &b), "secret-only change must not register as a diff");
}

#[test]
fn non_secret_difference_is_changed() {
    let a = cfg_with(Some("public"), vec![def("hq", &["10.0.0.1"])]);
    let b = cfg_with(Some("public"), vec![def("hq", &["10.0.0.2"])]);
    assert!(!unchanged(&a, &b));
}

#[test]
fn definition_and_selector_reorder_is_unchanged() {
    let a = cfg_with(None, vec![def("hq", &["10.0.0.1", "10.0.0.2"]), def("dc", &["10.0.1.1"])]);
    let b = cfg_with(None, vec![def("dc", &["10.0.1.1"]), def("hq", &["10.0.0.2", "10.0.0.1"])]);
    assert!(unchanged(&a, &b), "ordering must not register as a diff");
}

#[test]
fn adding_a_definition_is_changed() {
    let a = cfg_with(None, vec![def("hq", &["10.0.0.1"])]);
    let b = cfg_with(None, vec![def("hq", &["10.0.0.1"]), def("dc", &["10.0.1.1"])]);
    assert!(!unchanged(&a, &b));
}

#[test]
fn server_defaulted_fields_are_unchanged() {
    let desired = SnmpConfig {
        defaults: Configuration { version: Some("v2c".into()), ..Default::default() },
        ..Default::default()
    };
    let deployed = SnmpConfig {
        defaults: Configuration {
            version: Some("v2c".into()),
            port: Some(161),
            retry: Some(1),
            timeout: Some(1800),
            max_repetitions: Some(10),
            ..Default::default()
        },
        ..Default::default()
    };
    assert!(unchanged(&desired, &deployed), "server-defaulted fields the document omits must not trigger a re-upload");
}

#[test]
fn a_param_the_document_sets_must_match() {
    let desired = SnmpConfig {
        defaults: Configuration { version: Some("v2c".into()), port: Some(1161), ..Default::default() },
        ..Default::default()
    };
    let deployed = SnmpConfig {
        defaults: Configuration { version: Some("v2c".into()), port: Some(161), ..Default::default() },
        ..Default::default()
    };
    assert!(!unchanged(&desired, &deployed));
}

fn trapd_user(name: &str, level: Option<i32>, auth: Option<&str>) -> Snmpv3User {
    Snmpv3User {
        security_name: Some(name.into()),
        security_level: level,
        auth_passphrase: auth.map(String::from),
        ..Default::default()
    }
}

#[test]
fn trapd_server_defaulted_fields_are_unchanged() {
    let desired = TrapdConfig { snmp_trap_port: Some(162), new_suspect_on_trap: Some(false), ..Default::default() };
    let deployed = TrapdConfig {
        snmp_trap_port: Some(162),
        new_suspect_on_trap: Some(false),
        threads: Some(0),
        queue_size: Some(10000),
        batch_size: Some(1000),
        ..Default::default()
    };
    assert!(trapd_unchanged(&desired, &deployed));
}

#[test]
fn trapd_changed_required_field_is_changed() {
    let desired = TrapdConfig { snmp_trap_port: Some(1162), new_suspect_on_trap: Some(false), ..Default::default() };
    let deployed = TrapdConfig { snmp_trap_port: Some(162), new_suspect_on_trap: Some(false), ..Default::default() };
    assert!(!trapd_unchanged(&desired, &deployed));
}

#[test]
fn trapd_passphrase_only_difference_is_unchanged() {
    let desired = TrapdConfig {
        snmp_trap_port: Some(162),
        new_suspect_on_trap: Some(true),
        snmpv3_user: vec![trapd_user("monitor", Some(3), Some("OLD"))],
        ..Default::default()
    };
    let deployed = TrapdConfig {
        snmp_trap_port: Some(162),
        new_suspect_on_trap: Some(true),
        snmpv3_user: vec![trapd_user("monitor", Some(3), Some("ROTATED"))],
        ..Default::default()
    };
    assert!(trapd_unchanged(&desired, &deployed));
}

#[test]
fn trapd_user_reorder_is_unchanged_but_add_is_changed() {
    let desired = TrapdConfig {
        snmp_trap_port: Some(162),
        new_suspect_on_trap: Some(true),
        snmpv3_user: vec![trapd_user("a", Some(3), None), trapd_user("b", Some(1), None)],
        ..Default::default()
    };
    let reordered = TrapdConfig {
        snmpv3_user: vec![trapd_user("b", Some(1), None), trapd_user("a", Some(3), None)],
        ..desired.clone()
    };
    assert!(trapd_unchanged(&desired, &reordered), "reorder is not a change");
    let with_extra = TrapdConfig {
        snmpv3_user: vec![
            trapd_user("a", Some(3), None),
            trapd_user("b", Some(1), None),
            trapd_user("c", Some(1), None),
        ],
        ..desired.clone()
    };
    assert!(!trapd_unchanged(&desired, &with_extra), "adding a user is a change");
}

#[test]
fn trapd_user_security_level_change_is_changed() {
    let desired = TrapdConfig {
        snmp_trap_port: Some(162),
        new_suspect_on_trap: Some(true),
        snmpv3_user: vec![trapd_user("monitor", Some(3), None)],
        ..Default::default()
    };
    let deployed = TrapdConfig {
        snmp_trap_port: Some(162),
        new_suspect_on_trap: Some(true),
        snmpv3_user: vec![trapd_user("monitor", Some(1), None)],
        ..Default::default()
    };
    assert!(!trapd_unchanged(&desired, &deployed));
}

#[test]
fn tiers_report_each_tier_separately() {
    let a = cfg_with(None, vec![def("hq", &["10.0.0.1"])]);
    let b = SnmpConfig { defaults: Configuration { version: Some("v1".into()), ..Default::default() }, ..a.clone() };
    assert_eq!(tiers_match(&a, &b), [false, true, true]);
    assert_eq!(tiers_match(&a, &a), [true, true, true]);
}

fn env_ref(name: &str) -> Option<SecretRef> {
    Some(SecretRef::FromEnv(FromEnvRef { from_env: name.to_string() }))
}

fn local() -> SnmpConfigLocal {
    SnmpConfigLocal {
        api_version: "snmp.opennms.org/v1".to_string(),
        kind: "SnmpConfig".to_string(),
        metadata: Metadata { name: "default".to_string() },
        spec: Spec {
            defaults: Some(Params {
                version: Some("v2c".into()),
                retries: Some(2),
                read_community: env_ref("SNMP_RO_TEST"),
                ..Default::default()
            }),
            profiles: vec![ProfileLocal {
                params: Params {
                    security_level: Some(SecurityLevel::AuthPriv),
                    auth_passphrase: env_ref("SNMP_AUTH_TEST"),
                    ..Default::default()
                },
                label: "core-v3".to_string(),
                filter_expression: None,
            }],
            definitions: vec![DefinitionLocal {
                location: Some("hq".into()),
                specifics: vec!["192.168.8.8".into()],
                ..Default::default()
            }],
            trapd: None,
        },
    }
}

#[test]
fn to_wire_maps_names_and_leaves_secrets_none() {
    let w = to_wire(&local());
    assert_eq!(w.defaults.version.as_deref(), Some("v2c"));
    assert_eq!(w.defaults.retry, Some(2));
    assert!(w.defaults.read_community.is_none());
    assert_eq!(w.profiles.profile[0].config.security_level, Some(3));
    assert_eq!(w.profiles.profile[0].label.as_deref(), Some("core-v3"));
    assert_eq!(w.definition[0].location.as_deref(), Some("hq"));
    assert_eq!(w.definition[0].specific, vec!["192.168.8.8"]);
}

#[test]
fn to_wire_resolved_injects_secret_values() {
    let l = local();
    let defaults = ResolvedSecrets { read_community: Some("ro-secret".into()), ..Default::default() };
    let profiles = vec![ResolvedSecrets { auth_passphrase: Some("auth-secret".into()), ..Default::default() }];
    let definitions = vec![ResolvedSecrets::default()];
    let w = to_wire_with_secrets(&l, &defaults, &definitions, &profiles);
    assert_eq!(w.defaults.read_community.as_deref(), Some("ro-secret"));
    assert_eq!(w.profiles.profile[0].config.auth_passphrase.as_deref(), Some("auth-secret"));
    assert!(w.definition[0].config.read_community.is_none());
}

#[test]
fn from_wire_emits_secret_placeholders_not_cleartext() {
    let wire = SnmpConfig {
        defaults: Configuration {
            version: Some("v2c".into()),
            retry: Some(1),
            read_community: Some("public-cleartext".into()),
            ..Default::default()
        },
        ..Default::default()
    };
    let local = from_wire(&wire);
    let text = format!("{local:?}");
    assert!(!text.contains("public-cleartext"));
    let p = local.spec.defaults.as_ref().unwrap();
    assert_eq!(p.version.as_deref(), Some("v2c"));
    assert_eq!(p.retries, Some(1));
    assert!(matches!(&p.read_community, Some(SecretRef::FromEnv(_))));
}

#[test]
fn from_wire_gives_each_tier_a_distinct_placeholder() {
    let wire = SnmpConfig {
        defaults: Configuration { read_community: Some("default-ro".into()), ..Default::default() },
        definition: vec![Definition {
            config: Configuration { read_community: Some("def-ro".into()), ..Default::default() },
            location: Some("nyc-dc".into()),
            specific: vec!["10.0.0.1".into()],
            ..Default::default()
        }],
        ..Default::default()
    };
    let local = from_wire(&wire);
    let env_of = |r: &Option<SecretRef>| match r {
        Some(SecretRef::FromEnv(e)) => e.from_env.clone(),
        _ => panic!("expected a fromEnv placeholder"),
    };
    let defaults_env = env_of(&local.spec.defaults.as_ref().unwrap().read_community);
    let def_env = env_of(&local.spec.definitions[0].params.read_community);
    assert_eq!(defaults_env, "SNMP_READ_COMMUNITY_DEFAULTS");
    assert_eq!(def_env, "SNMP_READ_COMMUNITY_DEF_0_NYC_DC");
    assert_ne!(defaults_env, def_env, "distinct tiers must export distinct placeholders");
}

fn trapd_local() -> Trapd {
    Trapd {
        snmp_trap_port: Some(162),
        new_suspect_on_trap: Some(false),
        threads: Some(4),
        snmpv3_users: vec![TrapdV3User {
            security_name: "monitor".to_string(),
            security_level: Some(SecurityLevel::AuthPriv),
            auth_protocol: Some("SHA".into()),
            auth_passphrase: env_ref("TRAPD_AUTH_TEST"),
            privacy_protocol: Some("AES".into()),
            privacy_passphrase: env_ref("TRAPD_PRIV_TEST"),
            ..Default::default()
        }],
        ..Default::default()
    }
}

#[test]
fn trapd_to_wire_maps_and_leaves_secrets_none() {
    let w = trapd_to_wire(&trapd_local());
    assert_eq!(w.snmp_trap_port, Some(162));
    assert_eq!(w.new_suspect_on_trap, Some(false));
    assert_eq!(w.threads, Some(4));
    assert_eq!(w.snmpv3_user.len(), 1);
    let u = &w.snmpv3_user[0];
    assert_eq!(u.security_name.as_deref(), Some("monitor"));
    assert_eq!(u.security_level, Some(3));
    assert!(u.auth_passphrase.is_none(), "secret not resolved by to_wire");
    assert!(u.privacy_passphrase.is_none());
}

#[test]
fn trapd_to_wire_resolved_injects_passphrases() {
    let users = vec![(Some("auth-secret".to_string()), Some("priv-secret".to_string()))];
    let w = trapd_to_wire_with_secrets(&trapd_local(), &users);
    let u = &w.snmpv3_user[0];
    assert_eq!(u.auth_passphrase.as_deref(), Some("auth-secret"));
    assert_eq!(u.privacy_passphrase.as_deref(), Some("priv-secret"));
}

#[test]
fn trapd_from_wire_emits_per_user_placeholders_not_cleartext() {
    let wire = TrapdConfig {
        snmp_trap_port: Some(162),
        new_suspect_on_trap: Some(true),
        snmpv3_user: vec![Snmpv3User {
            security_name: Some("monitor".into()),
            security_level: Some(3),
            auth_passphrase: Some("auth-cleartext".into()),
            privacy_passphrase: Some("priv-cleartext".into()),
            ..Default::default()
        }],
        ..Default::default()
    };
    let t = trapd_from_wire(&wire);
    let text = format!("{t:?}");
    assert!(!text.contains("auth-cleartext"));
    assert!(!text.contains("priv-cleartext"));
    let u = &t.snmpv3_users[0];
    assert_eq!(u.security_level, Some(SecurityLevel::AuthPriv));
    let auth_env = match &u.auth_passphrase {
        Some(SecretRef::FromEnv(e)) => e.from_env.clone(),
        _ => panic!("expected a fromEnv placeholder"),
    };
    assert_eq!(auth_env, "SNMP_AUTH_PASSPHRASE_TRAPD_MONITOR");
}

#[test]
fn export_does_not_depend_on_secret_values() {
    let a = cfg_with(Some("public"), vec![def("hq", &["10.0.0.1"])]);
    let b = cfg_with(Some("other-secret"), vec![def("hq", &["10.0.0.1"])]);
    assert_eq!(from_wire(&a), from_wire(&b));
    let c = cfg_with(None, vec![def("hq", &["10.0.0.1"])]);
    assert_ne!(from_wire(&a), from_wire(&c));
}

#[test]
fn exported_config_reapplies_unchanged() {
    let mut w = cfg_with(Some("public"), vec![def("hq", &["10.0.0.1"]), def("lab", &["10.0.0.2"])]);
    w.defaults.security_level = Some(3);
    w.defaults.encrypted = Some(true);
    let back = to_wire(&from_wire(&w));
    assert!(back.defaults.read_community.is_none());
    assert_eq!(back.defaults.security_level, Some(3));
    assert!(unchanged(&back, &w));
}

#[test]
fn exported_trapd_reapplies_unchanged() {
    let t = TrapdConfig {
        snmp_trap_port: Some(162),
        snmpv3_user: vec![trapd_user("monitor", Some(3), Some("secret"))],
        ..Default::default()
    };
    let back = trapd_to_wire(&trapd_from_wire(&t));
    assert!(back.snmpv3_user[0].auth_passphrase.is_none());
    assert!(trapd_unchanged(&back, &t));
}
