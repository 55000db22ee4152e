use onmsctl::json::Value;
use onmsctl::provisioning::apply::{ApplyOutcome, ApplyState, ForeignSourceAction, RescanChoice};
use onmsctl::provisioning::cmd::{
    asset_field, coerce_value_to_field_type, db_id, explain_rescan_text,
    format_delete_confirmation_prompt, format_field_for_table, ip_addr, is_delete_confirmation,
    is_safe_filename, nonempty_fs, nonempty_string, rescan_flag, FloatText, RescanFlag,
};
use onmsctl::provisioning::diff::RequisitionDelta;

fn float_text(raw: &str) -> FloatText {
    match raw.parse::<f64>() {
        Ok(f) if f.is_finite() => FloatText::Finite(format!("{f}")),
        Ok(_) => FloatText::NonFinite,
        Err(_) => FloatText::Invalid,
    }
}

fn num(s: &str) -> Value {
    Value::Number(s.to_string())
}

#[test]
fn db_id_accepts_positive_integers_up_to_i32_max() {
    assert_eq!(db_id("1").unwrap(), 1);
    assert_eq!(db_id("42").unwrap(), 42);
    assert_eq!(db_id("999999").unwrap(), 999999);
    assert_eq!(db_id(&i32::MAX.to_string()).unwrap(), i32::MAX as i64);
}

#[test]
fn db_id_rejects_zero_negative_non_integer_and_overflow() {
    assert!(db_id("0").is_err());
    assert!(db_id("-1").is_err());
    assert!(db_id("abc").is_err());
    assert!(db_id("42.5").is_err());
    assert!(db_id("").is_err());
    assert!(db_id(" 42 ").is_err());
    assert!(db_id("2147483648").is_err());
    assert!(db_id("9999999999").is_err());
}

#[test]
fn db_id_error_messages() {
    assert_eq!(db_id("abc").unwrap_err(), "db-id must be a positive integer; got \"abc\"");
    assert_eq!(db_id("-7").unwrap_err(), "db-id must be positive; got -7");
    assert_eq!(
        db_id("2147483648").unwrap_err(),
        "db-id must not exceed i32::MAX (2147483647); Horizon stores node ID as a 32-bit integer. Got 2147483648"
    );
    assert_eq!(db_id("+5").unwrap(), 5);
    assert!(db_id("99999999999999999999").is_err());
}

#[test]
fn asset_field_accepts_identifier_shape() {
    assert_eq!(asset_field("city").unwrap(), "city");
    assert_eq!(asset_field("serialNumber").unwrap(), "serialNumber");
    assert_eq!(asset_field("vendorAssetNumber").unwrap(), "vendorAssetNumber");
    assert_eq!(asset_field("rack").unwrap(), "rack");
    assert_eq!(asset_field("vendor_phone").unwrap(), "vendor_phone");
    assert_eq!(asset_field("_private").unwrap(), "_private");
    assert_eq!(asset_field("field_v2").unwrap(), "field_v2");
}

#[test]
fn asset_field_rejects_specials_and_traversal() {
    assert!(asset_field("").is_err());
    assert!(asset_field("city.foo").is_err());
    assert!(asset_field("city-foo").is_err());
    assert!(asset_field("../etc").is_err());
    assert!(asset_field("city space").is_err());
    assert!(asset_field("city;rm").is_err());
    assert!(asset_field("city\x00").is_err());
    assert!(asset_field("1city").is_err());
}

#[test]
fn coerce_numeric_field_accepts_integer_value() {
    let current = num("7");
    let got = coerce_value_to_field_type(Some(&current), "42", float_text("42")).unwrap();
    assert_eq!(got, num("42"));
}

#[test]
fn coerce_numeric_field_accepts_float_value() {
    let current = num("42.5");
    let got = coerce_value_to_field_type(Some(&current), "40.7128", float_text("40.7128")).unwrap();
    match got {
        Value::Number(t) => assert_eq!(t.parse::<f64>().unwrap(), 40.7128),
        other => panic!("expected a number, got {other:?}"),
    }
}

#[test]
fn coerce_numeric_field_empty_string_clears_to_null() {
    let current = num("7");
    let got = coerce_value_to_field_type(Some(&current), "", float_text("")).unwrap();
    assert_eq!(got, Value::Null);
}

#[test]
fn coerce_numeric_field_rejects_non_numeric() {
    let current = num("7");
    assert!(coerce_value_to_field_type(Some(&current), "abc", float_text("abc")).is_err());
    let e = coerce_value_to_field_type(Some(&current), "inf", float_text("inf")).unwrap_err();
    assert_eq!(e, "field is numeric on the server but value \"inf\" is not a finite number");
}

#[test]
fn coerce_bool_field_accepts_true_false_case_insensitive() {
    let current = Value::Bool(true);
    assert_eq!(
        coerce_value_to_field_type(Some(&current), "true", float_text("true")).unwrap(),
        Value::Bool(true)
    );
    assert_eq!(
        coerce_value_to_field_type(Some(&current), "FALSE", float_text("FALSE")).unwrap(),
        Value::Bool(false)
    );
}

#[test]
fn coerce_bool_field_rejects_garbage() {
    let current = Value::Bool(false);
    assert!(coerce_value_to_field_type(Some(&current), "maybe", float_text("maybe")).is_err());
}

#[test]
fn coerce_string_field_keeps_string_type() {
    let current = Value::Str("NYC".to_string());
    let got = coerce_value_to_field_type(Some(&current), "Brooklyn", float_text("Brooklyn")).unwrap();
    assert_eq!(got, Value::Str("Brooklyn".into()));
}

#[test]
fn coerce_string_field_empty_stays_empty_string() {
    let current = Value::Str("NYC".to_string());
    let got = coerce_value_to_field_type(Some(&current), "", float_text("")).unwrap();
    assert_eq!(got, Value::Str(String::new()));
}

#[test]
fn coerce_absent_field_defaults_to_string() {
    let got = coerce_value_to_field_type(None, "42", float_text("42")).unwrap();
    assert_eq!(got, Value::Str("42".into()));
}

#[test]
fn format_table_skips_null_and_empty() {
    assert_eq!(format_field_for_table(&Value::Null), None);
    assert_eq!(format_field_for_table(&Value::Str(String::new())), None);
}

#[test]
fn format_table_renders_scalars_naturally() {
    assert_eq!(format_field_for_table(&Value::Str("NYC".into())), Some("NYC".into()));
    assert_eq!(format_field_for_table(&num("7")), Some("7".into()));
    assert_eq!(format_field_for_table(&num("42.5")), Some("42.5".into()));
    assert_eq!(format_field_for_table(&Value::Bool(true)), Some("true".into()));
}

#[test]
fn format_table_marks_structured_values_with_json_prefix() {
    let array = format_field_for_table(&Value::Array(vec![
        Value::Str("a".into()),
        Value::Str("b".into()),
    ]));
    assert_eq!(array.as_deref(), Some(r#"(json) ["a","b"]"#));
    let object = format_field_for_table(&Value::Object(vec![("k".to_string(), Value::Str("v".into()))]));
    assert_eq!(object.as_deref(), Some(r#"(json) {"k":"v"}"#));
}

#[test]
fn ip_addr_accepts_ipv4_and_ipv6() {
    assert_eq!(ip_addr("10.0.0.1").unwrap(), "10.0.0.1");
    assert_eq!(ip_addr("2001:db8::1").unwrap(), "2001:db8::1");
}

#[test]
fn ip_addr_rejects_garbage() {
    assert!(ip_addr("not-an-ip").is_err());
    assert!(ip_addr("10.0.0.1.2").is_err());
    assert!(ip_addr(" 10.0.0.1 ").is_err());
    assert_eq!(
        ip_addr("x").unwrap_err(),
        "invalid IP address \"x\" (expected IPv4 or IPv6 literal)"
    );
}

#[test]
fn ip_addr_canonicalizes_ipv6() {
    assert_eq!(ip_addr("2001:0db8:0000:0000:0000:0000:0000:0001").unwrap(), "2001:db8::1");
    assert_eq!(ip_addr("::ffff:10.0.0.1").unwrap(), "::ffff:10.0.0.1");
}

#[test]
fn nonempty_string_rejects_whitespace_only() {
    assert!(nonempty_string("").is_err());
    assert!(nonempty_string("   ").is_err());
    assert_eq!(nonempty_string("foo").unwrap(), "foo");
}

#[test]
fn nonempty_fs_keeps_untrimmed_input() {
    assert_eq!(nonempty_fs(" acme ").unwrap(), " acme ");
    assert_eq!(
        nonempty_fs("\t\n").unwrap_err(),
        "foreign-source name must not be empty or whitespace-only"
    );
    assert!(nonempty_fs("\u{3000}").is_err());
}

#[test]
fn safe_filenames() {
    assert!(is_safe_filename("acme-prod_1.v2"));
    assert!(!is_safe_filename(""));
    assert!(!is_safe_filename(".hidden"));
    assert!(!is_safe_filename("../etc/passwd"));
    assert!(!is_safe_filename("a/b"));
    assert!(!is_safe_filename("caf\u{e9}"));
}

#[test]
fn delete_prompt_includes_fs_node_count_and_last_import_as_iso8601() {
    let s = format_delete_confirmation_prompt("acme-prod", 42, Some(1_700_000_000_000));
    assert!(s.contains("Requisition/acme-prod"));
    assert!(s.contains("42 node(s)"));
    assert!(s.contains("2023-11-14T22:13:20Z"), "prompt was: {s}");
    assert!(!s.contains("epoch-ms"));
    assert!(s.contains("Type 'yes' or 'y' to confirm"));
}

#[test]
fn delete_prompt_handles_never_imported_requisition() {
    let s = format_delete_confirmation_prompt("acme-prod", 0, None);
    assert!(s.contains("0 node(s)"));
    assert!(s.contains("never imported"));
    assert!(!s.contains("epoch-ms"));
}

#[test]
fn delete_prompt_treats_non_positive_epoch_ms_as_never_imported() {
    let s = format_delete_confirmation_prompt("acme-prod", 0, Some(0));
    assert!(s.contains("never imported"));
    let s = format_delete_confirmation_prompt("acme-prod", 0, Some(-1));
    assert!(s.contains("never imported"));
}

#[test]
fn delete_prompt_warns_about_dual_snapshot_purge() {
    let s = format_delete_confirmation_prompt("acme-prod", 1, None);
    assert!(s.contains("BOTH pending and deployed"));
    assert!(s.contains("cannot be undone"));
}

#[test]
fn is_delete_confirmation_accepts_yes_and_y_case_insensitive() {
    assert!(is_delete_confirmation("yes"));
    assert!(is_delete_confirmation("YES"));
    assert!(is_delete_confirmation("Yes"));
    assert!(is_delete_confirmation("y"));
    assert!(is_delete_confirmation("Y"));
    assert!(is_delete_confirmation("yes\n"));
    assert!(is_delete_confirmation("  yes  \n"));
}

#[test]
fn is_delete_confirmation_rejects_anything_else() {
    assert!(!is_delete_confirmation(""));
    assert!(!is_delete_confirmation("\n"));
    assert!(!is_delete_confirmation("no"));
    assert!(!is_delete_confirmation("yeah"));
    assert!(!is_delete_confirmation("ya"));
    assert!(!is_delete_confirmation("yes please"));
    assert!(!is_delete_confirmation("0"));
}

#[test]
fn rescan_flag_accepts_canonical_values_case_insensitive() {
    assert_eq!(rescan_flag("true").unwrap(), RescanFlag::Force(true));
    assert_eq!(rescan_flag("TRUE").unwrap(), RescanFlag::Force(true));
    assert_eq!(rescan_flag("false").unwrap(), RescanFlag::Force(false));
    assert_eq!(rescan_flag("FALSE").unwrap(), RescanFlag::Force(false));
    assert_eq!(rescan_flag("auto").unwrap(), RescanFlag::Auto);
    assert_eq!(rescan_flag("Auto").unwrap(), RescanFlag::Auto);
}

#[test]
fn rescan_flag_rejects_unknown_values() {
    assert!(rescan_flag("maybe").is_err());
    assert!(rescan_flag("").is_err());
    assert!(rescan_flag("1").is_err());
    assert_eq!(
        rescan_flag("MAYBE").unwrap_err(),
        "rescan-existing must be one of 'true', 'false', or 'auto' (got \"maybe\")"
    );
}

#[test]
fn rescan_flag_converts_to_rescan_choice() {
    assert_eq!(RescanChoice::from(RescanFlag::Auto), RescanChoice::Auto);
    assert_eq!(RescanChoice::from(RescanFlag::Force(true)), RescanChoice::Force(true));
    assert_eq!(RescanChoice::from(RescanFlag::Force(false)), RescanChoice::Force(false));
}

fn empty_delta() -> RequisitionDelta {
    RequisitionDelta {
        foreign_source_changes: vec![],
        nodes_added: vec![],
        nodes_removed: vec![],
        nodes_modified: vec![],
    }
}

fn outcome_with(rescan_existing: bool, leaves: Vec<&str>) -> ApplyOutcome {
    ApplyOutcome {
        state: ApplyState::DryRun,
        delta: empty_delta(),
        rescan_existing,
        foreign_source_action: ForeignSourceAction::NoChange,
        original_remote_fs: None,
        pre_trigger_last_import_ms: None,
        scan_relevant_leaves: leaves.into_iter().map(String::from).collect(),
    }
}

#[test]
fn explain_rescan_empty_leaves_reports_no_relevant_paths() {
    let outcome = outcome_with(false, vec![]);
    let s = explain_rescan_text(&outcome);
    assert!(s.contains("no scan-relevant leaves"));
    assert!(s.contains("Effective rescanExisting=false"));
}

#[test]
fn explain_rescan_auto_with_leaves_drives_true() {
    let outcome = outcome_with(true, vec!["spec.nodes[0].interfaces[0].services"]);
    let s = explain_rescan_text(&outcome);
    assert!(s.contains("drive rescanExisting=true"));
    assert!(!s.contains("would have driven"));
    assert!(s.contains("spec.nodes[0].interfaces[0].services"));
    assert!(s.contains("Effective rescanExisting=true"));
}

#[test]
fn explain_rescan_override_distinguishes_would_have_from_effective() {
    let outcome = outcome_with(false, vec!["spec.nodes[0].interfaces[0].services"]);
    let s = explain_rescan_text(&outcome);
    assert!(s.contains("would have driven"));
    assert!(s.contains("overridden by --rescan-existing"));
    assert!(s.contains("Effective rescanExisting=false"));
}

#[test]
fn explain_rescan_exact_text_with_two_leaves() {
    let outcome = outcome_with(true, vec!["a", "b"]);
    assert_eq!(
        explain_rescan_text(&outcome),
        "explain-rescan: 2 scan-relevant leaf path(s) drive rescanExisting=true per design §D3:\n  - a\n  - b\nEffective rescanExisting=true\n"
    );
}
