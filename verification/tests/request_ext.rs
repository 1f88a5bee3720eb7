use std::collections::HashMap;

use gear_microkit::metadata::RequestMetadata;
use gear_microkit::request_ext::{BrokerType, RequestExt};

fn metadata(entries: &[(&str, &str)]) -> RequestMetadata {
    let mut m = RequestMetadata::new();
    for (k, v) in entries {
        m.append(k, v);
    }
    m
}

#[test]
fn string_entries_are_read_by_name() {
    let m = metadata(&[
        ("app-id", "app"),
        ("x-platform", "ios"),
        ("accept-language", "en"),
        ("x-prefer-language", "zh-CN"),
        ("x-cluster", "hk"),
        ("x-from-cluster", "sg"),
        ("ip-region", "HK"),
        ("user-region", "SG"),
        ("x-user-agent", "agent/1.0"),
        ("x-application-version", "1.2.3"),
        ("x-application-build", "456"),
        ("x-bundle-id", "com.example"),
        ("x-device-id", "dev-1"),
        ("x-device-name", "phone"),
        ("x-device-model", "model-x"),
        ("x-email", "a@b.c"),
        ("account-channel", "lb"),
        ("x-real-ip", "10.0.0.1"),
    ]);
    assert_eq!(m.app_id(), Some("app"));
    assert_eq!(m.platform(), Some("ios"));
    assert_eq!(m.accept_language(), Some("en"));
    assert_eq!(m.prefer_language(), Some("zh-CN"));
    assert_eq!(m.cluster(), Some("hk"));
    assert_eq!(m.from_cluster(), Some("sg"));
    assert_eq!(m.ip_region(), Some("HK"));
    assert_eq!(m.user_region(), Some("SG"));
    assert_eq!(m.user_agent(), Some("agent/1.0"));
    assert_eq!(m.application_version(), Some("1.2.3"));
    assert_eq!(m.application_build(), Some("456"));
    assert_eq!(m.bundle_id(), Some("com.example"));
    assert_eq!(m.device_id(), Some("dev-1"));
    assert_eq!(m.device_name(), Some("phone"));
    assert_eq!(m.device_model(), Some("model-x"));
    assert_eq!(m.email(), Some("a@b.c"));
    assert_eq!(m.account_channel(), Some("lb"));
    assert_eq!(m.real_ip(), Some("10.0.0.1"));
}

#[test]
fn missing_entries_are_none() {
    let m = RequestMetadata::new();
    assert_eq!(m.app_id(), None);
    assert_eq!(m.real_ip(), None);
    assert_eq!(m.member_id(), None);
    assert_eq!(m.base_level(), None);
    assert_eq!(m.op_member_id(), None);
    assert_eq!(m.broker_type(), None);
    assert!(m.features().is_empty());
    assert!(m.market_levels().is_empty());
}

#[test]
fn first_entry_of_a_name_wins() {
    let m = metadata(&[("app-id", "first"), ("app-id", "second")]);
    assert_eq!(m.app_id(), Some("first"));
    assert_eq!(m.get("app-id"), Some("first"));
    assert_eq!(m.get("App-Id"), None);
}

#[test]
fn u64_entries_are_parsed() {
    let m = metadata(&[
        ("member-id", "42"),
        ("admin-id", "+7"),
        ("org-id", "18446744073709551615"),
        ("x-target-org-id", "18446744073709551616"),
        ("target-aaid", "-1"),
    ]);
    assert_eq!(m.member_id(), Some(42));
    assert_eq!(m.admin_id(), Some(7));
    assert_eq!(m.organization_id(), Some(u64::MAX));
    assert_eq!(m.target_organization_id(), None);
    assert_eq!(m.target_aaid(), None);
}

#[test]
fn u64_entries_reject_non_digits() {
    for bad in ["", "+", "4 2", " 42", "42 ", "0x10", "4_2", "abc", "٣"] {
        let m = metadata(&[("member-id", bad)]);
        assert_eq!(m.member_id(), None, "{bad:?}");
    }
    let m = metadata(&[("member-id", "0007")]);
    assert_eq!(m.member_id(), Some(7));
}

#[test]
fn base_level_is_an_i32() {
    assert_eq!(metadata(&[("base-level", "-12")]).base_level(), Some(-12));
    assert_eq!(metadata(&[("base-level", "+3")]).base_level(), Some(3));
    assert_eq!(metadata(&[("base-level", "2147483647")]).base_level(), Some(i32::MAX));
    assert_eq!(metadata(&[("base-level", "2147483648")]).base_level(), None);
    assert_eq!(metadata(&[("base-level", "-2147483648")]).base_level(), Some(i32::MIN));
    assert_eq!(metadata(&[("base-level", "-2147483649")]).base_level(), None);
    assert_eq!(metadata(&[("base-level", "-")]).base_level(), None);
}

#[test]
fn op_member_id_falls_back_to_member_id() {
    assert_eq!(metadata(&[("op-member-id", "5"), ("member-id", "9")]).op_member_id(), Some(5));
    assert_eq!(metadata(&[("member-id", "9")]).op_member_id(), Some(9));
    assert_eq!(metadata(&[("op-member-id", "x"), ("member-id", "9")]).op_member_id(), Some(9));
    assert_eq!(metadata(&[("op-member-id", "x")]).op_member_id(), None);
}

#[test]
fn broker_type_maps_numbers() {
    let bt = |v: &str| metadata(&[("broker-type", v)]).broker_type();
    assert_eq!(bt("0"), Some(BrokerType::Unknown));
    assert_eq!(bt("1"), Some(BrokerType::Trader));
    assert_eq!(bt("2"), Some(BrokerType::Broker));
    assert_eq!(bt("3"), Some(BrokerType::Unknown));
    assert_eq!(bt("-1"), Some(BrokerType::Unknown));
    assert_eq!(bt("-9223372036854775808"), Some(BrokerType::Unknown));
    assert_eq!(bt("9223372036854775808"), None);
    assert_eq!(bt("trader"), None);
}

#[test]
fn broker_type_number_roundtrip() {
    for b in [BrokerType::Unknown, BrokerType::Trader, BrokerType::Broker] {
        assert_eq!(BrokerType::from(b as i64), b);
    }
    assert_eq!(BrokerType::Trader as i64, 1);
    assert_eq!(BrokerType::Broker as i64, 2);
}

#[test]
fn features_are_split_at_commas() {
    let m = metadata(&[("x-features", "a,b,,c")]);
    assert_eq!(m.features(), vec!["a", "b", "", "c"]);
    assert_eq!(m.features().join(","), "a,b,,c");
    let m = metadata(&[("x-features", "")]);
    assert_eq!(m.features(), vec![""]);
    let m = metadata(&[("x-features", "one")]);
    assert_eq!(m.features(), vec!["one"]);
}

#[test]
fn market_levels_are_always_empty() {
    let expected: HashMap<&str, Vec<&str>> = HashMap::new();
    for value in ["us;1,2;hk;3", "us;1", ";", "", "a;b;c"] {
        let m = metadata(&[("market-levels", value)]);
        assert_eq!(m.market_levels(), expected);
    }
}
