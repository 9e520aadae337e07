use tether::flags::FeatureFlags;

#[test]
fn listed_features_are_disabled_case_insensitively() {
    let flags = FeatureFlags::from_list(" Events, ,TRACES ,rate-limiting");
    assert!(!flags.is_enabled("events"));
    assert!(!flags.is_enabled("EVENTS"));
    assert!(!flags.is_enabled("Traces"));
    assert!(!flags.is_enabled("rate-limiting"));
    assert!(flags.is_enabled("auth"));
    assert!(flags.is_enabled("idempotency"));
}

#[test]
fn empty_setting_enables_everything() {
    let flags = FeatureFlags::from_list("");
    assert!(flags.is_enabled("events"));
    assert!(flags.is_enabled("rbac"));
    let flags = FeatureFlags::from_list(" , ,");
    assert!(flags.is_enabled("events"));
}

#[test]
fn repeated_entries_are_harmless() {
    let flags = FeatureFlags::from_list("rbac,RBAC,rbac");
    assert!(!flags.is_enabled("rbac"));
    assert!(flags.is_enabled("rba"));
}
