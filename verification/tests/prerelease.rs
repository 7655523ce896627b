use tiny_update_check::UpdateChecker;

#[test]
fn builder_has_include_prerelease_method() {
    let _checker = UpdateChecker::new("test", "1.0.0").include_prerelease(true);
}

#[test]
fn builder_has_include_prerelease_false() {
    let _checker = UpdateChecker::new("test", "1.0.0").include_prerelease(false);
}

#[test]
fn include_prerelease_defaults_to_false() {
    let checker = UpdateChecker::new("serde", "1.0.0");
    assert!(!checker.include_prerelease);
}

#[test]
fn include_prerelease_can_be_enabled() {
    let checker = UpdateChecker::new("serde", "1.0.0").include_prerelease(true);
    assert!(checker.include_prerelease);
}

#[test]
fn include_prerelease_can_be_chained_with_other_options() {
    let checker = UpdateChecker::new("serde", "1.0.0")
        .cache_duration(3600)
        .timeout(10)
        .include_prerelease(true);
    assert!(checker.include_prerelease);
}

#[test]
fn prerelease_latest_is_no_update_by_default() {
    let checker = UpdateChecker::new("serde", "1.0.0");
    let r = checker.evaluate("2.0.0-beta").unwrap();
    assert!(r.is_none());
}

#[test]
fn prerelease_latest_counts_when_opted_in() {
    let checker = UpdateChecker::new("serde", "1.0.0").include_prerelease(true);
    let update = checker.evaluate("2.0.0-beta").unwrap().unwrap();
    assert_eq!(update.current, "1.0.0");
    assert_eq!(update.latest, "2.0.0-beta");
}
