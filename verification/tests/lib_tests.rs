use tiny_update_check::Error;
use tiny_update_check::UpdateChecker;
use tiny_update_check::UpdateInfo;

#[test]
fn test_update_info_display() {
    let info = UpdateInfo { current: "1.0.0".to_string(), latest: "2.0.0".to_string() };
    assert_eq!(info.current, "1.0.0");
    assert_eq!(info.latest, "2.0.0");
}

#[test]
fn test_checker_builder() {
    let checker = UpdateChecker::new("test-crate", "1.0.0").cache_duration(3600).timeout(10);

    assert_eq!(checker.crate_name, "test-crate");
    assert_eq!(checker.current_version, "1.0.0");
    assert_eq!(checker.cache_duration_secs, 3600);
    assert_eq!(checker.timeout_secs, 10);
}

#[test]
fn test_cache_disabled() {
    let checker = UpdateChecker::new("test-crate", "1.0.0").cache_duration(0).cache_dir(None);

    assert_eq!(checker.cache_duration_secs, 0);
    assert!(checker.cache_dir.is_none());
}

#[test]
fn test_error_display() {
    let err = Error::HttpError("connection failed".to_string());
    assert_eq!(err.message(), "HTTP error: connection failed");

    let err = Error::ParseError("invalid json".to_string());
    assert_eq!(err.message(), "Parse error: invalid json");
}

#[test]
fn error_messages_name_every_kind() {
    assert_eq!(
        Error::VersionError("invalid current version".to_string()).message(),
        "Version error: invalid current version"
    );
    assert_eq!(Error::CacheError("stat failed".to_string()).message(), "Cache error: stat failed");
    assert_eq!(
        Error::InvalidCrateName("crate name cannot be empty".to_string()).message(),
        "Invalid crate name: crate name cannot be empty"
    );
}

#[test]
fn new_checker_has_documented_defaults() {
    let checker = UpdateChecker::new("serde", "1.0.0");
    assert_eq!(checker.crate_name, "serde");
    assert_eq!(checker.current_version, "1.0.0");
    assert_eq!(checker.cache_duration_secs, 24 * 60 * 60);
    assert_eq!(checker.timeout_secs, 5);
    assert!(!checker.include_prerelease);
}

#[test]
fn registry_url_names_the_crate() {
    let checker = UpdateChecker::new("my-cool-crate", "1.0.0");
    assert_eq!(checker.registry_url(), "https://crates.io/api/v1/crates/my-cool-crate");
}

#[test]
fn cache_path_joins_dir_name_and_suffix() {
    let checker =
        UpdateChecker::new("serde", "1.0.0").cache_dir(Some("/tmp/cache-dir".to_string()));
    assert_eq!(checker.cache_path().unwrap(), "/tmp/cache-dir/serde-update-check");

    let no_dir = UpdateChecker::new("serde", "1.0.0").cache_dir(None);
    assert!(no_dir.cache_path().is_none());
}
