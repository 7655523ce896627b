use tiny_update_check::CheckStart;
use tiny_update_check::UpdateChecker;

#[test]
fn test_checker_configuration() {
    let checker = UpdateChecker::new("serde", "1.0.0").cache_duration(3600).timeout(10);
    assert!(checker.cache_duration_secs == 3600 && checker.timeout_secs == 10);
}

#[test]
fn check_starts_at_the_cache_when_enabled() {
    let checker = UpdateChecker::new("serde", "1.0.0")
        .cache_dir(Some("/var/cache".to_string()))
        .cache_duration(3600);
    match checker.check_start().unwrap() {
        CheckStart::ReadCache { path } => assert_eq!(path, "/var/cache/serde-update-check"),
        CheckStart::Fetch => panic!("an enabled cache is read first"),
    }
}

#[test]
fn zero_cache_duration_always_fetches() {
    // Even with a cache directory set (and so a fresh-looking file possible),
    // a zero duration skips the read path entirely.
    let checker = UpdateChecker::new("serde", "1.0.0")
        .cache_dir(Some("/var/cache".to_string()))
        .cache_duration(0);
    assert!(matches!(checker.check_start().unwrap(), CheckStart::Fetch));
}

#[test]
fn missing_cache_dir_always_fetches() {
    let checker = UpdateChecker::new("serde", "1.0.0").cache_dir(None).cache_duration(3600);
    assert!(matches!(checker.check_start().unwrap(), CheckStart::Fetch));
}

#[test]
fn fetch_failure_becomes_an_http_error() {
    let checker = UpdateChecker::new("serde", "1.0.0");
    let err = checker.resolve_fetched(Err("connection failed".to_string())).unwrap_err();
    assert_eq!(err.message(), "HTTP error: connection failed");
}

#[test]
fn fetched_body_resolves_to_the_newest_version() {
    let checker = UpdateChecker::new("serde", "1.0.0");
    let body = r#"{"crate":{"newest_version":"1.0.228"}}"#.to_string();
    assert_eq!(checker.resolve_fetched(Ok(body)).unwrap(), "1.0.228");
}

#[test]
fn fetched_garbage_resolves_to_a_parse_error() {
    let checker = UpdateChecker::new("serde", "1.0.0");
    let err = checker.resolve_fetched(Ok("<html>down</html>".to_string())).unwrap_err();
    assert!(err.message().contains("crate"));
}

#[test]
fn full_check_sequence_over_a_fetched_body() {
    // The whole decision chain as a caller would run it, with the one I/O
    // result handed in: start, fetch, resolve, evaluate.
    let checker = UpdateChecker::new("serde", "1.0.0").cache_dir(None);
    assert!(matches!(checker.check_start().unwrap(), CheckStart::Fetch));
    let body = r#"{"crate":{"newest_version":"1.0.228"}}"#.to_string();
    let latest = checker.resolve_fetched(Ok(body)).unwrap();
    let update = checker.evaluate(&latest).unwrap().unwrap();
    assert_eq!(update.current, "1.0.0");
    assert_eq!(update.latest, "1.0.228");
}
