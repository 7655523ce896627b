use tiny_update_check::version::is_update_available;
use tiny_update_check::Error;

#[test]
fn newer_latest_is_an_update() {
    let update = is_update_available("1.0.0", "2.0.0", false).unwrap().unwrap();
    assert_eq!(update.current, "1.0.0");
    assert_eq!(update.latest, "2.0.0");
}

#[test]
fn older_latest_is_no_update() {
    assert!(is_update_available("2.0.0", "1.0.0", false).unwrap().is_none());
}

#[test]
fn equal_versions_are_no_update() {
    assert!(is_update_available("1.0.0", "1.0.0", false).unwrap().is_none());
}

#[test]
fn prerelease_latest_excluded_by_default() {
    assert!(is_update_available("1.0.0", "2.0.0-beta", false).unwrap().is_none());
}

#[test]
fn prerelease_latest_included_on_request() {
    let update = is_update_available("1.0.0", "2.0.0-beta", true).unwrap().unwrap();
    assert_eq!(update.current, "1.0.0");
    assert_eq!(update.latest, "2.0.0-beta");
}

#[test]
fn minor_and_patch_compare_numerically() {
    assert!(is_update_available("1.9.0", "1.10.0", false).unwrap().is_some());
    assert!(is_update_available("1.0.9", "1.0.10", false).unwrap().is_some());
    assert!(is_update_available("1.10.0", "1.9.9", false).unwrap().is_none());
}

#[test]
fn prerelease_precedes_its_release() {
    // A version with a pre-release tag comes before the same triple without.
    assert!(is_update_available("1.0.0-rc.1", "1.0.0", false).unwrap().is_some());
    assert!(is_update_available("1.0.0", "1.0.0-rc.1", true).unwrap().is_none());
}

#[test]
fn prerelease_identifiers_order_as_the_standard_says() {
    // 1.0.0-alpha < 1.0.0-alpha.1 < 1.0.0-alpha.beta < 1.0.0-beta
    //   < 1.0.0-beta.2 < 1.0.0-beta.11 < 1.0.0-rc.1 < 1.0.0
    let chain = [
        "1.0.0-alpha",
        "1.0.0-alpha.1",
        "1.0.0-alpha.beta",
        "1.0.0-beta",
        "1.0.0-beta.2",
        "1.0.0-beta.11",
        "1.0.0-rc.1",
        "1.0.0",
    ];
    for i in 0..chain.len() {
        for j in 0..chain.len() {
            let r = is_update_available(chain[i], chain[j], true).unwrap();
            assert_eq!(r.is_some(), i < j, "{} vs {}", chain[i], chain[j]);
        }
    }
}

#[test]
fn build_metadata_never_affects_ordering() {
    assert!(is_update_available("1.0.0+alpha", "1.0.0+beta", false).unwrap().is_none());
    assert!(is_update_available("1.0.0+beta", "1.0.0+alpha", false).unwrap().is_none());
    let update = is_update_available("1.0.0+old", "1.1.0+new", false).unwrap().unwrap();
    assert_eq!(update.latest, "1.1.0+new");
}

#[test]
fn bad_current_version_names_the_current_side() {
    let err = is_update_available("1.q.r", "1.0.0", false).unwrap_err();
    assert!(matches!(err, Error::VersionError(_)));
    assert!(err.message().contains("current"));
}

#[test]
fn bad_latest_version_names_the_latest_side() {
    let err = is_update_available("1.0.0", "not-a-version", false).unwrap_err();
    assert!(matches!(err, Error::VersionError(_)));
    assert!(err.message().contains("latest"));
}

#[test]
fn malformed_versions_are_rejected() {
    for bad in ["", "1", "1.0", "1.0.0.0", "01.0.0", "1.00.0", "1.0.0-", "1.0.0+", "1.0.0-a..b",
        "1.0.0-a.", "1.0.0 ", " 1.0.0", "1.0.0-bet@a", "18446744073709551616.0.0"] {
        let err = is_update_available(bad, "1.0.0", false).unwrap_err();
        assert!(matches!(err, Error::VersionError(_)), "{bad} should not parse");
    }
}

#[test]
fn large_components_up_to_u64_parse() {
    // u64::MAX itself is the largest legal component.
    assert!(
        is_update_available("18446744073709551614.0.0", "18446744073709551615.0.0", false)
            .unwrap()
            .is_some()
    );
}

#[test]
fn numeric_prerelease_identifiers_compare_by_value_beyond_u64() {
    // Numeric identifiers are unbounded: 2^64 compares above 9.
    let r = is_update_available(
        "1.0.0-9",
        "1.0.0-18446744073709551616",
        true,
    )
    .unwrap();
    assert!(r.is_some());
}
