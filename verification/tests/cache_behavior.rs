use tiny_update_check::cache::is_fresh;
use tiny_update_check::cache::trim_value;
use tiny_update_check::UpdateChecker;

#[test]
fn trimming_strips_surrounding_whitespace_only() {
    assert_eq!(trim_value("1.2.3"), "1.2.3");
    assert_eq!(trim_value("1.2.3\n"), "1.2.3");
    assert_eq!(trim_value("  1.2.3 \t\r\n"), "1.2.3");
    assert_eq!(trim_value("1.0.0-rc. 1"), "1.0.0-rc. 1");
    assert_eq!(trim_value(""), "");
    assert_eq!(trim_value(" \n\t "), "");
}

#[test]
fn cached_value_round_trips_within_the_window() {
    // What the write path stores is what the read path hands back, modulo
    // the surrounding whitespace a file may carry.
    let stored = "1.0.228\n";
    assert_eq!(trim_value(stored), "1.0.228");
    assert!(is_fresh(0, 86400));
}

#[test]
fn freshness_is_strictly_inside_the_window() {
    assert!(is_fresh(0, 1));
    assert!(is_fresh(86399, 86400));
    assert!(!is_fresh(86400, 86400));
    assert!(!is_fresh(86401, 86400));
}

#[test]
fn zero_window_keeps_nothing_fresh() {
    assert!(!is_fresh(0, 0));
    assert!(!is_fresh(1, 0));
}

#[test]
fn checker_freshness_uses_the_configured_window() {
    let checker = UpdateChecker::new("serde", "1.0.0").cache_duration(3600);
    assert!(checker.is_fresh(3599));
    assert!(!checker.is_fresh(3600));
}

#[test]
fn repeated_reads_of_a_fresh_entry_agree() {
    let stored = " 2.5.1 ";
    let first = trim_value(stored);
    let second = trim_value(stored);
    assert_eq!(first, second);
    assert_eq!(first, "2.5.1");
}
