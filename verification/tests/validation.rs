use tiny_update_check::CheckStart;
use tiny_update_check::Error;
use tiny_update_check::UpdateChecker;

fn start_err(name: &str) -> Error {
    UpdateChecker::new(name, "1.0.0").check_start().unwrap_err()
}

#[test]
fn rejects_empty_crate_name() {
    let err = start_err("");
    assert!(matches!(err, Error::InvalidCrateName(_)), "Expected InvalidCrateName, got: {}", err.message());
    assert!(err.message().contains("empty"));
}

#[test]
fn rejects_crate_name_with_spaces() {
    let err = start_err("my crate");
    assert!(matches!(err, Error::InvalidCrateName(_)), "Expected InvalidCrateName, got: {}", err.message());
    assert!(err.message().contains("invalid character"));
}

#[test]
fn rejects_crate_name_with_special_chars() {
    let err = start_err("my-crate!");
    assert!(matches!(err, Error::InvalidCrateName(_)), "Expected InvalidCrateName, got: {}", err.message());
    assert!(err.message().contains("invalid character"));
}

#[test]
fn rejects_crate_name_starting_with_number() {
    let err = start_err("123crate");
    assert!(matches!(err, Error::InvalidCrateName(_)), "Expected InvalidCrateName, got: {}", err.message());
    assert!(err.message().contains("start with a letter"));
}

#[test]
fn rejects_crate_name_starting_with_hyphen() {
    let err = start_err("-my-crate");
    assert!(matches!(err, Error::InvalidCrateName(_)), "Expected InvalidCrateName, got: {}", err.message());
    assert!(err.message().contains("start with a letter"));
}

#[test]
fn rejects_crate_name_starting_with_underscore() {
    let err = start_err("_my_crate");
    assert!(matches!(err, Error::InvalidCrateName(_)), "Expected InvalidCrateName, got: {}", err.message());
    assert!(err.message().contains("start with a letter"));
}

#[test]
fn rejects_crate_name_too_long() {
    let name = "a".repeat(65);
    let err = UpdateChecker::new(&name, "1.0.0").check_start().unwrap_err();
    assert!(matches!(err, Error::InvalidCrateName(_)), "Expected InvalidCrateName, got: {}", err.message());
    assert!(err.message().contains("64"));
}

#[test]
fn accepts_valid_simple_name() {
    let r = UpdateChecker::new("serde", "0.0.1").check_start();
    assert!(r.is_ok(), "Should not be InvalidCrateName: {}", r.unwrap_err().message());
}

#[test]
fn accepts_valid_name_with_hyphens() {
    let r = UpdateChecker::new("my-cool-crate", "0.0.1").check_start();
    assert!(r.is_ok(), "Should not be InvalidCrateName: {}", r.unwrap_err().message());
}

#[test]
fn accepts_valid_name_with_underscores() {
    let r = UpdateChecker::new("my_cool_crate", "0.0.1").check_start();
    assert!(r.is_ok(), "Should not be InvalidCrateName: {}", r.unwrap_err().message());
}

#[test]
fn accepts_valid_name_with_numbers() {
    let r = UpdateChecker::new("crate2", "0.0.1").check_start();
    assert!(r.is_ok(), "Should not be InvalidCrateName: {}", r.unwrap_err().message());
}

#[test]
fn accepts_max_length_name() {
    let name = "a".repeat(64);
    let r = UpdateChecker::new(&name, "0.0.1").check_start();
    assert!(r.is_ok(), "Should not be InvalidCrateName: {}", r.unwrap_err().message());
}

#[test]
fn validation_fails_before_any_io_is_asked_for() {
    // The very first step of a check on a bad name is the error itself:
    // no cache read and no fetch is ever requested.
    let checker = UpdateChecker::new("bad name", "1.0.0")
        .cache_dir(Some("/tmp/cache-dir".to_string()))
        .cache_duration(3600);
    match checker.check_start() {
        Err(Error::InvalidCrateName(_)) => {}
        Err(e) => panic!("wrong error: {}", e.message()),
        Ok(CheckStart::ReadCache { .. }) | Ok(CheckStart::Fetch) => {
            panic!("a bad name must not start any I/O")
        }
    }
}

#[test]
fn direct_validator_agrees_with_check_start() {
    assert!(tiny_update_check::validate_crate_name("serde").is_ok());
    assert!(tiny_update_check::validate_crate_name("9lives").is_err());
    assert!(tiny_update_check::validate_crate_name("").is_err());
}
