use test_cdylib::error::Error;

#[test]
fn message_of_each_error() {
    assert_eq!(
        Error::Cargo("No such file or directory (os error 2)".to_string()).message(),
        "failed to execute cargo: No such file or directory (os error 2)"
    );
    assert_eq!(Error::CargoFail.message(), "cargo reported an error");
    assert_eq!(Error::Io("permission denied".to_string()).message(), "permission denied");
    assert_eq!(
        Error::Metadata("EOF while parsing".to_string()).message(),
        "failed to read cargo metadata: EOF while parsing"
    );
    assert_eq!(
        Error::Open("tests/missing.rs".to_string(), "not found".to_string()).message(),
        "tests/missing.rs: not found"
    );
    assert_eq!(
        Error::PkgName("environment variable not found".to_string()).message(),
        "failed to detect CARGO_PKG_NAME: environment variable not found"
    );
    assert_eq!(Error::ProjectDir.message(), "failed to determine name of project dir");
    assert_eq!(Error::TomlDe("bad table".to_string()).message(), "bad table");
    assert_eq!(Error::TomlSer("bad value".to_string()).message(), "bad value");
    assert_eq!(Error::Json("expected value".to_string()).message(), "expected value");
}

#[test]
fn message_with_empty_cause() {
    assert_eq!(Error::Cargo(String::new()).message(), "failed to execute cargo: ");
    assert_eq!(Error::Open(String::new(), String::new()).message(), ": ");
    assert_eq!(Error::Io(String::new()).message(), "");
}

#[test]
fn not_found_differs_from_build_failure() {
    assert_ne!(Error::Open("x.rs".to_string(), "not found".to_string()), Error::CargoFail);
}
