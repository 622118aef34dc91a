use test_cdylib::cargo::{parse_output, Output};
use test_cdylib::environment::Environment;

fn env() -> Environment {
    Environment {
        cargo: None,
        rustflags: None,
        package_name: Ok("demo".to_string()),
        manifest_dir: Some("/w/demo".to_string()),
    }
}

fn built(name: &str, file: &str) -> Vec<u8> {
    format!(
        "{{\"reason\":\"compiler-artifact\",\"package_id\":\"demo 0.1.0 (path+file:///w/demo)\",\"target\":{{\"kind\":[\"example\"],\"crate_types\":[\"cdylib\"],\"name\":\"{}\",\"src_path\":\"/w/demo/examples/{}.rs\",\"edition\":\"2018\"}},\"profile\":{{\"opt_level\":\"0\",\"debuginfo\":2,\"debug_assertions\":true,\"overflow_checks\":true,\"test\":false}},\"features\":[],\"filenames\":[\"{}\"],\"executable\":null,\"fresh\":false}}\n",
        name, name, file
    )
    .into_bytes()
}

#[test]
pub fn load_example() {
    let build = test_cdylib::build_example("test_example", &env(), &None);
    assert_eq!(build.args[build.args.len() - 2..], ["--example", "test_example"]);
    let stdout = built("test_example", "/w/demo/target/debug/examples/libtest_example.so");
    let dylib = parse_output(&Output { success: true, stdout })
        .artifact
        .expect(&format!("failed to build library: {}", "test_example"));
    assert_eq!(dylib, "/w/demo/target/debug/examples/libtest_example.so");
}

#[test]
#[should_panic]
pub fn missing_example() {
    let _build = test_cdylib::build_example("missing", &env(), &None);
    // The build tool knows no such example: it prints no record and fails.
    parse_output(&Output { success: false, stdout: Vec::new() }).artifact.unwrap();
}

#[test]
pub fn missing_example_is_asked_for_by_name() {
    let build = test_cdylib::build_example("missing", &env(), &None);
    assert_eq!(build.args[build.args.len() - 2..], ["--example", "missing"]);
    assert_eq!(build.current_dir, None);
}

#[test]
pub fn missing_example_is_a_build_failure() {
    let report = parse_output(&Output { success: false, stdout: Vec::new() });
    assert_eq!(report.artifact, Err(test_cdylib::error::Error::CargoFail));
}
