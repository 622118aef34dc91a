use test_cdylib::cargo::{
    build_cdylib, build_self_cdylib, cargo_build, feature_args, metadata, raw_cargo, Invocation,
};
use test_cdylib::environment::Environment;
use test_cdylib::run::Project;

fn list(words: &[&str]) -> Vec<String> {
    words.iter().map(|w| w.to_string()).collect()
}

fn env() -> Environment {
    Environment {
        cargo: None,
        rustflags: None,
        package_name: Ok("demo".to_string()),
        manifest_dir: Some("/w/demo".to_string()),
    }
}

#[test]
fn feature_args_without_selection() {
    assert_eq!(feature_args(&None), Vec::<String>::new());
}

#[test]
fn feature_args_with_selection() {
    assert_eq!(
        feature_args(&Some(list(&["a", "b", "c"]))),
        list(&["--no-default-features", "--features", "a,b,c"])
    );
    assert_eq!(
        feature_args(&Some(list(&["only"]))),
        list(&["--no-default-features", "--features", "only"])
    );
}

#[test]
fn feature_args_with_empty_selection() {
    assert_eq!(feature_args(&Some(vec![])), list(&["--no-default-features", "--features", ""]));
}

#[test]
fn raw_cargo_default_and_override() {
    assert_eq!(
        raw_cargo(&None),
        Invocation {
            program: "cargo".to_string(),
            args: vec![],
            env: vec![],
            current_dir: None,
            inherit_stderr: false,
        }
    );
    assert_eq!(raw_cargo(&Some("/opt/rust/bin/cargo".to_string())).program, "/opt/rust/bin/cargo");
}

#[test]
fn cargo_build_without_features() {
    assert_eq!(
        cargo_build(&env(), &None),
        Invocation {
            program: "cargo".to_string(),
            args: list(&["--offline", "build", "--message-format=json"]),
            env: vec![("RUSTFLAGS".to_string(), "-Crelocation-model=pic".to_string())],
            current_dir: None,
            inherit_stderr: false,
        }
    );
}

#[test]
fn cargo_build_with_features_and_flags() {
    let mut env = env();
    env.cargo = Some("/bin/cargo-1".to_string());
    env.rustflags = Some("-C opt-level=3".to_string());
    assert_eq!(
        cargo_build(&env, &Some(list(&["x", "y"]))),
        Invocation {
            program: "/bin/cargo-1".to_string(),
            args: list(&[
                "--offline",
                "build",
                "--message-format=json",
                "--no-default-features",
                "--features",
                "x,y"
            ]),
            env: vec![(
                "RUSTFLAGS".to_string(),
                "-C opt-level=3 -Crelocation-model=pic".to_string()
            )],
            current_dir: None,
            inherit_stderr: false,
        }
    );
}

#[test]
fn build_self_cdylib_builds_the_library() {
    let cmd = build_self_cdylib(&env(), &Some(list(&["f"])));
    assert_eq!(
        cmd.args,
        list(&[
            "--offline",
            "build",
            "--message-format=json",
            "--no-default-features",
            "--features",
            "f",
            "--lib"
        ])
    );
    assert_eq!(cmd.current_dir, None);
    assert!(cmd.inherit_stderr);
    assert_eq!(test_cdylib::build_current_project(&env(), &Some(list(&["f"]))), cmd);
}

#[test]
fn build_example_names_the_example() {
    let cmd = test_cdylib::cargo::build_example("test_example", &env(), &None);
    assert_eq!(
        cmd.args,
        list(&["--offline", "build", "--message-format=json", "--example", "test_example"])
    );
    assert_eq!(cmd.env, vec![("RUSTFLAGS".to_string(), "-Crelocation-model=pic".to_string())]);
    assert_eq!(cmd.current_dir, None);
    assert!(cmd.inherit_stderr);
    assert_eq!(test_cdylib::build_example("test_example", &env(), &None), cmd);
}

#[test]
fn build_cdylib_runs_in_the_project() {
    let project = Project {
        dir: "/w/demo/target/cdylibs/demo/identity".to_string(),
        source_dir: "/w/demo".to_string(),
        target_dir: "/w/demo/target".to_string(),
        name: "demo-cdylib-identity".to_string(),
        features: Some(list(&["extra"])),
        workspace: "/w".to_string(),
    };
    assert_eq!(
        build_cdylib(&project, &env()),
        Invocation {
            program: "cargo".to_string(),
            args: list(&[
                "--offline",
                "build",
                "--message-format=json",
                "--no-default-features",
                "--features",
                "extra"
            ]),
            env: vec![
                ("RUSTFLAGS".to_string(), "-Crelocation-model=pic".to_string()),
                (
                    "CARGO_TARGET_DIR".to_string(),
                    "/w/demo/target/cdylibs/demo/identity/target".to_string()
                ),
            ],
            current_dir: Some("/w/demo/target/cdylibs/demo/identity".to_string()),
            inherit_stderr: true,
        }
    );
}

#[test]
fn metadata_query() {
    assert_eq!(
        metadata(&None),
        Invocation {
            program: "cargo".to_string(),
            args: list(&["metadata", "--format-version=1"]),
            env: vec![],
            current_dir: None,
            inherit_stderr: false,
        }
    );
    assert_eq!(metadata(&Some("/c".to_string())).program, "/c");
}

#[test]
fn invocation_is_built_up_in_order() {
    let mut cmd = raw_cargo(&None);
    cmd.arg("a");
    cmd.args(list(&["b", "c"]));
    cmd.arg("d");
    cmd.env("K", "1".to_string());
    cmd.env("L", "2".to_string());
    cmd.current_dir("/first");
    cmd.current_dir("/second");
    assert_eq!(cmd.args, list(&["a", "b", "c", "d"]));
    assert_eq!(
        cmd.env,
        vec![("K".to_string(), "1".to_string()), ("L".to_string(), "2".to_string())]
    );
    assert_eq!(cmd.current_dir, Some("/second".to_string()));
    assert!(!cmd.inherit_stderr);
    cmd.stderr_inherit();
    assert!(cmd.inherit_stderr);
}
