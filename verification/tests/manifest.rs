use test_cdylib::cargo::{Invocation, Metadata};
use test_cdylib::dependencies::{
    Dependency, Package, Patch, RegistryPatch, SourceManifest, WorkspaceManifest,
};
use test_cdylib::environment::Environment;
use test_cdylib::error::Error;
use test_cdylib::manifest::{Lib, Workspace};
use test_cdylib::run::{
    check_exists, make_config, make_manifest, prepare, run, Host, Probe, Project,
};
use test_cdylib::table::Table;

fn list(words: &[&str]) -> Vec<String> {
    words.iter().map(|w| w.to_string()).collect()
}

fn env() -> Environment {
    Environment {
        cargo: None,
        rustflags: None,
        package_name: Ok("demo".to_string()),
        manifest_dir: Some("/w/demo".to_string()),
    }
}

fn found() -> Probe {
    Probe { exists: true, open_error: None }
}

fn missing() -> Probe {
    Probe { exists: false, open_error: Some("No such file or directory (os error 2)".to_string()) }
}

fn registry(version: &str) -> Dependency {
    Dependency {
        version: Some(version.to_string()),
        path: None,
        default_features: true,
        features: vec![],
        rest: vec![],
    }
}

fn source_manifest() -> SourceManifest {
    let mut features = Table::new();
    features.insert("default".to_string(), list(&["fast"]));
    features.insert("fast".to_string(), vec![]);
    let mut dependencies = Table::new();
    dependencies.insert("serde".to_string(), registry("1.0"));
    dependencies.insert("libc".to_string(), registry("0.2"));
    let mut dev_dependencies = Table::new();
    dev_dependencies.insert("libc".to_string(), registry("0.2.99"));
    dev_dependencies.insert("dlopen".to_string(), registry("0.1"));
    SourceManifest {
        package: Package { edition: "2018".to_string() },
        features,
        dependencies,
        dev_dependencies,
    }
}

fn workspace_manifest() -> WorkspaceManifest {
    let mut crates = Table::new();
    crates.insert(
        "serde".to_string(),
        Patch {
            path: None,
            git: Some("https://example.org/serde".to_string()),
            branch: Some("fix".to_string()),
            rest: vec![("rev".to_string(), toml::Value::String("abc".to_string()))],
        },
    );
    let mut patch = Table::new();
    patch.insert("crates-io".to_string(), RegistryPatch { crates });
    let mut replace = Table::new();
    replace.insert(
        "libc:0.2.0".to_string(),
        Patch { path: Some("/w/vendor/libc".to_string()), git: None, branch: None, rest: vec![] },
    );
    WorkspaceManifest { patch, replace }
}

fn empty_source_manifest() -> SourceManifest {
    SourceManifest {
        package: Package { edition: "2015".to_string() },
        features: Table::new(),
        dependencies: Table::new(),
        dev_dependencies: Table::new(),
    }
}

fn empty_workspace_manifest() -> WorkspaceManifest {
    WorkspaceManifest { patch: Table::new(), replace: Table::new() }
}

fn host(features: Option<Vec<String>>) -> Host {
    Host {
        metadata: Metadata {
            target_directory: "/w/target".to_string(),
            workspace_root: "/w".to_string(),
        },
        features,
        manifest: source_manifest(),
        workspace_manifest: workspace_manifest(),
    }
}

fn project() -> Project {
    Project {
        dir: "/w/target/cdylibs/demo/identity".to_string(),
        source_dir: "/w/demo".to_string(),
        target_dir: "/w/target".to_string(),
        name: "demo-cdylib-identity".to_string(),
        features: None,
        workspace: "/w".to_string(),
    }
}

fn self_dependency() -> Dependency {
    Dependency {
        version: None,
        path: Some("/w/demo".to_string()),
        default_features: false,
        features: vec![],
        rest: vec![],
    }
}

#[test]
fn check_exists_found_or_openable() {
    assert_eq!(check_exists("tests/a.rs", &found()), Ok(()));
    assert_eq!(check_exists("tests/a.rs", &Probe { exists: false, open_error: None }), Ok(()));
    assert_eq!(
        check_exists("tests/a.rs", &Probe { exists: true, open_error: Some("busy".to_string()) }),
        Ok(())
    );
}

#[test]
fn check_exists_missing_names_the_path() {
    assert_eq!(
        check_exists("tests/missing.rs", &missing()),
        Err(Error::Open(
            "tests/missing.rs".to_string(),
            "No such file or directory (os error 2)".to_string()
        ))
    );
}

#[test]
fn make_config_holds_the_flags_of_the_build() {
    assert_eq!(make_config(&None).build.rustflags, list(&["-Crelocation-model=pic"]));
    assert_eq!(
        make_config(&Some("-g -C opt-level=3".to_string())).build.rustflags,
        list(&["-g", "-C", "opt-level=3", "-Crelocation-model=pic"])
    );
    assert_eq!(
        make_config(&Some("a a".to_string())).build.rustflags,
        list(&["a", "-Crelocation-model=pic"])
    );
}

#[test]
fn make_manifest_package_and_library() {
    let manifest = make_manifest(
        "demo",
        &project(),
        "tests/cdylibs/identity.rs",
        source_manifest(),
        workspace_manifest(),
    )
    .unwrap();
    assert_eq!(manifest.package.name, "demo-cdylib-identity");
    assert_eq!(manifest.package.version, "0.0.0");
    assert_eq!(manifest.package.edition, "2018");
    assert!(!manifest.package.publish);
    assert_eq!(
        manifest.lib,
        Lib { crate_type: list(&["cdylib"]), path: "/w/demo/tests/cdylibs/identity.rs".to_string() }
    );
    assert_eq!(manifest.workspace, Some(Workspace {}));
}

#[test]
fn make_manifest_absolute_source_stays() {
    let manifest = make_manifest(
        "demo",
        &project(),
        "/elsewhere/api.rs",
        empty_source_manifest(),
        empty_workspace_manifest(),
    )
    .unwrap();
    assert_eq!(manifest.lib.path, "/elsewhere/api.rs");
    assert_eq!(manifest.package.edition, "2015");
}

#[test]
fn make_manifest_features_go_through_the_package() {
    let manifest = make_manifest(
        "demo",
        &project(),
        "tests/cdylibs/identity.rs",
        source_manifest(),
        workspace_manifest(),
    )
    .unwrap();
    assert_eq!(manifest.features.len(), 2);
    assert_eq!(manifest.features.get("default"), Some(&list(&["demo/default"])));
    assert_eq!(manifest.features.get("fast"), Some(&list(&["demo/fast"])));
    assert_eq!(manifest.features.get("demo"), None);
}

#[test]
fn make_manifest_dependencies_are_joined() {
    let manifest = make_manifest(
        "demo",
        &project(),
        "tests/cdylibs/identity.rs",
        source_manifest(),
        workspace_manifest(),
    )
    .unwrap();
    assert_eq!(manifest.dependencies.len(), 4);
    assert_eq!(manifest.dependencies.get("serde"), Some(&registry("1.0")));
    assert_eq!(manifest.dependencies.get("libc"), Some(&registry("0.2.99")));
    assert_eq!(manifest.dependencies.get("dlopen"), Some(&registry("0.1")));
    assert_eq!(manifest.dependencies.get("demo"), Some(&self_dependency()));
}

#[test]
fn make_manifest_self_dependency_wins() {
    let mut source = source_manifest();
    source.dependencies.insert("demo".to_string(), registry("9.9"));
    source.dev_dependencies.insert(
        "demo".to_string(),
        Dependency {
            version: None,
            path: Some("/somewhere/else".to_string()),
            default_features: true,
            features: list(&["fast"]),
            rest: vec![("optional".to_string(), toml::Value::Boolean(true))],
        },
    );
    let manifest =
        make_manifest("demo", &project(), "t.rs", source, empty_workspace_manifest()).unwrap();
    assert_eq!(manifest.dependencies.get("demo"), Some(&self_dependency()));
    assert_eq!(manifest.dependencies.len(), 4);
}

#[test]
fn make_manifest_without_dependencies_has_the_package_itself() {
    let manifest = make_manifest(
        "demo",
        &project(),
        "t.rs",
        empty_source_manifest(),
        empty_workspace_manifest(),
    )
    .unwrap();
    assert_eq!(manifest.dependencies.into_entries(), vec![("demo".to_string(), self_dependency())]);
    assert_eq!(manifest.features.len(), 0);
    assert_eq!(manifest.patch.len(), 0);
    assert_eq!(manifest.replace.len(), 0);
}

#[test]
fn make_manifest_keeps_unread_fields() {
    let mut source = empty_source_manifest();
    let git = Dependency {
        version: None,
        path: None,
        default_features: true,
        features: vec![],
        rest: vec![
            ("git".to_string(), toml::Value::String("https://example.org/x".to_string())),
            ("optional".to_string(), toml::Value::Boolean(true)),
        ],
    };
    source.dependencies.insert("x".to_string(), git.clone());
    let manifest =
        make_manifest("demo", &project(), "t.rs", source, empty_workspace_manifest()).unwrap();
    assert_eq!(manifest.dependencies.get("x"), Some(&git));
}

#[test]
fn make_manifest_takes_overrides_from_the_workspace() {
    let manifest =
        make_manifest("demo", &project(), "t.rs", source_manifest(), workspace_manifest()).unwrap();
    let expected = workspace_manifest();
    assert_eq!(manifest.patch, expected.patch);
    assert_eq!(manifest.replace, expected.replace);
}

#[test]
fn prepare_places_the_package() {
    let scratch = prepare("tests/cdylibs/identity.rs", &env(), host(None)).unwrap();
    assert_eq!(scratch.project, project());
    assert_eq!(scratch.config_dir, "/w/target/cdylibs/demo/identity/.cargo");
    assert_eq!(scratch.config_file, "/w/target/cdylibs/demo/identity/.cargo/config");
    assert_eq!(scratch.manifest_file, "/w/target/cdylibs/demo/identity/Cargo.toml");
    assert_eq!(scratch.config, make_config(&None));
    assert_eq!(
        scratch.manifest,
        make_manifest(
            "demo",
            &project(),
            "tests/cdylibs/identity.rs",
            source_manifest(),
            workspace_manifest()
        )
        .unwrap()
    );
}

#[test]
fn prepare_hands_the_flags_to_the_configuration() {
    let mut env = env();
    env.rustflags = Some("--cfg extra".to_string());
    let scratch = prepare("tests/cdylibs/identity.rs", &env, host(None)).unwrap();
    assert_eq!(scratch.config.build.rustflags, list(&["--cfg", "extra", "-Crelocation-model=pic"]));
}

#[test]
fn prepare_looks_past_a_separator_at_the_end() {
    let scratch = prepare("tests/cdylibs/foo/", &env(), host(None)).unwrap();
    assert_eq!(scratch.project.dir, "/w/target/cdylibs/demo/foo");
    assert_eq!(scratch.project.name, "demo-cdylib-foo");
    assert_eq!(scratch.manifest.lib.path, "/w/demo/tests/cdylibs/foo/");
}

#[test]
fn prepare_keeps_declared_features_only() {
    let enabled = Some(list(&["fast", "nightly", "default", "unstable"]));
    let scratch = prepare("tests/cdylibs/identity.rs", &env(), host(enabled)).unwrap();
    assert_eq!(scratch.project.features, Some(list(&["fast", "default"])));
    let none = prepare("tests/cdylibs/identity.rs", &env(), host(Some(vec![]))).unwrap();
    assert_eq!(none.project.features, Some(vec![]));
}

#[test]
fn prepare_without_package_name() {
    let mut env = env();
    env.package_name = Err("environment variable not found".to_string());
    env.manifest_dir = None;
    assert_eq!(
        prepare("tests/cdylibs/identity.rs", &env, host(None)),
        Err(Error::PkgName("environment variable not found".to_string()))
    );
}

#[test]
fn prepare_without_project_dir() {
    let mut env = env();
    env.manifest_dir = None;
    assert_eq!(prepare("tests/cdylibs/identity.rs", &env, host(None)), Err(Error::ProjectDir));
}

#[test]
fn run_missing_source_is_not_found() {
    let result = run("tests/cdylibs/nowhere.rs", &missing(), &env(), host(None));
    assert_eq!(
        result,
        Err(Error::Open(
            "tests/cdylibs/nowhere.rs".to_string(),
            "No such file or directory (os error 2)".to_string()
        ))
    );
    assert_ne!(result, Err(Error::CargoFail));
}

#[test]
fn run_missing_source_comes_first() {
    let mut env = env();
    env.package_name = Err("unset".to_string());
    env.manifest_dir = None;
    let result = run("", &missing(), &env, host(None));
    assert!(matches!(result, Err(Error::Open(_, _))));
}

#[test]
fn run_plans_the_build_in_the_package() {
    let enabled = Some(list(&["nightly", "fast"]));
    let plan = run("tests/cdylibs/identity.rs", &found(), &env(), host(enabled)).unwrap();
    assert_eq!(plan.scratch.project.features, Some(list(&["fast"])));
    assert_eq!(
        plan.build,
        Invocation {
            program: "cargo".to_string(),
            args: list(&[
                "--offline",
                "build",
                "--message-format=json",
                "--no-default-features",
                "--features",
                "fast"
            ]),
            env: vec![
                ("RUSTFLAGS".to_string(), "-Crelocation-model=pic".to_string()),
                ("CARGO_TARGET_DIR".to_string(), "/w/target/cdylibs/demo/identity/target".to_string()),
            ],
            current_dir: Some("/w/target/cdylibs/demo/identity".to_string()),
            inherit_stderr: true,
        }
    );
}

#[test]
fn same_request_gives_same_plan() {
    let first = run("tests/cdylibs/identity.rs", &found(), &env(), host(None));
    let second = run("tests/cdylibs/identity.rs", &found(), &env(), host(None));
    assert_eq!(first, second);
    assert!(first.is_ok());
}

#[test]
fn demo_identity_scenario() {
    let plan =
        test_cdylib::build_file("tests/cdylibs/identity.rs", &found(), &env(), host(None)).unwrap();
    assert_eq!(plan.scratch.manifest_file, "/w/target/cdylibs/demo/identity/Cargo.toml");
    assert_eq!(plan.scratch.manifest.lib.crate_type, list(&["cdylib"]));
    assert_eq!(plan.scratch.manifest.lib.path, "/w/demo/tests/cdylibs/identity.rs");
    assert_eq!(plan.scratch.project.name, "demo-cdylib-identity");
    assert_eq!(plan.scratch.project.features, None);
    assert_eq!(plan.build.args, list(&["--offline", "build", "--message-format=json"]));
    assert_eq!(plan.build.current_dir, Some("/w/target/cdylibs/demo/identity".to_string()));
}
