//! The package that is made up to build one source file as a dynamic
//! library: where it lies, and what its files hold.

use crate::cargo::{build_cdylib, cdylib_build, Invocation, InvocationView, Metadata, MetadataView};
use crate::dependencies::{
    bare_path_dependency, Dependency, SourceManifest, SourceManifestView, WorkspaceManifest,
    WorkspaceManifestView,
};
use crate::environment::{Environment, EnvironmentView};
use crate::error::{outcome, Error, ErrorView};
use crate::features::{declared_only, retain_declared};
use crate::manifest::{
    cdylib_at, Build, Config, Lib, Manifest, ManifestView, Package, PackageView, Workspace,
};
use crate::path;
use crate::rustflags;
use crate::table::{has_name, place_of, Table};
use crate::text::chain;
use vstd::prelude::*;

verus! {

/// The package that is made up for one source file.
#[derive(Clone, Debug, PartialEq, Eq)]
pub struct Project {
    /// The directory of the package.
    pub dir: String,
    /// The directory of the package under test.
    pub source_dir: String,
    /// The directory into which the package under test is built.
    pub target_dir: String,
    /// The name of the package.
    pub name: String,
    /// The features to build with; `None` leaves the choice to the defaults.
    pub features: Option<Vec<String>>,
    /// The root of the workspace of the package under test.
    pub workspace: String,
}

/// A [`Project`] with its texts as sequences of characters.
pub struct ProjectView {
    pub dir: Seq<char>,
    pub source_dir: Seq<char>,
    pub target_dir: Seq<char>,
    pub name: Seq<char>,
    pub features: Option<Seq<Seq<char>>>,
    pub workspace: Seq<char>,
}

impl DeepView for Project {
    type V = ProjectView;

    open spec fn deep_view(&self) -> ProjectView {
        ProjectView {
            dir: self.dir@,
            source_dir: self.source_dir@,
            target_dir: self.target_dir@,
            name: self.name@,
            features: self.features.deep_view(),
            workspace: self.workspace@,
        }
    }
}

/// What was found when the source to build was looked for.
#[derive(Clone, Debug, PartialEq, Eq)]
pub struct Probe {
    /// Whether something lies at the path.
    pub exists: bool,
    /// Why the source could not be opened; `None` where it could.
    pub open_error: Option<String>,
}

/// A [`Probe`] with its text as a sequence of characters.
pub struct ProbeView {
    pub exists: bool,
    pub open_error: Option<Seq<char>>,
}

impl DeepView for Probe {
    type V = ProbeView;

    open spec fn deep_view(&self) -> ProbeView {
        ProbeView { exists: self.exists, open_error: self.open_error.deep_view() }
    }
}

/// What was read of the project under test before a file of it is built.
#[derive(Debug, PartialEq)]
pub struct Host {
    /// What the build tool says of the project.
    pub metadata: Metadata,
    /// The features that the running test was built with, where they are
    /// known.
    pub features: Option<Vec<String>>,
    /// The manifest of the package under test.
    pub manifest: SourceManifest,
    /// The manifest at the root of its workspace.
    pub workspace_manifest: WorkspaceManifest,
}

/// A [`Host`] with its texts as sequences of characters.
pub struct HostView {
    pub metadata: MetadataView,
    pub features: Option<Seq<Seq<char>>>,
    pub manifest: SourceManifestView,
    pub workspace_manifest: WorkspaceManifestView,
}

impl DeepView for Host {
    type V = HostView;

    open spec fn deep_view(&self) -> HostView {
        HostView {
            metadata: self.metadata.deep_view(),
            features: self.features.deep_view(),
            manifest: self.manifest.deep_view(),
            workspace_manifest: self.workspace_manifest.deep_view(),
        }
    }
}

/// The package that is made up for one source file, with what its files are
/// to hold and where they go.
#[derive(Debug, PartialEq)]
pub struct Scratch {
    pub project: Project,
    /// What the manifest of the package holds.
    pub manifest: Manifest,
    /// What the toolchain configuration of the package holds.
    pub config: Config,
    /// The directory of the toolchain configuration.
    pub config_dir: String,
    /// The file of the toolchain configuration.
    pub config_file: String,
    /// The file of the manifest.
    pub manifest_file: String,
}

/// A [`Scratch`] with its texts as sequences of characters.
pub struct ScratchView {
    pub project: ProjectView,
    pub manifest: ManifestView,
    pub config: Seq<Seq<char>>,
    pub config_dir: Seq<char>,
    pub config_file: Seq<char>,
    pub manifest_file: Seq<char>,
}

impl DeepView for Scratch {
    type V = ScratchView;

    open spec fn deep_view(&self) -> ScratchView {
        ScratchView {
            project: self.project.deep_view(),
            manifest: self.manifest.deep_view(),
            config: self.config.deep_view(),
            config_dir: self.config_dir@,
            config_file: self.config_file@,
            manifest_file: self.manifest_file@,
        }
    }
}

/// The build of one source file: the package to write, and the run of the
/// build tool that builds it.
#[derive(Debug, PartialEq)]
pub struct FileBuild {
    pub scratch: Scratch,
    pub build: Invocation,
}

/// A [`FileBuild`] with its texts as sequences of characters.
pub struct FileBuildView {
    pub scratch: ScratchView,
    pub build: InvocationView,
}

impl DeepView for FileBuild {
    type V = FileBuildView;

    open spec fn deep_view(&self) -> FileBuildView {
        FileBuildView { scratch: self.scratch.deep_view(), build: self.build.deep_view() }
    }
}

/// Whether the source at `path` is there: something lies at the path, or
/// the source could be opened. Where it is not, the failure names the path
/// and says why the source could not be opened.
pub open spec fn found(path: Seq<char>, probe: ProbeView) -> Result<(), ErrorView> {
    if probe.exists {
        Ok(())
    } else {
        match probe.open_error {
            None => Ok(()),
            Some(why) => Err(ErrorView::Open(path, why)),
        }
    }
}

/// The features of the package that is made up: each feature that the
/// package under test declares, switching on the feature of the same name of
/// the package under test, and nothing else.
pub open spec fn features_through(crate_name: Seq<char>, declared: Set<Seq<char>>) -> Map<
    Seq<char>,
    Seq<Seq<char>>,
> {
    Map::new(
        |feature: Seq<char>| declared.contains(feature),
        |feature: Seq<char>| seq![crate_name + "/"@ + feature],
    )
}

/// The manifest of the package that is made up.
///
/// It builds a dynamic library from the source at `cdylib_path`. It depends
/// on what the package under test depends on, for its use and for its tests;
/// where a name stands in both tables, the entry for the tests stays. Last
/// comes the package under test itself, by its directory and with none of its
/// features switched on: it takes the place of any entry under its name. The
/// package is a workspace of its own, and takes its overrides from the root
/// of the workspace of the package under test.
pub open spec fn manifest_of(
    crate_name: Seq<char>,
    project: ProjectView,
    cdylib_path: Seq<char>,
    source: SourceManifestView,
    workspace: WorkspaceManifestView,
) -> ManifestView {
    ManifestView {
        package: PackageView {
            name: project.name,
            version: "0.0.0"@,
            edition: source.edition,
            publish: false,
        },
        lib: cdylib_at(path::joined(project.source_dir, cdylib_path)),
        features: features_through(crate_name, source.features.dom()),
        dependencies: source.dependencies.union_prefer_right(source.dev_dependencies).insert(
            crate_name,
            bare_path_dependency(project.source_dir),
        ),
        workspace: Some(Workspace {  }),
        patch: workspace.patch,
        replace: workspace.replace,
    }
}

/// Where the package lies that is made up for a source with the stem
/// `test_name`: under the target directory, in `cdylibs`, under the name of
/// the package under test.
pub open spec fn scratch_dir(
    target_dir: Seq<char>,
    crate_name: Seq<char>,
    test_name: Seq<char>,
) -> Seq<char> {
    path::joined(path::joined(path::joined(target_dir, "cdylibs"@), crate_name), test_name)
}

/// The package that is made up for the source at `path`, for the package
/// `crate_name` in the directory `source_dir`. It is named after both. Of
/// the features that are switched on it keeps those that the package under
/// test declares.
pub open spec fn project_of(
    path: Seq<char>,
    crate_name: Seq<char>,
    source_dir: Seq<char>,
    host: HostView,
) -> ProjectView {
    let test_name = path::stem_of(path)->Some_0;
    ProjectView {
        dir: scratch_dir(host.metadata.target_directory, crate_name, test_name),
        source_dir,
        target_dir: host.metadata.target_directory,
        name: crate_name + "-cdylib-"@ + test_name,
        features: match host.features {
            Some(enabled) => Some(declared_only(enabled, host.manifest.features.dom())),
            None => None,
        },
        workspace: host.metadata.workspace_root,
    }
}

/// What `prepare` gives: the package for the source at `path`, or the
/// failure. The name of the package under test is asked for first, then its
/// directory.
pub open spec fn prepared(path: Seq<char>, env: EnvironmentView, host: HostView) -> Result<
    ScratchView,
    ErrorView,
> {
    match env.package_name {
        Err(why) => Err(ErrorView::PkgName(why)),
        Ok(crate_name) => match env.manifest_dir {
            None => Err(ErrorView::ProjectDir),
            Some(source_dir) => {
                let project = project_of(path, crate_name, source_dir, host);
                Ok(
                    ScratchView {
                        project,
                        manifest: manifest_of(
                            crate_name,
                            project,
                            path,
                            host.manifest,
                            host.workspace_manifest,
                        ),
                        config: rustflags::flags(env.rustflags),
                        config_dir: path::joined(project.dir, ".cargo"@),
                        config_file: path::joined(path::joined(project.dir, ".cargo"@), "config"@),
                        manifest_file: path::joined(project.dir, "Cargo.toml"@),
                    },
                )
            },
        },
    }
}

/// What `run` gives: the failure of the check for the source, else that of
/// the preparation, else the package with the run that builds it.
pub open spec fn planned(
    path: Seq<char>,
    probe: ProbeView,
    env: EnvironmentView,
    host: HostView,
) -> Result<FileBuildView, ErrorView> {
    match found(path, probe) {
        Err(error) => Err(error),
        Ok(_) => match prepared(path, env, host) {
            Err(error) => Err(error),
            Ok(scratch) => Ok(
                FileBuildView { scratch, build: cdylib_build(scratch.project, env) },
            ),
        },
    }
}

/// The place and the name of the package that is made up depend on the
/// target directory, on the name of the package under test and on the stem
/// of the source alone: a second request for the same source finds the
/// package of the first.
pub proof fn lemma_same_source_same_place(
    first: Seq<char>,
    second: Seq<char>,
    crate_name: Seq<char>,
    first_dir: Seq<char>,
    second_dir: Seq<char>,
    first_host: HostView,
    second_host: HostView,
)
    requires
        path::stem_of(first) == path::stem_of(second),
        first_host.metadata.target_directory == second_host.metadata.target_directory,
    ensures
        project_of(first, crate_name, first_dir, first_host).dir == project_of(
            second,
            crate_name,
            second_dir,
            second_host,
        ).dir,
        project_of(first, crate_name, first_dir, first_host).name == project_of(
            second,
            crate_name,
            second_dir,
            second_host,
        ).name,
{
}

/// Under one target directory, the packages that are made up for two
/// sources lie in one place only if the sources have the same stem and belong
/// to packages of the same name.
pub proof fn lemma_places_differ(
    target_dir: Seq<char>,
    crate_name: Seq<char>,
    test_name: Seq<char>,
    other_crate_name: Seq<char>,
    other_test_name: Seq<char>,
)
    requires
        path::is_component(crate_name),
        path::is_component(test_name),
        path::is_component(other_crate_name),
        path::is_component(other_test_name),
        scratch_dir(target_dir, crate_name, test_name) == scratch_dir(
            target_dir,
            other_crate_name,
            other_test_name,
        ),
    ensures
        crate_name == other_crate_name,
        test_name == other_test_name,
{
    reveal_strlit("cdylibs");
    let base = path::joined(target_dir, "cdylibs"@);
    assert("cdylibs"@[0] == 'c');
    assert("cdylibs"@.last() == 's');
    assert(base.last() == 's');
    path::lemma_nested_places_differ(
        base,
        crate_name,
        test_name,
        other_crate_name,
        other_test_name,
    );
}

/// The package that is made up depends on the package under test itself,
/// by its directory and with none of its features switched on, whatever the
/// package under test says of a dependency of that name.
pub proof fn lemma_self_dependency_stays(
    crate_name: Seq<char>,
    project: ProjectView,
    cdylib_path: Seq<char>,
    source: SourceManifestView,
    workspace: WorkspaceManifestView,
)
    ensures
        manifest_of(crate_name, project, cdylib_path, source, workspace).dependencies.contains_key(
            crate_name,
        ),
        manifest_of(crate_name, project, cdylib_path, source, workspace).dependencies[crate_name]
            == bare_path_dependency(project.source_dir),
{
}

/// The package that is made up declares the features that the package under
/// test declares, and no other; and each feature that is chosen for its build
/// is one that it declares.
pub proof fn lemma_chosen_features_are_declared(
    path: Seq<char>,
    env: EnvironmentView,
    host: HostView,
    feature: Seq<char>,
)
    requires
        prepared(path, env, host) is Ok,
    ensures
        prepared(path, env, host)->Ok_0.manifest.features.dom() == host.manifest.features.dom(),
        prepared(path, env, host)->Ok_0.project.features matches Some(chosen) && chosen.contains(
            feature,
        ) ==> prepared(path, env, host)->Ok_0.manifest.features.contains_key(feature),
{
    let scratch = prepared(path, env, host)->Ok_0;
    assert(scratch.manifest.features.dom() =~= host.manifest.features.dom());
    match host.features {
        Some(enabled) => {
            crate::features::lemma_declared_only_sound(
                enabled,
                host.manifest.features.dom(),
                feature,
            );
        },
        None => {},
    }
}

/// A source that cannot be opened is reported as not found, whatever else
/// is known: no package is made up for it, and the failure is another than
/// that of a build.
pub proof fn lemma_missing_source(
    path: Seq<char>,
    probe: ProbeView,
    env: EnvironmentView,
    host: HostView,
)
    requires
        !probe.exists,
        probe.open_error is Some,
    ensures
        planned(path, probe, env, host) == Err::<FileBuildView, ErrorView>(
            ErrorView::Open(path, probe.open_error->Some_0),
        ),
        planned(path, probe, env, host)->Err_0.is_not_found(),
        !planned(path, probe, env, host)->Err_0.is_build_failure(),
{
}

/// Tests whether the source at `path` is there.
pub fn check_exists(path: &str, probe: &Probe) -> (r: Result<(), Error>)
    ensures
        outcome(r) == found(path@, probe.deep_view()),
{
    if probe.exists {
        return Ok(());
    }
    match &probe.open_error {
        None => Ok(()),
        Some(why) => Err(Error::Open(path.to_owned(), why.clone())),
    }
}

/// The toolchain configuration of the package that is made up: the flags
/// of a build, where the environment of this process holds `rustflags`.
pub fn make_config(rustflags: &Option<String>) -> (r: Config)
    ensures
        r.deep_view() == rustflags::flags(rustflags.deep_view()),
        r.deep_view().no_duplicates(),
{
    Config { build: Build { rustflags: rustflags::make_vec(rustflags) } }
}

/// The features of the package that is made up.
fn make_features(crate_name: &str, declared: &Table<Vec<String>>) -> (r: Table<Vec<String>>)
    ensures
        r.deep_view() == features_through(crate_name@, declared.deep_view().dom()),
{
    let mut features: Table<Vec<String>> = Table::new();
    let n = declared.len();
    let ghost entries = declared.entries();
    let mut i: usize = 0;
    assert(features.deep_view() =~= Map::new(
        |feature: Seq<char>| has_name(entries.take(0), feature),
        |feature: Seq<char>| seq![crate_name@ + "/"@ + feature],
    ));
    while i < n
        invariant
            i <= n,
            n == entries.len(),
            entries == declared.entries(),
            features.deep_view() == Map::new(
                |feature: Seq<char>| has_name(entries.take(i as int), feature),
                |feature: Seq<char>| seq![crate_name@ + "/"@ + feature],
            ),
        decreases n - i,
    {
        let ghost before = features.deep_view();
        let name = declared.name_at(i).clone();
        let mut enable = chain(crate_name, "/");
        enable.append(name.as_str());
        let mut on: Vec<String> = Vec::new();
        on.push(enable);
        assert(on.deep_view() =~= seq![crate_name@ + "/"@ + name@]);
        features.insert(name, on);
        proof {
            let shorter = entries.take(i as int);
            let longer = entries.take(i + 1);
            assert forall|feature: Seq<char>| has_name(longer, feature) <==> has_name(
                shorter,
                feature,
            ) || feature == entries[i as int].0 by {
                if has_name(longer, feature) {
                    let j = place_of(longer, feature);
                    if j < i {
                        assert(shorter[j].0 == feature);
                    }
                }
                if has_name(shorter, feature) {
                    let j = place_of(shorter, feature);
                    assert(longer[j].0 == feature);
                }
                if feature == entries[i as int].0 {
                    assert(longer[i as int].0 == feature);
                }
            }
            assert(features.deep_view() =~= Map::new(
                |feature: Seq<char>| has_name(longer, feature),
                |feature: Seq<char>| seq![crate_name@ + "/"@ + feature],
            ));
        }
        i += 1;
    }
    assert(entries.take(n as int) =~= entries);
    assert(features.deep_view() =~= features_through(crate_name@, declared.deep_view().dom()));
    features
}

/// Makes the manifest of the package that is made up for `cdylib_path`.
pub fn make_manifest(
    crate_name: &str,
    project: &Project,
    cdylib_path: &str,
    source_manifest: SourceManifest,
    workspace_manifest: WorkspaceManifest,
) -> (r: Result<Manifest, Error>)
    ensures
        outcome(r) == Ok::<ManifestView, ErrorView>(
            manifest_of(
                crate_name@,
                project.deep_view(),
                cdylib_path@,
                source_manifest.deep_view(),
                workspace_manifest.deep_view(),
            ),
        ),
{
    let ghost source = source_manifest.deep_view();
    let features = make_features(crate_name, &source_manifest.features);
    let mut dependencies: Table<Dependency> = Table::new();
    dependencies.extend(source_manifest.dependencies);
    dependencies.extend(source_manifest.dev_dependencies);
    dependencies.insert(crate_name.to_owned(), Dependency::on_path(project.source_dir.as_str()));
    assert(dependencies.deep_view() =~= source.dependencies.union_prefer_right(
        source.dev_dependencies,
    ).insert(crate_name@, bare_path_dependency(project.source_dir@)));
    let manifest = Manifest {
        package: Package {
            name: project.name.clone(),
            version: "0.0.0".to_owned(),
            edition: source_manifest.package.edition,
            publish: false,
        },
        lib: Lib::new(path::join(project.source_dir.as_str(), cdylib_path)),
        features,
        dependencies,
        workspace: Some(Workspace {  }),
        patch: workspace_manifest.patch,
        replace: workspace_manifest.replace,
    };
    Ok(manifest)
}

/// Makes up the package for the source at `path`.
pub fn prepare(path: &str, env: &Environment, host: Host) -> (r: Result<Scratch, Error>)
    requires
        env.package_name is Ok ==> path::stem_of(path@) is Some,
    ensures
        outcome(r) == prepared(path@, env.deep_view(), host.deep_view()),
{
    let ghost seen = host.deep_view();
    let crate_name = match &env.package_name {
        Ok(name) => name,
        Err(why) => {
            return Err(Error::PkgName(why.clone()));
        },
    };
    let test_name = path::file_stem(path).unwrap();
    let source_dir = match &env.manifest_dir {
        Some(dir) => dir.clone(),
        None => {
            return Err(Error::ProjectDir);
        },
    };
    let in_cdylibs = path::join(host.metadata.target_directory.as_str(), "cdylibs");
    let in_crate = path::join(in_cdylibs.as_str(), crate_name.as_str());
    let mut name = chain(crate_name.as_str(), "-cdylib-");
    name.append(test_name.as_str());
    let mut project = Project {
        dir: path::join(in_crate.as_str(), test_name.as_str()),
        source_dir,
        target_dir: host.metadata.target_directory,
        name,
        features: host.features,
        workspace: host.metadata.workspace_root,
    };
    let manifest = match make_manifest(
        crate_name.as_str(),
        &project,
        path,
        host.manifest,
        host.workspace_manifest,
    ) {
        Ok(manifest) => manifest,
        Err(error) => {
            return Err(error);
        },
    };
    let config = make_config(&env.rustflags);
    let mut kept: Option<Vec<String>> = None;
    match project.features {
        Some(enabled) => {
            let mut enabled = enabled;
            retain_declared(&mut enabled, &manifest.features);
            kept = Some(enabled);
        },
        None => {},
    }
    project.features = kept;
    assert(manifest.features.deep_view().dom() =~= seen.manifest.features.dom());
    let config_dir = path::join(project.dir.as_str(), ".cargo");
    let config_file = path::join(config_dir.as_str(), "config");
    let manifest_file = path::join(project.dir.as_str(), "Cargo.toml");
    Ok(Scratch { project, manifest, config, config_dir, config_file, manifest_file })
}

/// Plans the build of the source at `path` as a dynamic library: the source
/// must be there; then the package is made up, and the build tool is to run
/// in it.
pub fn run(path: &str, probe: &Probe, env: &Environment, host: Host) -> (r: Result<
    FileBuild,
    Error,
>)
    requires
        found(path@, probe.deep_view()) is Ok && env.package_name is Ok ==> path::stem_of(path@)
            is Some,
    ensures
        outcome(r) == planned(path@, probe.deep_view(), env.deep_view(), host.deep_view()),
{
    match check_exists(path, probe) {
        Ok(_) => {},
        Err(error) => {
            return Err(error);
        },
    }
    let scratch = match prepare(path, env, host) {
        Ok(scratch) => scratch,
        Err(error) => {
            return Err(error);
        },
    };
    let build = build_cdylib(&scratch.project, env);
    Ok(FileBuild { scratch, build })
}

} // verus!
