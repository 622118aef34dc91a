//! What the library reads of the manifests of the project under test: its
//! dependencies and features, and the overrides of its workspace.

use crate::path;
use crate::table::{as_map, distinct, has_name, lemma_as_map_entry, place_of, Table};
use vstd::prelude::*;

verus! {

/// Makes `toml::Value` known: a value of a manifest, which the library
/// carries along and never reads. Nothing is claimed of it.
#[verifier::external_type_specification]
#[verifier::external_body]
pub struct ExValue(toml::Value);

/// The fields of a table that the library carries along without reading
/// them, each with its key.
pub open spec fn rest_view(rest: Seq<(String, toml::Value)>) -> Seq<(Seq<char>, toml::Value)> {
    Seq::new(rest.len(), |i: int| (rest[i].0@, rest[i].1))
}

/// How a package is depended on.
#[derive(Clone, Debug, PartialEq)]
pub struct Dependency {
    /// The versions that are accepted.
    pub version: Option<String>,
    /// The directory in which the package lies.
    pub path: Option<String>,
    /// Whether the package's default features are switched on.
    pub default_features: bool,
    /// The features that are switched on besides.
    pub features: Vec<String>,
    /// Every other field, as it was found.
    pub rest: Vec<(String, toml::Value)>,
}

/// A [`Dependency`] with its texts as sequences of characters.
pub struct DependencyView {
    pub version: Option<Seq<char>>,
    pub path: Option<Seq<char>>,
    pub default_features: bool,
    pub features: Seq<Seq<char>>,
    pub rest: Seq<(Seq<char>, toml::Value)>,
}

impl DeepView for Dependency {
    type V = DependencyView;

    open spec fn deep_view(&self) -> DependencyView {
        DependencyView {
            version: self.version.deep_view(),
            path: self.path.deep_view(),
            default_features: self.default_features,
            features: self.features.deep_view(),
            rest: rest_view(self.rest@),
        }
    }
}

/// The dependency on the package in the directory `dir` with nothing
/// switched on: neither its default features nor any other.
pub open spec fn bare_path_dependency(dir: Seq<char>) -> DependencyView {
    DependencyView {
        version: None,
        path: Some(dir),
        default_features: false,
        features: Seq::empty(),
        rest: Seq::empty(),
    }
}

impl Dependency {
    /// The dependency on the package in the directory `dir` with nothing
    /// switched on.
    pub fn on_path(dir: &str) -> (r: Dependency)
        ensures
            r.deep_view() == bare_path_dependency(dir@),
    {
        let r = Dependency {
            version: None,
            path: Some(dir.to_owned()),
            default_features: false,
            features: Vec::new(),
            rest: Vec::new(),
        };
        assert(r.deep_view().features =~= Seq::<Seq<char>>::empty());
        assert(r.deep_view().rest =~= Seq::<(Seq<char>, toml::Value)>::empty());
        r
    }
}

/// Another source for a package.
#[derive(Clone, Debug, PartialEq)]
pub struct Patch {
    /// The directory in which the package lies.
    pub path: Option<String>,
    /// The repository in which the package lies.
    pub git: Option<String>,
    /// The branch of that repository.
    pub branch: Option<String>,
    /// Every other field, as it was found.
    pub rest: Vec<(String, toml::Value)>,
}

/// A [`Patch`] with its texts as sequences of characters.
pub struct PatchView {
    pub path: Option<Seq<char>>,
    pub git: Option<Seq<char>>,
    pub branch: Option<Seq<char>>,
    pub rest: Seq<(Seq<char>, toml::Value)>,
}

impl DeepView for Patch {
    type V = PatchView;

    open spec fn deep_view(&self) -> PatchView {
        PatchView {
            path: self.path.deep_view(),
            git: self.git.deep_view(),
            branch: self.branch.deep_view(),
            rest: rest_view(self.rest@),
        }
    }
}

/// The patches of the packages of one registry, by package name.
#[derive(Debug, PartialEq)]
pub struct RegistryPatch {
    pub crates: Table<Patch>,
}

impl DeepView for RegistryPatch {
    type V = Map<Seq<char>, PatchView>;

    open spec fn deep_view(&self) -> Map<Seq<char>, PatchView> {
        self.crates.deep_view()
    }
}

/// What the package section of a manifest says of the language.
#[derive(Clone, Debug, PartialEq, Eq)]
pub struct Package {
    pub edition: String,
}

/// The manifest of the package under test, as far as the library reads it.
#[derive(Debug, PartialEq)]
pub struct SourceManifest {
    pub package: Package,
    /// The features that the package declares, each with what it switches on.
    pub features: Table<Vec<String>>,
    /// The packages that the package needs.
    pub dependencies: Table<Dependency>,
    /// The packages that only its tests need.
    pub dev_dependencies: Table<Dependency>,
}

/// A [`SourceManifest`] with its tables as maps.
pub struct SourceManifestView {
    pub edition: Seq<char>,
    pub features: Map<Seq<char>, Seq<Seq<char>>>,
    pub dependencies: Map<Seq<char>, DependencyView>,
    pub dev_dependencies: Map<Seq<char>, DependencyView>,
}

impl DeepView for SourceManifest {
    type V = SourceManifestView;

    open spec fn deep_view(&self) -> SourceManifestView {
        SourceManifestView {
            edition: self.package.edition@,
            features: self.features.deep_view(),
            dependencies: self.dependencies.deep_view(),
            dev_dependencies: self.dev_dependencies.deep_view(),
        }
    }
}

/// The manifest at the root of the workspace, as far as the library reads it:
/// the tables that put one source of a package in place of another.
#[derive(Debug, PartialEq)]
pub struct WorkspaceManifest {
    /// The patches, by registry.
    pub patch: Table<RegistryPatch>,
    /// The replacements, by package.
    pub replace: Table<Patch>,
}

/// A [`WorkspaceManifest`] with its tables as maps.
pub struct WorkspaceManifestView {
    pub patch: Map<Seq<char>, Map<Seq<char>, PatchView>>,
    pub replace: Map<Seq<char>, PatchView>,
}

impl DeepView for WorkspaceManifest {
    type V = WorkspaceManifestView;

    open spec fn deep_view(&self) -> WorkspaceManifestView {
        WorkspaceManifestView {
            patch: self.patch.deep_view(),
            replace: self.replace.deep_view(),
        }
    }
}

/// A value of a manifest that may name directories. A manifest means them
/// from the directory in which it lies; whoever reads it elsewhere has to
/// read them from there.
pub trait Rebase: DeepView + Sized {
    /// The value with each of its directories adjoined to `dir`.
    spec fn rebased(view: Self::V, dir: Seq<char>) -> Self::V;

    /// Adjoins each directory that the value names to `dir`.
    fn rebase(self, dir: &str) -> (r: Self)
        ensures
            r.deep_view() == Self::rebased(self.deep_view(), dir@),
    ;
}

impl Rebase for Dependency {
    open spec fn rebased(view: DependencyView, dir: Seq<char>) -> DependencyView {
        DependencyView {
            path: match view.path {
                Some(at) => Some(path::joined(dir, at)),
                None => None,
            },
            ..view
        }
    }

    fn rebase(self, dir: &str) -> (r: Dependency) {
        let at = match &self.path {
            Some(at) => Some(path::join(dir, at.as_str())),
            None => None,
        };
        Dependency {
            version: self.version,
            path: at,
            default_features: self.default_features,
            features: self.features,
            rest: self.rest,
        }
    }
}

impl Rebase for Patch {
    open spec fn rebased(view: PatchView, dir: Seq<char>) -> PatchView {
        PatchView {
            path: match view.path {
                Some(at) => Some(path::joined(dir, at)),
                None => None,
            },
            ..view
        }
    }

    fn rebase(self, dir: &str) -> (r: Patch) {
        let at = match &self.path {
            Some(at) => Some(path::join(dir, at.as_str())),
            None => None,
        };
        Patch { path: at, git: self.git, branch: self.branch, rest: self.rest }
    }
}

/// `entries` with each value rebased, each under its name and at its place.
pub open spec fn rebased_entries<V: Rebase>(
    entries: Seq<(Seq<char>, V::V)>,
    dir: Seq<char>,
) -> Seq<(Seq<char>, V::V)> {
    Seq::new(entries.len(), |i: int| (entries[i].0, V::rebased(entries[i].1, dir)))
}

/// Rebasing the values of a list of distinct names rebases the values of the
/// map that it lists, and keeps the names.
pub proof fn lemma_rebased_entries<V: Rebase>(entries: Seq<(Seq<char>, V::V)>, dir: Seq<char>)
    requires
        distinct(entries),
    ensures
        distinct(rebased_entries::<V>(entries, dir)),
        as_map(rebased_entries::<V>(entries, dir)) == as_map(entries).map_values(
            |value: V::V| V::rebased(value, dir),
        ),
{
    let moved = rebased_entries::<V>(entries, dir);
    let wanted = as_map(entries).map_values(|value: V::V| V::rebased(value, dir));
    assert forall|i: int, j: int| 0 <= i < j < moved.len() implies moved[i].0 != moved[j].0 by {
        assert(entries[i].0 != entries[j].0);
    }
    assert forall|name: Seq<char>| as_map(moved).contains_key(name) <==> wanted.contains_key(
        name,
    ) by {
        if has_name(moved, name) {
            let i = place_of(moved, name);
            assert(entries[i].0 == name);
        }
        if has_name(entries, name) {
            let i = place_of(entries, name);
            assert(moved[i].0 == name);
        }
    }
    assert forall|name: Seq<char>| as_map(moved).contains_key(name) implies as_map(moved)[name]
        == wanted[name] by {
        let i = place_of(moved, name);
        assert(entries[i].0 == name);
        lemma_as_map_entry(moved, i);
        lemma_as_map_entry(entries, i);
    }
    assert(as_map(moved) =~= wanted);
}

/// Rebases every value of `table`. The names stay, each at its place.
pub fn rebase_all<V: Rebase>(table: Table<V>, dir: &str) -> (r: Table<V>)
    ensures
        r.entries() == rebased_entries::<V>(table.entries(), dir@),
        r.deep_view() == table.deep_view().map_values(|value: V::V| V::rebased(value, dir@)),
{
    let ghost all = table.entries();
    let ghost n = all.len() as int;
    let mut from = table.into_entries();
    let mut rest: Vec<(String, V)> = Vec::new();
    while from.len() > 0
        invariant
            n == all.len(),
            from.len() + rest.len() == n,
            from.deep_view() == all.take(from.len() as int),
            forall|j: int| 0 <= j < rest.len() ==> rest.deep_view()[j] == all[n - 1 - j],
        decreases from.len(),
    {
        let ghost m = from.len() as int;
        let ghost turned = rest.deep_view();
        let entry = from.pop().unwrap();
        rest.push(entry);
        proof {
            assert(from.deep_view() =~= all.take(m - 1));
            assert(all.take(m)[m - 1] == all[m - 1]);
            assert(rest.deep_view() =~= turned.push(entry.deep_view()));
        }
    }
    let mut out: Table<V> = Table::new();
    assert(rebased_entries::<V>(all.take(0), dir@) =~= Seq::<(Seq<char>, V::V)>::empty());
    while rest.len() > 0
        invariant
            n == all.len(),
            rest.len() <= n,
            distinct(all),
            forall|j: int| 0 <= j < rest.len() ==> rest.deep_view()[j] == all[n - 1 - j],
            out.entries() == rebased_entries::<V>(all.take(n - rest.len()), dir@),
        decreases rest.len(),
    {
        let ghost done = n - rest.len();
        let ghost turned = rest.deep_view();
        let ghost before = out.entries();
        let (name, value) = rest.pop().unwrap();
        proof {
            assert(turned[turned.len() - 1] == all[done]);
            assert(rest.deep_view() =~= turned.take(turned.len() - 1));
            if has_name(before, name@) {
                let i = place_of(before, name@);
                assert(all.take(done)[i].0 == before[i].0);
                assert(all[i].0 != all[done].0);
            }
        }
        let moved = value.rebase(dir);
        out.insert(name, moved);
        assert(out.entries() =~= rebased_entries::<V>(all.take(done + 1), dir@));
    }
    proof {
        assert(all.take(n) =~= all);
        lemma_rebased_entries::<V>(all, dir@);
    }
    out
}

impl Rebase for RegistryPatch {
    open spec fn rebased(view: Map<Seq<char>, PatchView>, dir: Seq<char>) -> Map<
        Seq<char>,
        PatchView,
    > {
        view.map_values(|patch: PatchView| Patch::rebased(patch, dir))
    }

    fn rebase(self, dir: &str) -> (r: RegistryPatch) {
        RegistryPatch { crates: rebase_all(self.crates, dir) }
    }
}

impl SourceManifest {
    /// Reads the directories that the dependencies name from `dir`, the
    /// directory in which the manifest lies.
    pub fn rebase(self, dir: &str) -> (r: SourceManifest)
        ensures
            r.deep_view() == (SourceManifestView {
                dependencies: self.deep_view().dependencies.map_values(
                    |dep: DependencyView| Dependency::rebased(dep, dir@),
                ),
                dev_dependencies: self.deep_view().dev_dependencies.map_values(
                    |dep: DependencyView| Dependency::rebased(dep, dir@),
                ),
                ..self.deep_view()
            }),
    {
        SourceManifest {
            package: self.package,
            features: self.features,
            dependencies: rebase_all(self.dependencies, dir),
            dev_dependencies: rebase_all(self.dev_dependencies, dir),
        }
    }
}

impl WorkspaceManifest {
    /// Reads the directories that the overrides name from `dir`, the
    /// directory in which the manifest lies.
    pub fn rebase(self, dir: &str) -> (r: WorkspaceManifest)
        ensures
            r.deep_view() == (WorkspaceManifestView {
                patch: self.deep_view().patch.map_values(
                    |registry: Map<Seq<char>, PatchView>| RegistryPatch::rebased(registry, dir@),
                ),
                replace: self.deep_view().replace.map_values(
                    |patch: PatchView| Patch::rebased(patch, dir@),
                ),
            }),
    {
        WorkspaceManifest {
            patch: rebase_all(self.patch, dir),
            replace: rebase_all(self.replace, dir),
        }
    }
}

} // verus!
