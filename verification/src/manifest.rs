//! The manifest and the toolchain configuration of the package that is
//! made up to build one source file as a dynamic library.

use crate::dependencies::{Dependency, DependencyView, Patch, PatchView, RegistryPatch};
use crate::table::Table;
use vstd::prelude::*;

verus! {

/// The package section.
#[derive(Clone, Debug, PartialEq, Eq)]
pub struct Package {
    pub name: String,
    pub version: String,
    pub edition: String,
    pub publish: bool,
}

/// A [`Package`] with its texts as sequences of characters.
pub struct PackageView {
    pub name: Seq<char>,
    pub version: Seq<char>,
    pub edition: Seq<char>,
    pub publish: bool,
}

impl DeepView for Package {
    type V = PackageView;

    open spec fn deep_view(&self) -> PackageView {
        PackageView {
            name: self.name@,
            version: self.version@,
            edition: self.edition@,
            publish: self.publish,
        }
    }
}

/// The library section: the kinds of library to build, and the file at
/// which its source begins.
#[derive(Clone, Debug, PartialEq, Eq)]
pub struct Lib {
    pub crate_type: Vec<String>,
    pub path: String,
}

/// A [`Lib`] with its texts as sequences of characters.
pub struct LibView {
    pub crate_type: Seq<Seq<char>>,
    pub path: Seq<char>,
}

impl DeepView for Lib {
    type V = LibView;

    open spec fn deep_view(&self) -> LibView {
        LibView { crate_type: self.crate_type.deep_view(), path: self.path@ }
    }
}

/// The library section of a dynamic library whose source begins at `path`.
pub open spec fn cdylib_at(path: Seq<char>) -> LibView {
    LibView { crate_type: seq!["cdylib"@], path }
}

impl Lib {
    /// The library section of a dynamic library whose source begins at `path`.
    pub fn new(path: String) -> (r: Lib)
        ensures
            r.deep_view() == cdylib_at(path@),
    {
        let mut crate_type: Vec<String> = Vec::new();
        crate_type.push("cdylib".to_owned());
        assert(crate_type.deep_view() =~= seq!["cdylib"@]);
        Lib { crate_type, path }
    }
}

/// The workspace section of a package that is a workspace of its own, with
/// no other member.
#[derive(Clone, Copy, Debug, PartialEq, Eq)]
pub struct Workspace {}

/// The manifest of the package that is made up.
#[derive(Debug, PartialEq)]
pub struct Manifest {
    pub package: Package,
    pub lib: Lib,
    /// The features, each with what it switches on.
    pub features: Table<Vec<String>>,
    pub dependencies: Table<Dependency>,
    pub workspace: Option<Workspace>,
    /// The patches, by registry.
    pub patch: Table<RegistryPatch>,
    /// The replacements, by package.
    pub replace: Table<Patch>,
}

/// A [`Manifest`] with its tables as maps.
pub struct ManifestView {
    pub package: PackageView,
    pub lib: LibView,
    pub features: Map<Seq<char>, Seq<Seq<char>>>,
    pub dependencies: Map<Seq<char>, DependencyView>,
    pub workspace: Option<Workspace>,
    pub patch: Map<Seq<char>, Map<Seq<char>, PatchView>>,
    pub replace: Map<Seq<char>, PatchView>,
}

impl DeepView for Manifest {
    type V = ManifestView;

    open spec fn deep_view(&self) -> ManifestView {
        ManifestView {
            package: self.package.deep_view(),
            lib: self.lib.deep_view(),
            features: self.features.deep_view(),
            dependencies: self.dependencies.deep_view(),
            workspace: self.workspace,
            patch: self.patch.deep_view(),
            replace: self.replace.deep_view(),
        }
    }
}

/// The build section of the toolchain configuration.
#[derive(Clone, Debug, PartialEq, Eq)]
pub struct Build {
    /// The flags that the compiler gets.
    pub rustflags: Vec<String>,
}

/// The toolchain configuration of the package that is made up.
#[derive(Clone, Debug, PartialEq, Eq)]
pub struct Config {
    pub build: Build,
}

impl DeepView for Config {
    type V = Seq<Seq<char>>;

    /// The flags that the compiler gets.
    open spec fn deep_view(&self) -> Seq<Seq<char>> {
        self.build.rustflags.deep_view()
    }
}

} // verus!
