//! What the library is told of the process that asks for a build.

use vstd::prelude::*;

verus! {

/// What was found in the environment of the process, read once before a
/// build is planned.
#[derive(Debug, PartialEq, Eq)]
pub struct Environment {
    /// Where the build tool lies, where that is not left to the search path.
    pub cargo: Option<String>,
    /// The compiler flags that are set already.
    pub rustflags: Option<String>,
    /// The name of the package under test, or why it is not known.
    pub package_name: Result<String, String>,
    /// The directory of the package under test.
    pub manifest_dir: Option<String>,
}

/// An [`Environment`] with its texts as sequences of characters.
pub struct EnvironmentView {
    pub cargo: Option<Seq<char>>,
    pub rustflags: Option<Seq<char>>,
    pub package_name: Result<Seq<char>, Seq<char>>,
    pub manifest_dir: Option<Seq<char>>,
}

impl DeepView for Environment {
    type V = EnvironmentView;

    open spec fn deep_view(&self) -> EnvironmentView {
        EnvironmentView {
            cargo: self.cargo.deep_view(),
            rustflags: self.rustflags.deep_view(),
            package_name: match self.package_name {
                Ok(name) => Ok(name@),
                Err(why) => Err(why@),
            },
            manifest_dir: self.manifest_dir.deep_view(),
        }
    }
}

} // verus!
