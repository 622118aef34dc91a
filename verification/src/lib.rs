//! Plans the build of a dynamic library from a project, one of its examples
//! or a single source file, and reads the artifact out of the build tool's
//! messages.
//!
//! The library starts no process and touches no file. Each of the three
//! requests gives the run of the build tool that serves it, as a value; the
//! caller runs it and hands what the tool printed to
//! [`cargo::parse_output`], which gives the path of the library that was
//! built.

use crate::cargo::{example_build, self_build, Invocation};
use crate::environment::Environment;
use crate::error::{outcome, Error};
use crate::run::{found, planned, FileBuild, Host, Probe};
use vstd::prelude::*;

pub mod cargo;
pub mod dependencies;
pub mod environment;
pub mod error;
pub mod features;
pub mod manifest;
pub mod path;
pub mod run;
pub mod rustflags;
pub mod table;
pub mod text;

verus! {

/// Plans the build of the file at `path` as a dynamic library: the package
/// to write for it, and the run of the build tool that builds it. A source
/// that is not there is the failure, before anything else is looked at.
pub fn build_file(path: &str, probe: &Probe, env: &Environment, host: Host) -> (r: Result<
    FileBuild,
    Error,
>)
    requires
        found(path@, probe.deep_view()) is Ok && env.package_name is Ok ==> path::stem_of(path@)
            is Some,
    ensures
        outcome(r) == planned(path@, probe.deep_view(), env.deep_view(), host.deep_view()),
{
    run::run(path, probe, env, host)
}

/// The run of the build tool that builds the project under test as a
/// dynamic library.
pub fn build_current_project(env: &Environment, features: &Option<Vec<String>>) -> (r: Invocation)
    ensures
        r.deep_view() == self_build(env.deep_view(), features.deep_view()),
{
    cargo::build_self_cdylib(env, features)
}

/// The run of the build tool that builds the example `name` of the project
/// under test as a dynamic library.
pub fn build_example(name: &str, env: &Environment, features: &Option<Vec<String>>) -> (r:
    Invocation)
    ensures
        r.deep_view() == example_build(name@, env.deep_view(), features.deep_view()),
{
    cargo::build_example(name, env, features)
}

} // verus!
