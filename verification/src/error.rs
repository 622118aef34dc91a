//! What can go wrong between a request for a library and its artifact.

use crate::text::chain;
use vstd::prelude::*;

verus! {

/// A failure. Where the cause lies outside the library, the variant carries
/// the cause's own words.
#[derive(Clone, Debug, PartialEq, Eq)]
pub enum Error {
    /// The build tool could not be started.
    Cargo(String),
    /// The build tool ran and reported a failure, or built no artifact.
    CargoFail,
    /// A directory or a file could not be written.
    Io(String),
    /// The build tool's description of the project could not be read.
    Metadata(String),
    /// The source at the path could not be opened.
    Open(String, String),
    /// The name of the package under test is not known.
    PkgName(String),
    /// The directory of the package under test is not known.
    ProjectDir,
    /// A manifest could not be decoded.
    TomlDe(String),
    /// A manifest could not be encoded.
    TomlSer(String),
    /// A message of the build tool could not be decoded.
    Json(String),
}

/// An [`Error`] with its texts as sequences of characters.
pub enum ErrorView {
    Cargo(Seq<char>),
    CargoFail,
    Io(Seq<char>),
    Metadata(Seq<char>),
    Open(Seq<char>, Seq<char>),
    PkgName(Seq<char>),
    ProjectDir,
    TomlDe(Seq<char>),
    TomlSer(Seq<char>),
    Json(Seq<char>),
}

impl DeepView for Error {
    type V = ErrorView;

    open spec fn deep_view(&self) -> ErrorView {
        match self {
            Error::Cargo(e) => ErrorView::Cargo(e@),
            Error::CargoFail => ErrorView::CargoFail,
            Error::Io(e) => ErrorView::Io(e@),
            Error::Metadata(e) => ErrorView::Metadata(e@),
            Error::Open(path, e) => ErrorView::Open(path@, e@),
            Error::PkgName(e) => ErrorView::PkgName(e@),
            Error::ProjectDir => ErrorView::ProjectDir,
            Error::TomlDe(e) => ErrorView::TomlDe(e@),
            Error::TomlSer(e) => ErrorView::TomlSer(e@),
            Error::Json(e) => ErrorView::Json(e@),
        }
    }
}

impl ErrorView {
    /// The line that tells a user of this failure.
    pub open spec fn message(self) -> Seq<char> {
        match self {
            ErrorView::Cargo(e) => "failed to execute cargo: "@ + e,
            ErrorView::CargoFail => "cargo reported an error"@,
            ErrorView::Io(e) => e,
            ErrorView::Metadata(e) => "failed to read cargo metadata: "@ + e,
            ErrorView::Open(path, e) => path + ": "@ + e,
            ErrorView::PkgName(e) => "failed to detect CARGO_PKG_NAME: "@ + e,
            ErrorView::ProjectDir => "failed to determine name of project dir"@,
            ErrorView::TomlDe(e) => e,
            ErrorView::TomlSer(e) => e,
            ErrorView::Json(e) => e,
        }
    }

    /// Whether this failure says that a source is missing.
    pub open spec fn is_not_found(self) -> bool {
        self is Open
    }

    /// Whether this failure says that the build did not give an artifact.
    pub open spec fn is_build_failure(self) -> bool {
        self is CargoFail
    }
}

/// A result with both of its sides as views.
pub open spec fn outcome<T: DeepView>(result: Result<T, Error>) -> Result<T::V, ErrorView> {
    match result {
        Ok(value) => Ok(value.deep_view()),
        Err(error) => Err(error.deep_view()),
    }
}

impl Error {
    /// The line that tells a user of this failure.
    pub fn message(&self) -> (r: String)
        ensures
            r@ == self.deep_view().message(),
    {
        match self {
            Error::Cargo(e) => chain("failed to execute cargo: ", e.as_str()),
            Error::CargoFail => "cargo reported an error".to_owned(),
            Error::Io(e) => e.clone(),
            Error::Metadata(e) => chain("failed to read cargo metadata: ", e.as_str()),
            Error::Open(path, e) => {
                let mut out = chain(path.as_str(), ": ");
                out.append(e.as_str());
                out
            },
            Error::PkgName(e) => chain("failed to detect CARGO_PKG_NAME: ", e.as_str()),
            Error::ProjectDir => "failed to determine name of project dir".to_owned(),
            Error::TomlDe(e) => e.clone(),
            Error::TomlSer(e) => e.clone(),
            Error::Json(e) => e.clone(),
        }
    }
}

} // verus!
