//! The invocations of the build tool, and the reading of what it prints.

use crate::environment::{Environment, EnvironmentView};
use crate::error::{Error, ErrorView};
use crate::path;
use crate::run::{Project, ProjectView};
use crate::rustflags;
use crate::text::{join, joined};
use cargo_metadata::Message;
use vstd::prelude::*;

verus! {

/// What the build tool says of the project under test.
#[derive(Clone, Debug, PartialEq, Eq)]
pub struct Metadata {
    /// The directory into which the project is built.
    pub target_directory: String,
    /// The root of the workspace of the project.
    pub workspace_root: String,
}

/// A [`Metadata`] with its texts as sequences of characters.
pub struct MetadataView {
    pub target_directory: Seq<char>,
    pub workspace_root: Seq<char>,
}

impl DeepView for Metadata {
    type V = MetadataView;

    open spec fn deep_view(&self) -> MetadataView {
        MetadataView {
            target_directory: self.target_directory@,
            workspace_root: self.workspace_root@,
        }
    }
}

/// One run of the build tool, before it is started.
#[derive(Clone, Debug, PartialEq, Eq)]
pub struct Invocation {
    /// The program to start.
    pub program: String,
    /// Its arguments.
    pub args: Vec<String>,
    /// The variables to set in its environment, each with its value.
    pub env: Vec<(String, String)>,
    /// The directory to start it in; `None` keeps that of this process.
    pub current_dir: Option<String>,
    /// Whether what it writes to its standard error goes on to that of this
    /// process as it comes, in place of being kept.
    pub inherit_stderr: bool,
}

/// An [`Invocation`] with its texts as sequences of characters.
pub struct InvocationView {
    pub program: Seq<char>,
    pub args: Seq<Seq<char>>,
    pub env: Seq<(Seq<char>, Seq<char>)>,
    pub current_dir: Option<Seq<char>>,
    pub inherit_stderr: bool,
}

impl DeepView for Invocation {
    type V = InvocationView;

    open spec fn deep_view(&self) -> InvocationView {
        InvocationView {
            program: self.program@,
            args: self.args.deep_view(),
            env: self.env.deep_view(),
            current_dir: self.current_dir.deep_view(),
            inherit_stderr: self.inherit_stderr,
        }
    }
}

impl Invocation {
    /// Adds an argument.
    pub fn arg(&mut self, arg: &str)
        ensures
            final(self).deep_view() == (InvocationView {
                args: old(self).deep_view().args.push(arg@),
                ..old(self).deep_view()
            }),
    {
        let ghost before = self.args.deep_view();
        self.args.push(arg.to_owned());
        assert(self.args.deep_view() =~= before.push(arg@));
    }

    /// Adds arguments.
    pub fn args(&mut self, args: Vec<String>)
        ensures
            final(self).deep_view() == (InvocationView {
                args: old(self).deep_view().args + args.deep_view(),
                ..old(self).deep_view()
            }),
    {
        let ghost before = self.args.deep_view();
        let ghost more = args.deep_view();
        let mut args = args;
        self.args.append(&mut args);
        assert(self.args.deep_view() =~= before + more);
    }

    /// Sets a variable of the environment.
    pub fn env(&mut self, name: &str, value: String)
        ensures
            final(self).deep_view() == (InvocationView {
                env: old(self).deep_view().env.push((name@, value@)),
                ..old(self).deep_view()
            }),
    {
        let ghost before = self.env.deep_view();
        self.env.push((name.to_owned(), value));
        assert(self.env.deep_view() =~= before.push((name@, value@)));
    }

    /// Sets the directory to start in.
    pub fn current_dir(&mut self, dir: &str)
        ensures
            final(self).deep_view() == (InvocationView {
                current_dir: Some(dir@),
                ..old(self).deep_view()
            }),
    {
        self.current_dir = Some(dir.to_owned());
    }

    /// Lets what the tool writes to its standard error go on to that of
    /// this process.
    pub fn stderr_inherit(&mut self)
        ensures
            final(self).deep_view() == (InvocationView {
                inherit_stderr: true,
                ..old(self).deep_view()
            }),
    {
        self.inherit_stderr = true;
    }
}

/// The arguments that choose the features of a build: none where the choice
/// is left to the defaults; otherwise the defaults are switched off and the
/// chosen features are named, with commas between them.
pub open spec fn feature_arguments(features: Option<Seq<Seq<char>>>) -> Seq<Seq<char>> {
    match features {
        Some(chosen) => seq!["--no-default-features"@, "--features"@, joined(chosen, ","@)],
        None => Seq::empty(),
    }
}

/// The build tool without arguments: the program that `cargo` names, or the
/// one called `cargo` on the search path.
pub open spec fn tool(cargo: Option<Seq<char>>) -> InvocationView {
    InvocationView {
        program: match cargo {
            Some(program) => program,
            None => "cargo"@,
        },
        args: Seq::empty(),
        env: Seq::empty(),
        current_dir: None,
        inherit_stderr: false,
    }
}

/// A build without the network, with messages as structured records, the
/// chosen features, and the compiler flags in the environment.
pub open spec fn build(env: EnvironmentView, features: Option<Seq<Seq<char>>>) -> InvocationView {
    InvocationView {
        program: tool(env.cargo).program,
        args: seq!["--offline"@, "build"@, "--message-format=json"@] + feature_arguments(
            features,
        ),
        env: seq![("RUSTFLAGS"@, rustflags::env_value(env.rustflags))],
        current_dir: None,
        inherit_stderr: false,
    }
}

/// The build of the package that is made up: in its directory, into a
/// target directory of its own, with the tool's own words passed on.
pub open spec fn cdylib_build(project: ProjectView, env: EnvironmentView) -> InvocationView {
    InvocationView {
        env: build(env, project.features).env.push(
            ("CARGO_TARGET_DIR"@, path::joined(project.dir, "target"@)),
        ),
        current_dir: Some(project.dir),
        inherit_stderr: true,
        ..build(env, project.features)
    }
}

/// The build of the library of the project under test, with the tool's own
/// words passed on.
pub open spec fn self_build(env: EnvironmentView, features: Option<Seq<Seq<char>>>) -> InvocationView {
    InvocationView {
        args: build(env, features).args.push("--lib"@),
        inherit_stderr: true,
        ..build(env, features)
    }
}

/// The build of the example `name` of the project under test, with the
/// tool's own words passed on.
pub open spec fn example_build(
    name: Seq<char>,
    env: EnvironmentView,
    features: Option<Seq<Seq<char>>>,
) -> InvocationView {
    InvocationView {
        args: build(env, features).args + seq!["--example"@, name],
        inherit_stderr: true,
        ..build(env, features)
    }
}

/// The question that has the build tool describe the project under test.
pub open spec fn metadata_query(cargo: Option<Seq<char>>) -> InvocationView {
    InvocationView { args: seq!["metadata"@, "--format-version=1"@], ..tool(cargo) }
}

/// The build of an example and that of the library of the project under
/// test run where this process runs and set nothing but the compiler flags:
/// they build into the project's own target directory, and there is no
/// package to write for them.
pub proof fn lemma_builds_in_place(
    name: Seq<char>,
    env: EnvironmentView,
    features: Option<Seq<Seq<char>>>,
)
    ensures
        example_build(name, env, features).current_dir is None,
        example_build(name, env, features).env == seq![
            ("RUSTFLAGS"@, rustflags::env_value(env.rustflags)),
        ],
        example_build(name, env, features).args.last() == name,
        self_build(env, features).current_dir is None,
        self_build(env, features).env == example_build(name, env, features).env,
{
}

/// The build tool without arguments.
pub fn raw_cargo(cargo: &Option<String>) -> (r: Invocation)
    ensures
        r.deep_view() == tool(cargo.deep_view()),
{
    let program = match cargo {
        Some(program) => program.clone(),
        None => "cargo".to_owned(),
    };
    let r = Invocation {
        program,
        args: Vec::new(),
        env: Vec::new(),
        current_dir: None,
        inherit_stderr: false,
    };
    assert(r.deep_view().args =~= Seq::<Seq<char>>::empty());
    assert(r.deep_view().env =~= Seq::<(Seq<char>, Seq<char>)>::empty());
    r
}

/// The arguments that choose the features of a build.
pub fn feature_args(features: &Option<Vec<String>>) -> (r: Vec<String>)
    ensures
        r.deep_view() == feature_arguments(features.deep_view()),
{
    let mut r: Vec<String> = Vec::new();
    match features {
        Some(chosen) => {
            r.push("--no-default-features".to_owned());
            r.push("--features".to_owned());
            r.push(join(chosen, ","));
            assert(r.deep_view() =~= feature_arguments(features.deep_view()));
        },
        None => {
            assert(r.deep_view() =~= Seq::<Seq<char>>::empty());
        },
    }
    r
}

/// A build with the features `features`.
pub fn cargo_build(env: &Environment, features: &Option<Vec<String>>) -> (r: Invocation)
    ensures
        r.deep_view() == build(env.deep_view(), features.deep_view()),
{
    let mut cmd = raw_cargo(&env.cargo);
    cmd.arg("--offline");
    cmd.arg("build");
    cmd.arg("--message-format=json");
    cmd.args(feature_args(features));
    rustflags::set_env(&mut cmd, &env.rustflags);
    assert(cmd.deep_view().args =~= build(env.deep_view(), features.deep_view()).args);
    assert(cmd.deep_view().env =~= build(env.deep_view(), features.deep_view()).env);
    cmd
}

/// The build of the package that is made up.
pub fn build_cdylib(project: &Project, env: &Environment) -> (r: Invocation)
    ensures
        r.deep_view() == cdylib_build(project.deep_view(), env.deep_view()),
{
    let mut cmd = cargo_build(env, &project.features);
    cmd.current_dir(project.dir.as_str());
    cmd.env("CARGO_TARGET_DIR", path::join(project.dir.as_str(), "target"));
    cmd.stderr_inherit();
    cmd
}

/// The build of the library of the project under test.
pub fn build_self_cdylib(env: &Environment, features: &Option<Vec<String>>) -> (r: Invocation)
    ensures
        r.deep_view() == self_build(env.deep_view(), features.deep_view()),
{
    let mut cmd = cargo_build(env, features);
    cmd.arg("--lib");
    cmd.stderr_inherit();
    cmd
}

/// The build of the example `name` of the project under test.
pub fn build_example(name: &str, env: &Environment, features: &Option<Vec<String>>) -> (r:
    Invocation)
    ensures
        r.deep_view() == example_build(name@, env.deep_view(), features.deep_view()),
{
    let mut cmd = cargo_build(env, features);
    cmd.arg("--example");
    cmd.arg(name);
    cmd.stderr_inherit();
    assert(cmd.deep_view().args =~= example_build(
        name@,
        env.deep_view(),
        features.deep_view(),
    ).args);
    cmd
}

/// The question that has the build tool describe the project under test.
/// Its answer, decoded, is a [`Metadata`].
pub fn metadata(cargo: &Option<String>) -> (r: Invocation)
    ensures
        r.deep_view() == metadata_query(cargo.deep_view()),
{
    let mut cmd = raw_cargo(cargo);
    cmd.arg("metadata");
    cmd.arg("--format-version=1");
    assert(cmd.deep_view().args =~= metadata_query(cargo.deep_view()).args);
    cmd
}

/// One record of what the build tool prints while it builds.
#[derive(Clone, Debug, PartialEq, Eq)]
pub enum BuildMessage {
    /// A message of the compiler for the user, with its text as the compiler
    /// laid it out, where it did so.
    Diagnostic(Option<String>),
    /// The compiler has written these files for one target.
    Artifact(Vec<String>),
    /// Anything else.
    Other,
}

/// A [`BuildMessage`] with its texts as sequences of characters.
pub enum MessageView {
    Diagnostic(Option<Seq<char>>),
    Artifact(Seq<Seq<char>>),
    Other,
}

impl DeepView for BuildMessage {
    type V = MessageView;

    open spec fn deep_view(&self) -> MessageView {
        match self {
            BuildMessage::Diagnostic(rendered) => MessageView::Diagnostic(rendered.deep_view()),
            BuildMessage::Artifact(files) => MessageView::Artifact(files.deep_view()),
            BuildMessage::Other => MessageView::Other,
        }
    }
}

/// What one run of the build tool left behind.
#[derive(Clone, Debug, PartialEq, Eq)]
pub struct Output {
    /// Whether the tool said at its exit that it had succeeded.
    pub success: bool,
    /// What it printed on its standard output.
    pub stdout: Vec<u8>,
}

/// What was read out of the output of a build.
#[derive(Debug, PartialEq, Eq)]
pub struct Report {
    /// The texts of the compiler's messages for the user, in the order in
    /// which they came.
    pub diagnostics: Vec<String>,
    /// The path of the library that was built, or why there is none.
    pub artifact: Result<String, Error>,
}

/// A [`Report`] with its texts as sequences of characters.
pub struct ReportView {
    pub diagnostics: Seq<Seq<char>>,
    pub artifact: Result<Seq<char>, ErrorView>,
}

impl DeepView for Report {
    type V = ReportView;

    open spec fn deep_view(&self) -> ReportView {
        ReportView {
            diagnostics: self.diagnostics.deep_view(),
            artifact: match self.artifact {
                Ok(path) => Ok(path@),
                Err(error) => Err(error.deep_view()),
            },
        }
    }
}

/// One place of the stream of records: the record, or why none could be
/// decoded there.
pub open spec fn records_view(records: Seq<Result<BuildMessage, String>>) -> Seq<
    Result<MessageView, Seq<char>>,
> {
    Seq::new(
        records.len(),
        |i: int|
            match records[i] {
                Ok(message) => Ok(message.deep_view()),
                Err(why) => Err(why@),
            },
    )
}

/// The text by which a user is told of a compiler message: the text as the
/// compiler laid it out, or a line that says that there is none.
pub open spec fn diagnostic_text(rendered: Option<Seq<char>>) -> Seq<char> {
    match rendered {
        Some(text) => text,
        None => "cargo didn't render this message"@,
    }
}

/// The place of the first of `records` that could not be decoded; their
/// number where all could.
pub open spec fn first_failure(records: Seq<Result<MessageView, Seq<char>>>) -> int
    decreases records.len(),
{
    if records.len() == 0 {
        0
    } else {
        let before = first_failure(records.drop_last());
        if before < records.len() - 1 || records.last() is Err {
            before
        } else {
            records.len() as int
        }
    }
}

/// The texts of the compiler messages among `records`, in their order.
pub open spec fn diagnostics_of(records: Seq<Result<MessageView, Seq<char>>>) -> Seq<Seq<char>>
    decreases records.len(),
{
    if records.len() == 0 {
        Seq::empty()
    } else {
        match records.last() {
            Ok(MessageView::Diagnostic(rendered)) => diagnostics_of(records.drop_last()).push(
                diagnostic_text(rendered),
            ),
            _ => diagnostics_of(records.drop_last()),
        }
    }
}

/// The files of the last artifact record among `records`.
pub open spec fn last_artifact(records: Seq<Result<MessageView, Seq<char>>>) -> Option<
    Seq<Seq<char>>,
>
    decreases records.len(),
{
    if records.len() == 0 {
        None
    } else {
        match records.last() {
            Ok(MessageView::Artifact(files)) => Some(files),
            _ => last_artifact(records.drop_last()),
        }
    }
}

/// What a build gave, where the tool printed `records` and said at its exit
/// whether it had succeeded.
///
/// The records count up to the first that could not be decoded. The
/// compiler messages among them are for the user, whatever else happens.
/// A record that could not be decoded is the failure. Otherwise a tool that
/// did not succeed has built nothing, whatever artifacts it recorded. A tool
/// that succeeded has built the first file of its last artifact record; with
/// no such record, or with one that names no file, it has built nothing.
pub open spec fn reading(records: Seq<Result<MessageView, Seq<char>>>, success: bool) -> ReportView {
    let stop = first_failure(records);
    let read = records.take(stop);
    ReportView {
        diagnostics: diagnostics_of(read),
        artifact: if stop < records.len() {
            Err(ErrorView::Json(records[stop]->Err_0))
        } else if !success {
            Err(ErrorView::CargoFail)
        } else {
            match last_artifact(read) {
                Some(files) => if files.len() > 0 {
                    Ok(files[0])
                } else {
                    Err(ErrorView::CargoFail)
                },
                None => Err(ErrorView::CargoFail),
            }
        },
    }
}

/// `first_failure` is the place of a record that could not be decoded,
/// before which every record could.
pub proof fn lemma_first_failure(records: Seq<Result<MessageView, Seq<char>>>)
    ensures
        0 <= first_failure(records) <= records.len(),
        forall|i: int| 0 <= i < first_failure(records) ==> records[i] is Ok,
        first_failure(records) < records.len() ==> records[first_failure(records)] is Err,
    decreases records.len(),
{
    if records.len() > 0 {
        let front = records.drop_last();
        lemma_first_failure(front);
        assert forall|i: int| 0 <= i < first_failure(records) implies records[i] is Ok by {
            if i < front.len() {
                assert(front[i] == records[i]);
            }
        }
        if first_failure(front) < front.len() {
            assert(front[first_failure(front)] == records[first_failure(front)]);
        }
    }
}

/// Whether `record` is an artifact record.
pub open spec fn is_artifact(record: Result<MessageView, Seq<char>>) -> bool {
    record matches Ok(MessageView::Artifact(_))
}

/// The files that an artifact record names.
pub open spec fn files_of(record: Result<MessageView, Seq<char>>) -> Seq<Seq<char>> {
    match record {
        Ok(MessageView::Artifact(files)) => files,
        _ => Seq::empty(),
    }
}

/// Whether the last artifact record of `records` stands at place `i`: one
/// stands there, and none behind it.
pub open spec fn last_artifact_at(records: Seq<Result<MessageView, Seq<char>>>, i: int) -> bool {
    &&& 0 <= i < records.len()
    &&& is_artifact(records[i])
    &&& forall|j: int| i < j < records.len() ==> !is_artifact(#[trigger] records[j])
}

/// `last_artifact` gives the files of the artifact record behind which no
/// other stands, and nothing where there is no artifact record.
pub proof fn lemma_last_artifact(records: Seq<Result<MessageView, Seq<char>>>)
    ensures
        match last_artifact(records) {
            Some(files) => exists|i: int| #[trigger]
                last_artifact_at(records, i) && files_of(records[i]) == files,
            None => forall|j: int| 0 <= j < records.len() ==> !is_artifact(#[trigger] records[j]),
        },
    decreases records.len(),
{
    if records.len() > 0 {
        let front = records.drop_last();
        let n = front.len() as int;
        if is_artifact(records.last()) {
            assert(last_artifact_at(records, n));
        } else {
            lemma_last_artifact(front);
            assert forall|j: int| 0 <= j < n implies front[j] == records[j] by {}
            match last_artifact(front) {
                Some(files) => {
                    let i = choose|i: int| #[trigger]
                        last_artifact_at(front, i) && files_of(front[i]) == files;
                    assert(records[i] == front[i]);
                    assert forall|j: int| i < j < records.len() implies !is_artifact(
                        #[trigger] records[j],
                    ) by {
                        if j < n {
                            assert(front[j] == records[j]);
                        }
                    }
                    assert(last_artifact_at(records, i));
                },
                None => {
                    assert forall|j: int| 0 <= j < records.len() implies !is_artifact(
                        #[trigger] records[j],
                    ) by {
                        if j < n {
                            assert(front[j] == records[j]);
                        }
                    }
                },
            }
        }
    }
}

/// A path is given only where the tool succeeded and every record could be
/// decoded, and then it is the first file of the last artifact record, however
/// many artifact records stand before that one.
pub proof fn lemma_reading_gives_last_artifact(
    records: Seq<Result<MessageView, Seq<char>>>,
    success: bool,
)
    requires
        reading(records, success).artifact is Ok,
    ensures
        success,
        forall|i: int| 0 <= i < records.len() ==> records[i] is Ok,
        exists|i: int| #[trigger]
            last_artifact_at(records, i) && files_of(records[i]).len() > 0 && reading(
                records,
                success,
            ).artifact == Ok::<Seq<char>, ErrorView>(files_of(records[i])[0]),
{
    lemma_first_failure(records);
    assert(records.take(records.len() as int) =~= records);
    lemma_last_artifact(records);
    let files = last_artifact(records)->Some_0;
    let i = choose|i: int| #[trigger]
        last_artifact_at(records, i) && files_of(records[i]) == files;
    assert(last_artifact_at(records, i));
}

/// A tool that did not succeed has built nothing, whatever it recorded: so
/// it is with a request for an example that the tool does not know. Where
/// each of its records could be decoded, the failure is that of the build.
pub proof fn lemma_reading_of_failed_build(records: Seq<Result<MessageView, Seq<char>>>)
    ensures
        reading(records, false).artifact is Err,
        first_failure(records) == records.len() ==> reading(records, false).artifact == Err::<
            Seq<char>,
            ErrorView,
        >(ErrorView::CargoFail),
{
}

/// The text by which a user is told of a compiler message.
pub fn text_of(rendered: &Option<String>) -> (r: String)
    ensures
        r@ == diagnostic_text(rendered.deep_view()),
{
    match rendered {
        Some(text) => text.clone(),
        None => "cargo didn't render this message".to_owned(),
    }
}

/// Reads what a build gave out of the records that the tool printed.
pub fn interpret(records: &Vec<Result<BuildMessage, String>>, success: bool) -> (r: Report)
    ensures
        r.deep_view() == reading(records_view(records@), success),
        !success ==> r.artifact is Err,
{
    let ghost all = records_view(records@);
    let mut diagnostics: Vec<String> = Vec::new();
    let mut artifact: Option<usize> = None;
    let mut i: usize = 0;
    proof {
        assert(all.take(0) =~= Seq::<Result<MessageView, Seq<char>>>::empty());
        assert(diagnostics.deep_view() =~= Seq::<Seq<char>>::empty());
    }
    while i < records.len()
        invariant
            i <= records.len(),
            all == records_view(records@),
            forall|j: int| 0 <= j < i ==> all[j] is Ok,
            diagnostics.deep_view() == diagnostics_of(all.take(i as int)),
            match artifact {
                Some(k) => {
                    &&& k < i
                    &&& all[k as int] matches Ok(MessageView::Artifact(files))
                    &&& last_artifact(all.take(i as int)) == Some(files)
                },
                None => last_artifact(all.take(i as int)) is None,
            },
        decreases records.len() - i,
    {
        proof {
            assert(all.take(i + 1).drop_last() =~= all.take(i as int));
            assert(all.take(i + 1).last() == all[i as int]);
        }
        match &records[i] {
            Err(why) => {
                proof {
                    lemma_first_failure(all);
                    let stop = first_failure(all);
                    if stop < i {
                        assert(all[stop] is Ok);
                    }
                    if stop > i {
                        assert(all[i as int] is Ok);
                    }
                }
                return Report { diagnostics, artifact: Err(Error::Json(why.clone())) };
            },
            Ok(BuildMessage::Diagnostic(rendered)) => {
                let ghost before = diagnostics.deep_view();
                let text = text_of(rendered);
                diagnostics.push(text);
                assert(diagnostics.deep_view() =~= before.push(text@));
            },
            Ok(BuildMessage::Artifact(_)) => {
                artifact = Some(i);
            },
            Ok(BuildMessage::Other) => {},
        }
        i += 1;
    }
    proof {
        lemma_first_failure(all);
        let stop = first_failure(all);
        if stop < all.len() {
            assert(all[stop] is Ok);
        }
        assert(all.take(all.len() as int) =~= all);
    }
    if !success {
        return Report { diagnostics, artifact: Err(Error::CargoFail) };
    }
    let built = match artifact {
        Some(k) => match &records[k] {
            Ok(BuildMessage::Artifact(files)) => {
                if files.len() > 0 {
                    Ok(files[0].clone())
                } else {
                    Err(Error::CargoFail)
                }
            },
            _ => Err(Error::CargoFail),
        },
        None => Err(Error::CargoFail),
    };
    Report { diagnostics, artifact: built }
}

/// The records that the decoder of the build tool's messages reads out of
/// `stdout`, in order: each record that it could decode, and in the place of
/// one that it could not, what it says of the fault.
pub uninterp spec fn message_stream(stdout: Seq<u8>) -> Seq<Result<MessageView, Seq<char>>>;

/// Decodes the records that the build tool printed.
///
/// This calls `cargo_metadata::parse_messages` and walks the stream it gives
/// to its end. What is claimed without proof: the records that come back are
/// those that this decoder reads out of these bytes, and out of the same
/// bytes it reads the same records. Of each record only its kind is kept,
/// with the rendered text of a compiler message and the file names of an
/// artifact.
#[verifier::external_body]
fn read_messages(stdout: &[u8]) -> (r: Vec<Result<BuildMessage, String>>)
    ensures
        records_view(r@) == message_stream(stdout@),
{
    cargo_metadata::parse_messages(stdout)
        .map(|record| match record {
            Ok(Message::CompilerMessage(m)) => Ok(BuildMessage::Diagnostic(m.message.rendered)),
            Ok(Message::CompilerArtifact(a)) => Ok(BuildMessage::Artifact(
                a.filenames.into_iter().map(|p| p.to_string_lossy().into_owned()).collect(),
            )),
            Ok(_) => Ok(BuildMessage::Other),
            Err(e) => Err(e.to_string()),
        })
        .collect()
}

/// Reads what a build gave out of what the tool left behind.
pub fn parse_output(result: &Output) -> (r: Report)
    ensures
        r.deep_view() == reading(message_stream(result.stdout@), result.success),
        !result.success ==> r.artifact is Err,
{
    let records = read_messages(result.stdout.as_slice());
    interpret(&records, result.success)
}

/// Reads what a build gave, where `ran` is what the tool left behind, or
/// why it could not be started. A tool that could not be started has printed
/// nothing; that it could not be started is the failure.
pub fn read_build(ran: &Result<Output, String>) -> (r: Report)
    ensures
        match ran {
            Ok(output) => r.deep_view() == reading(
                message_stream(output.stdout@),
                output.success,
            ),
            Err(why) => r.deep_view() == (ReportView {
                diagnostics: Seq::empty(),
                artifact: Err(ErrorView::Cargo(why@)),
            }),
        },
        ran is Err ==> r.artifact is Err,
        ran matches Ok(output) && !output.success ==> r.artifact is Err,
{
    match ran {
        Ok(output) => parse_output(output),
        Err(why) => {
            let diagnostics: Vec<String> = Vec::new();
            assert(diagnostics.deep_view() =~= Seq::<Seq<char>>::empty());
            Report { diagnostics, artifact: Err(Error::Cargo(why.clone())) }
        },
    }
}

} // verus!
