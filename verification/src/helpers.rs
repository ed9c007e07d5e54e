//! What the launcher asks of a manifest and decides about a project, from plain values:
//! reading files and running commands is left to the caller.

use vstd::prelude::*;
use vstd::string::*;
use crate::artifact::{artifact, name_result, resolve_artifact};
use crate::cli::CliArgs;
use crate::manifest::{parse_manifest, profile_of, Failure, ResolveError};
use crate::text::{same_text, strings, text_of};

verus! {

/// Where a project's directory is looked for.
#[derive(Debug, Clone, Copy, PartialEq, Eq)]
pub enum ProjectDir {
    /// The working directory is the project.
    Current,
    /// The project lies under its name in the projects directory of the user's home.
    UnderHome,
}

/// What the launcher does with the chosen project.
#[derive(Debug, Clone, PartialEq, Eq)]
pub enum Action {
    /// Run the project's tests.
    Test,
    /// Build the project.
    Build,
    /// Build the project in release mode.
    Release,
    /// Build in release mode and copy the binary, to the given directory if there is one.
    ReleaseBin(Option<String>),
    /// Build in release mode and run the binary with the forwarded arguments.
    Run,
}

/// The launcher was asked to launch itself.
#[derive(Debug, Clone, PartialEq, Eq)]
pub struct SelfRunError {
    /// The launcher's own name.
    pub app_name: String,
}

impl SelfRunError {
    /// The text shown to the user for this error.
    pub fn message(&self) -> (out: String)
        ensures
            out@ == "Cannot run "@ + self.app_name@
                + " on itself - this would cause infinite recursion"@,
    {
        let mut out = "Cannot run ".to_owned();
        out.append(self.app_name.as_str());
        out.append(" on itself - this would cause infinite recursion");
        out
    }
}

/// The view of an optional string slice.
pub open spec fn slice_text(o: Option<&str>) -> Option<Seq<char>> {
    match o {
        Some(s) => Some(s@),
        None => None,
    }
}

/// The package name that the manifest `text` declares.
pub open spec fn package_name_of(text: Seq<char>) -> Result<Seq<char>, Failure> {
    match profile_of(text) {
        Ok(p) => Ok(p.package_name),
        Err(e) => Err(e),
    }
}

/// The binary that the launcher runs for the package with the manifest `text`.
pub open spec fn binary_name_of(text: Seq<char>, entry_exists: bool) -> Result<
    Seq<char>,
    Failure,
> {
    match profile_of(text) {
        Ok(p) => artifact(p, entry_exists),
        Err(e) => Err(e),
    }
}

/// Whether the launcher would launch itself: it is named as the project, or no project
/// is named and the working directory holds the launcher's own package.
pub open spec fn is_self_run(
    app_name: Seq<char>,
    explicit: Option<Seq<char>>,
    positional: Option<Seq<char>>,
    current: Option<Seq<char>>,
) -> bool {
    explicit == Some(app_name) || positional == Some(app_name) || (explicit is None
        && positional is None && current == Some(app_name))
}

/// The project that a command line means: the one that `--project` names, else the
/// positional one, else the package of the working directory.
pub open spec fn chosen_project(
    explicit: Option<Seq<char>>,
    positional: Option<Seq<char>>,
    current: Option<Seq<char>>,
) -> Option<Seq<char>> {
    if explicit is Some {
        explicit
    } else if positional is Some {
        positional
    } else {
        current
    }
}

/// The mathematical value of an `Action`.
pub enum Plan {
    Test,
    Build,
    Release,
    ReleaseBin(Option<Seq<char>>),
    Run,
}

impl View for Action {
    type V = Plan;

    open spec fn view(&self) -> Plan {
        match self {
            Action::Test => Plan::Test,
            Action::Build => Plan::Build,
            Action::Release => Plan::Release,
            Action::ReleaseBin(dest) => Plan::ReleaseBin(text_of(*dest)),
            Action::Run => Plan::Run,
        }
    }
}

/// The one action of a command: the first of test, build, release and release with a
/// copy that was asked for, else a run.
pub open spec fn plan_of(
    test: bool,
    build: bool,
    release: bool,
    release_bin: Option<Option<Seq<char>>>,
) -> Plan {
    if test {
        Plan::Test
    } else if build {
        Plan::Build
    } else if release {
        Plan::Release
    } else {
        match release_bin {
            Some(dest) => Plan::ReleaseBin(dest),
            None => Plan::Run,
        }
    }
}

/// The name of the package that the manifest `contents` declares in its `[package]`
/// section.
pub fn get_package_name(contents: &str) -> (r: Result<String, ResolveError>)
    ensures
        name_result(r) == package_name_of(contents@),
{
    match parse_manifest(contents) {
        Ok(profile) => Ok(profile.package_name),
        Err(e) => Err(e),
    }
}

/// The name of the binary that the launcher builds and runs for the package with the
/// manifest `contents`; `entry_exists` says whether the package has a `src/main.rs`.
pub fn get_binary_name(contents: &str, entry_exists: bool) -> (r: Result<String, ResolveError>)
    ensures
        name_result(r) == binary_name_of(contents@, entry_exists),
{
    match parse_manifest(contents) {
        Ok(profile) => resolve_artifact(&profile, entry_exists),
        Err(e) => Err(e),
    }
}

/// Whether `name` is given and is `wanted`.
fn is_named(name: Option<&str>, wanted: &str) -> (b: bool)
    ensures
        b == (slice_text(name) == Some(wanted@)),
{
    match name {
        Some(n) => same_text(n, wanted),
        None => false,
    }
}

/// Refuses to launch the launcher itself. `current` is the package of the working
/// directory, where it holds one.
pub fn check_self_run(
    app_name: &str,
    explicit: Option<&str>,
    positional: Option<&str>,
    current: Option<&str>,
) -> (r: Result<(), SelfRunError>)
    ensures
        r is Err <==> is_self_run(
            app_name@,
            slice_text(explicit),
            slice_text(positional),
            slice_text(current),
        ),
        r matches Err(e) ==> e.app_name@ == app_name@,
{
    if is_named(explicit, app_name) || is_named(positional, app_name) || (explicit.is_none()
        && positional.is_none() && is_named(current, app_name)) {
        Err(SelfRunError { app_name: app_name.to_owned() })
    } else {
        Ok(())
    }
}

/// Where the project `project_name` is looked for: in the working directory where that
/// holds the package of this name, else under the user's home. `current` is the package
/// of the working directory, where it holds one.
pub fn find_project_dir(project_name: &str, current: Option<&str>) -> (r: ProjectDir)
    ensures
        r is Current <==> slice_text(current) == Some(project_name@),
{
    if is_named(current, project_name) {
        ProjectDir::Current
    } else {
        ProjectDir::UnderHome
    }
}

/// The project that the command `args` means; `current` is the package of the working
/// directory, where it holds one.
pub fn select_project(args: &CliArgs, current: Option<String>) -> (r: Option<String>)
    ensures
        text_of(r) == chosen_project(args@.project, args@.project_name, text_of(current)),
{
    match &args.project {
        Some(name) => Some(name.clone()),
        None => match &args.project_name {
            Some(name) => Some(name.clone()),
            None => current,
        },
    }
}

/// The one action that the command `args` asks for.
pub fn select_action(args: &CliArgs) -> (r: Action)
    ensures
        r@ == plan_of(args@.test, args@.build, args@.release, args@.release_bin),
{
    if args.test {
        Action::Test
    } else if args.build {
        Action::Build
    } else if args.release {
        Action::Release
    } else {
        match &args.release_bin {
            Some(Some(dest)) => Action::ReleaseBin(Some(dest.clone())),
            Some(None) => Action::ReleaseBin(None),
            None => Action::Run,
        }
    }
}

/// The arguments that the build tool gets for a plan: `test` for a test run, `build`
/// for a build, and `build --release` for everything that needs a release binary.
pub open spec fn build_arguments(plan: Plan) -> Seq<Seq<char>> {
    match plan {
        Plan::Test => seq!["test"@],
        Plan::Build => seq!["build"@],
        _ => seq!["build"@, "--release"@],
    }
}

/// The arguments with which the build tool is run for `action`.
pub fn cargo_arguments(action: &Action) -> (r: Vec<String>)
    ensures
        strings(r@) == build_arguments(action@),
{
    let mut out: Vec<String> = Vec::new();
    match action {
        Action::Test => {
            out.push("test".to_owned());
        },
        Action::Build => {
            out.push("build".to_owned());
        },
        _ => {
            out.push("build".to_owned());
            out.push("--release".to_owned());
        },
    }
    proof {
        assert(strings(out@) =~= build_arguments(action@));
    }
    out
}

/// The file name of the binary `binary_name` on a platform whose executables end in
/// `extension`.
pub fn binary_file_name(binary_name: &str, extension: &str) -> (r: String)
    ensures
        r@ == binary_name@ + extension@,
{
    let mut out = binary_name.to_owned();
    out.append(extension);
    out
}

/// The line that introduces the launcher: its name, version and build stamp.
pub fn banner(app_name: &str, version: &str, build: &str) -> (r: String)
    ensures
        r@ == app_name@ + " v"@ + version@ + " (build "@ + build@ + ")"@,
{
    let mut out = app_name.to_owned();
    out.append(" v");
    out.append(version);
    out.append(" (build ");
    out.append(build);
    out.append(")");
    out
}

} // verus!
