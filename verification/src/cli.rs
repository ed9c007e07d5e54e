//! The argument classifier: one left-to-right pass that sorts raw tokens into launcher
//! flags, flag values, a project selector and the arguments handed on to the project.

use vstd::prelude::*;
use vstd::string::*;
use crate::text::{same_text, starts_with, strings, tail_from, text_of};

verus! {

/// The launcher's view of one command line.
#[derive(Debug, Clone, PartialEq, Eq)]
pub struct CliArgs {
    /// `--test` was given.
    pub test: bool,
    /// `--build` was given.
    pub build: bool,
    /// `--release` was given.
    pub release: bool,
    /// `None`: no `--release-bin`; `Some(None)`: given without a destination;
    /// `Some(Some(dir))`: given with the destination `dir`.
    pub release_bin: Option<Option<String>>,
    /// The project named by `--project`.
    pub project: Option<String>,
    /// The project named by the first bare token.
    pub project_name: Option<String>,
    /// The tokens handed on to the launched project, in the order in which they came.
    pub project_args: Vec<String>,
}

/// What a command line asks for.
#[derive(Debug, Clone, PartialEq, Eq)]
pub enum Invocation {
    /// Carry out the described command.
    Run(CliArgs),
    /// Show the usage text and stop.
    Help,
    /// Show the version banner and stop.
    Version,
}

/// Why a command line was rejected.
#[derive(Debug, Clone, Copy, PartialEq, Eq)]
pub enum CliError {
    /// `--project` came without a project name.
    MissingProjectName,
}

/// The mathematical value of a `CliArgs`.
pub struct Command {
    pub test: bool,
    pub build: bool,
    pub release: bool,
    pub release_bin: Option<Option<Seq<char>>>,
    pub project: Option<Seq<char>>,
    pub project_name: Option<Seq<char>>,
    pub project_args: Seq<Seq<char>>,
}

/// What the scan has gathered so far: `Command` before the positional project is chosen.
pub struct Gathered {
    pub test: bool,
    pub build: bool,
    pub release: bool,
    pub release_bin: Option<Option<Seq<char>>>,
    pub project: Option<Seq<char>>,
    pub buffer: Seq<Seq<char>>,
}

/// How a scan ends.
pub enum Scanned {
    Done(Gathered),
    Help,
    Version,
    MissingProjectName,
}

/// How a classification ends.
pub enum Parse {
    Run(Command),
    Help,
    Version,
    MissingProjectName,
}

impl View for CliArgs {
    type V = Command;

    open spec fn view(&self) -> Command {
        Command {
            test: self.test,
            build: self.build,
            release: self.release,
            release_bin: match self.release_bin {
                Some(dest) => Some(text_of(dest)),
                None => None,
            },
            project: text_of(self.project),
            project_name: text_of(self.project_name),
            project_args: strings(self.project_args@),
        }
    }
}

impl CliArgs {
    /// A command names its project in one way at most: where `--project` names it, no
    /// positional project is kept beside it.
    pub open spec fn well_formed(&self) -> bool {
        !(self.project is Some && self.project_name is Some)
    }

    /// What has been gathered when the forwarded tokens are still the provisional buffer.
    pub open spec fn gathered(&self) -> Gathered {
        Gathered {
            test: self.test,
            build: self.build,
            release: self.release,
            release_bin: self@.release_bin,
            project: self@.project,
            buffer: self@.project_args,
        }
    }
}

impl Default for CliArgs {
    fn default() -> (out: Self)
        ensures
            out@ == nothing(),
            out.gathered() == start(),
            out.well_formed(),
    {
        let out = CliArgs {
            test: false,
            build: false,
            release: false,
            release_bin: None,
            project: None,
            project_name: None,
            project_args: Vec::new(),
        };
        proof {
            assert(out@.project_args =~= Seq::empty());
        }
        out
    }
}

impl CliError {
    /// The text shown to the user for this error.
    pub fn message(&self) -> (out: String)
        ensures
            out@ == "Missing project name after --project"@,
    {
        "Missing project name after --project".to_owned()
    }
}

/// The command that asks for nothing.
pub open spec fn nothing() -> Command {
    Command {
        test: false,
        build: false,
        release: false,
        release_bin: None,
        project: None,
        project_name: None,
        project_args: Seq::empty(),
    }
}

/// The state in which a scan begins.
pub open spec fn start() -> Gathered {
    Gathered {
        test: false,
        build: false,
        release: false,
        release_bin: None,
        project: None,
        buffer: Seq::empty(),
    }
}

/// Whether `t` looks like a long option.
pub open spec fn is_long(t: Seq<char>) -> bool {
    "--"@.is_prefix_of(t)
}

/// What follows `prefix` in a token that begins with it.
pub open spec fn after(t: Seq<char>, prefix: Seq<char>) -> Seq<char> {
    t.skip(prefix.len() as int)
}

/// Whether `t` is one of the two spellings of the project override.
pub open spec fn is_project_flag(t: Seq<char>) -> bool {
    t == "--project"@ || "--project="@.is_prefix_of(t)
}

/// Whether `t` asks for the usage text or the version banner.
pub open spec fn is_exit_flag(t: Seq<char>) -> bool {
    t == "-h"@ || t == "--help"@ || t == "-V"@ || t == "--version"@
}

/// Whether `t` carries no meaning for the launcher and is handed on as it is.
pub open spec fn is_plain(t: Seq<char>) -> bool {
    &&& t != "--"@
    &&& !is_exit_flag(t)
    &&& t != "--test"@
    &&& t != "--build"@
    &&& t != "--release"@
    &&& t != "--release-bin"@
    &&& !"--release-bin="@.is_prefix_of(t)
    &&& !is_project_flag(t)
}

/// Whether the token at `i` is a bare `--release-bin` that takes the next token as its
/// destination.
pub open spec fn takes_destination(tokens: Seq<Seq<char>>, i: int) -> bool {
    i + 1 < tokens.len() && !is_long(tokens[i + 1])
}

/// The scan of `tokens` from index `i` on, with `g` gathered from the tokens before it.
pub open spec fn scan(tokens: Seq<Seq<char>>, i: int, g: Gathered) -> Scanned
    decreases tokens.len() - i,
{
    if i < 0 || i >= tokens.len() {
        Scanned::Done(g)
    } else {
        let t = tokens[i];
        if t == "--"@ {
            Scanned::Done(Gathered { buffer: g.buffer + tokens.skip(i + 1), ..g })
        } else if t == "-h"@ || t == "--help"@ {
            Scanned::Help
        } else if t == "-V"@ || t == "--version"@ {
            Scanned::Version
        } else if t == "--test"@ {
            scan(tokens, i + 1, Gathered { test: true, ..g })
        } else if t == "--build"@ {
            scan(tokens, i + 1, Gathered { build: true, ..g })
        } else if t == "--release"@ {
            scan(tokens, i + 1, Gathered { release: true, ..g })
        } else if "--release-bin="@.is_prefix_of(t) {
            let dest = after(t, "--release-bin="@);
            let given = if dest.len() == 0 {
                None
            } else {
                Some(dest)
            };
            scan(tokens, i + 1, Gathered { release_bin: Some(given), ..g })
        } else if t == "--release-bin"@ {
            if takes_destination(tokens, i) {
                scan(tokens, i + 2, Gathered { release_bin: Some(Some(tokens[i + 1])), ..g })
            } else {
                scan(tokens, i + 1, Gathered { release_bin: Some(None), ..g })
            }
        } else if "--project="@.is_prefix_of(t) {
            let name = after(t, "--project="@);
            if name.len() == 0 {
                Scanned::MissingProjectName
            } else {
                scan(tokens, i + 1, Gathered { project: Some(name), ..g })
            }
        } else if t == "--project"@ {
            if i + 1 < tokens.len() {
                scan(tokens, i + 2, Gathered { project: Some(tokens[i + 1]), ..g })
            } else {
                Scanned::MissingProjectName
            }
        } else {
            scan(tokens, i + 1, Gathered { buffer: g.buffer.push(t), ..g })
        }
    }
}

/// Whether the head of the buffer becomes the positional project.
pub open spec fn promotes(g: Gathered) -> bool {
    g.project is None && g.buffer.len() > 0 && !is_long(g.buffer[0])
}

/// The command that a finished scan describes.
pub open spec fn settle(g: Gathered) -> Command {
    Command {
        test: g.test,
        build: g.build,
        release: g.release,
        release_bin: g.release_bin,
        project: g.project,
        project_name: if promotes(g) {
            Some(g.buffer[0])
        } else {
            None
        },
        project_args: if promotes(g) {
            g.buffer.skip(1)
        } else {
            g.buffer
        },
    }
}

/// The classification of a whole token stream.
pub open spec fn classify(tokens: Seq<Seq<char>>) -> Parse {
    match scan(tokens, 0, start()) {
        Scanned::Done(g) => Parse::Run(settle(g)),
        Scanned::Help => Parse::Help,
        Scanned::Version => Parse::Version,
        Scanned::MissingProjectName => Parse::MissingProjectName,
    }
}

/// The mathematical value of what `parse_args_from` returns.
pub open spec fn parse_of(r: Result<Invocation, CliError>) -> Parse {
    match r {
        Ok(Invocation::Run(args)) => Parse::Run(args@),
        Ok(Invocation::Help) => Parse::Help,
        Ok(Invocation::Version) => Parse::Version,
        Err(CliError::MissingProjectName) => Parse::MissingProjectName,
    }
}

/// Chooses the positional project once every token has been seen.
fn finish(config: CliArgs) -> (out: CliArgs)
    requires
        config.project_name is None,
    ensures
        out@ == settle(config.gathered()),
{
    let mut config = config;
    let ghost before = config.gathered();
    if config.project.is_none() && config.project_args.len() > 0 && !starts_with(
        config.project_args[0].as_str(),
        "--",
    ) {
        let head = config.project_args.remove(0);
        config.project_name = Some(head);
        proof {
            assert(config@.project_args =~= before.buffer.skip(1));
        }
    }
    config
}

/// Classifies the tokens of a command line, the program's own name left out.
///
/// The tokens are read once from left to right. Up to a `--`, launcher flags are taken
/// out and every other token is kept for the project; after it, every token is kept.
/// Without a `--project`, the first kept token becomes the positional project unless it
/// begins with `--`.
pub fn parse_args_from(args: Vec<String>) -> (r: Result<Invocation, CliError>)
    ensures
        parse_of(r) == classify(strings(args@)),
        r matches Ok(Invocation::Run(c)) ==> c.well_formed(),
{
    let ghost tokens = strings(args@);
    let n: usize = args.len();
    let mut config = CliArgs::default();
    let mut i: usize = 0;
    while i < n
        invariant
            i <= n,
            n == args@.len(),
            tokens == strings(args@),
            config.project_name is None,
            scan(tokens, i as int, config.gathered()) == scan(tokens, 0, start()),
        decreases n - i,
    {
        let arg: &str = args[i].as_str();
        let ghost g = config.gathered();
        assert(arg@ == tokens[i as int]);
        if same_text(arg, "--") {
            let mut j: usize = i + 1;
            while j < n
                invariant
                    i < j <= n,
                    n == args@.len(),
                    tokens == strings(args@),
                    config.project_name is None,
                    config.gathered() == (Gathered {
                        buffer: g.buffer + tokens.subrange(i as int + 1, j as int),
                        ..g
                    }),
                decreases n - j,
            {
                let ghost buffer = config@.project_args;
                config.project_args.push(args[j].clone());
                proof {
                    assert(config@.project_args =~= buffer.push(tokens[j as int]));
                    assert(config@.project_args =~= g.buffer + tokens.subrange(
                        i as int + 1,
                        j as int + 1,
                    ));
                }
                j += 1;
            }
            proof {
                assert(tokens.subrange(i as int + 1, n as int) =~= tokens.skip(i as int + 1));
            }
            return Ok(Invocation::Run(finish(config)));
        } else if same_text(arg, "-h") || same_text(arg, "--help") {
            return Ok(Invocation::Help);
        } else if same_text(arg, "-V") || same_text(arg, "--version") {
            return Ok(Invocation::Version);
        } else if same_text(arg, "--test") {
            config.test = true;
            i += 1;
        } else if same_text(arg, "--build") {
            config.build = true;
            i += 1;
        } else if same_text(arg, "--release") {
            config.release = true;
            i += 1;
        } else if starts_with(arg, "--release-bin=") {
            let dest = tail_from(arg, "--release-bin=".unicode_len());
            config.release_bin = if dest.as_str().unicode_len() == 0 {
                Some(None)
            } else {
                Some(Some(dest))
            };
            i += 1;
        } else if same_text(arg, "--release-bin") {
            if i + 1 < n && !starts_with(args[i + 1].as_str(), "--") {
                config.release_bin = Some(Some(args[i + 1].clone()));
                i += 2;
            } else {
                config.release_bin = Some(None);
                i += 1;
            }
        } else if starts_with(arg, "--project=") {
            let name = tail_from(arg, "--project=".unicode_len());
            if name.as_str().unicode_len() == 0 {
                return Err(CliError::MissingProjectName);
            }
            config.project = Some(name);
            i += 1;
        } else if same_text(arg, "--project") {
            if i + 1 >= n {
                return Err(CliError::MissingProjectName);
            }
            config.project = Some(args[i + 1].clone());
            i += 2;
        } else {
            let ghost buffer = config@.project_args;
            config.project_args.push(args[i].clone());
            proof {
                assert(config@.project_args =~= buffer.push(tokens[i as int]));
            }
            i += 1;
        }
    }
    Ok(Invocation::Run(finish(config)))
}

/// The tokens from index `i` on that are handed on to the project, provided that the
/// scan runs to its end.
pub open spec fn forwards(tokens: Seq<Seq<char>>, i: int) -> Seq<Seq<char>>
    decreases tokens.len() - i,
{
    if i < 0 || i >= tokens.len() {
        Seq::empty()
    } else {
        let t = tokens[i];
        if t == "--"@ {
            tokens.skip(i + 1)
        } else if is_plain(t) {
            seq![t] + forwards(tokens, i + 1)
        } else if (t == "--release-bin"@ && takes_destination(tokens, i)) || (t == "--project"@ && i
            + 1 < tokens.len()) {
            forwards(tokens, i + 2)
        } else {
            forwards(tokens, i + 1)
        }
    }
}

/// Whether `a` can be had from `b` by leaving elements out, the rest unchanged and in
/// order.
pub open spec fn is_subsequence(a: Seq<Seq<char>>, b: Seq<Seq<char>>) -> bool
    decreases b.len(),
{
    a.len() == 0 || (b.len() > 0 && ((a[0] == b[0] && is_subsequence(a.skip(1), b.skip(1)))
        || is_subsequence(a, b.skip(1))))
}

/// Every sequence is a subsequence of itself.
pub proof fn lemma_subsequence_reflexive(a: Seq<Seq<char>>)
    ensures
        is_subsequence(a, a),
    decreases a.len(),
{
    if a.len() > 0 {
        lemma_subsequence_reflexive(a.skip(1));
    }
}

/// A subsequence stays one when its first element is left out.
pub proof fn lemma_subsequence_without_head(a: Seq<Seq<char>>, b: Seq<Seq<char>>)
    requires
        is_subsequence(a, b),
        a.len() > 0,
    ensures
        is_subsequence(a.skip(1), b),
    decreases b.len(),
{
    if !(a[0] == b[0] && is_subsequence(a.skip(1), b.skip(1))) {
        lemma_subsequence_without_head(a, b.skip(1));
    }
}

/// The spellings of the launcher's flags differ from one another, and none of the
/// flags that stand alone begins with `--release-bin=` or `--project=`.
pub proof fn lemma_spellings_differ()
    ensures
        "--test"@ != "--release-bin"@,
        "--test"@ != "--project"@,
        "--build"@ != "--release-bin"@,
        "--build"@ != "--project"@,
        "--release"@ != "--release-bin"@,
        "--release"@ != "--project"@,
        "--release-bin"@ != "--project"@,
        !"--release-bin="@.is_prefix_of("--release-bin"@),
        !"--release-bin="@.is_prefix_of("--project"@),
        !"--project="@.is_prefix_of("--project"@),
{
    reveal_strlit("--test");
    reveal_strlit("--build");
    reveal_strlit("--release");
    reveal_strlit("--release-bin");
    reveal_strlit("--release-bin=");
    reveal_strlit("--project");
    reveal_strlit("--project=");
    assert("--test"@.len() == 6 && "--build"@.len() == 7 && "--release"@.len() == 9);
    assert("--release-bin"@.len() == 13 && "--project"@.len() == 9);
    assert("--release"@[2] != "--project"@[2]);
    if "--release-bin="@.is_prefix_of("--project"@) {
        assert("--project"@.subrange(0, 14).len() == 14);
    }
}

/// A finished scan has appended to its buffer exactly the tokens that `forwards` names.
pub proof fn lemma_scan_buffer(tokens: Seq<Seq<char>>, i: int, g: Gathered)
    requires
        0 <= i,
    ensures
        scan(tokens, i, g) matches Scanned::Done(s) ==> s.buffer == g.buffer + forwards(tokens, i),
    decreases tokens.len() - i,
{
    lemma_spellings_differ();
    if i >= tokens.len() {
        assert(g.buffer + forwards(tokens, i) =~= g.buffer);
    } else {
        let t = tokens[i];
        if t == "--"@ {
        } else if t == "-h"@ || t == "--help"@ || t == "-V"@ || t == "--version"@ {
        } else if t == "--test"@ {
            lemma_scan_buffer(tokens, i + 1, Gathered { test: true, ..g });
        } else if t == "--build"@ {
            lemma_scan_buffer(tokens, i + 1, Gathered { build: true, ..g });
        } else if t == "--release"@ {
            lemma_scan_buffer(tokens, i + 1, Gathered { release: true, ..g });
        } else if "--release-bin="@.is_prefix_of(t) {
            let dest = after(t, "--release-bin="@);
            let given = if dest.len() == 0 {
                None
            } else {
                Some(dest)
            };
            lemma_scan_buffer(tokens, i + 1, Gathered { release_bin: Some(given), ..g });
        } else if t == "--release-bin"@ {
            if takes_destination(tokens, i) {
                lemma_scan_buffer(
                    tokens,
                    i + 2,
                    Gathered { release_bin: Some(Some(tokens[i + 1])), ..g },
                );
            } else {
                lemma_scan_buffer(tokens, i + 1, Gathered { release_bin: Some(None), ..g });
            }
        } else if "--project="@.is_prefix_of(t) {
            let name = after(t, "--project="@);
            if name.len() != 0 {
                lemma_scan_buffer(tokens, i + 1, Gathered { project: Some(name), ..g });
            }
        } else if t == "--project"@ {
            if i + 1 < tokens.len() {
                lemma_scan_buffer(tokens, i + 2, Gathered { project: Some(tokens[i + 1]), ..g });
            }
        } else {
            let next = Gathered { buffer: g.buffer.push(t), ..g };
            lemma_scan_buffer(tokens, i + 1, next);
            assert(next.buffer + forwards(tokens, i + 1) =~= g.buffer + forwards(tokens, i));
        }
    }
}

/// A scan that meets no `--project` never fails and leaves the explicit project as it
/// found it.
pub proof fn lemma_scan_without_project(tokens: Seq<Seq<char>>, i: int, g: Gathered)
    requires
        0 <= i,
        forall|j: int| i <= j < tokens.len() ==> !is_project_flag(#[trigger] tokens[j]),
    ensures
        !(scan(tokens, i, g) is MissingProjectName),
        scan(tokens, i, g) matches Scanned::Done(s) ==> s.project == g.project,
    decreases tokens.len() - i,
{
    if i < tokens.len() {
        let t = tokens[i];
        assert(!is_project_flag(t));
        if t == "--"@ {
        } else if t == "-h"@ || t == "--help"@ || t == "-V"@ || t == "--version"@ {
        } else if t == "--test"@ {
            lemma_scan_without_project(tokens, i + 1, Gathered { test: true, ..g });
        } else if t == "--build"@ {
            lemma_scan_without_project(tokens, i + 1, Gathered { build: true, ..g });
        } else if t == "--release"@ {
            lemma_scan_without_project(tokens, i + 1, Gathered { release: true, ..g });
        } else if "--release-bin="@.is_prefix_of(t) {
            let dest = after(t, "--release-bin="@);
            let given = if dest.len() == 0 {
                None
            } else {
                Some(dest)
            };
            lemma_scan_without_project(tokens, i + 1, Gathered { release_bin: Some(given), ..g });
        } else if t == "--release-bin"@ {
            if takes_destination(tokens, i) {
                lemma_scan_without_project(
                    tokens,
                    i + 2,
                    Gathered { release_bin: Some(Some(tokens[i + 1])), ..g },
                );
            } else {
                lemma_scan_without_project(
                    tokens,
                    i + 1,
                    Gathered { release_bin: Some(None), ..g },
                );
            }
        } else {
            lemma_scan_without_project(tokens, i + 1, Gathered { buffer: g.buffer.push(t), ..g });
        }
    }
}

/// What `forwards` names from index `i` on is a subsequence of the tokens from `i` on.
pub proof fn lemma_forwards_in_order(tokens: Seq<Seq<char>>, i: int)
    requires
        0 <= i <= tokens.len(),
    ensures
        is_subsequence(forwards(tokens, i), tokens.skip(i)),
    decreases tokens.len() - i,
{
    if i < tokens.len() {
        let t = tokens[i];
        let here = tokens.skip(i);
        assert(here.skip(1) =~= tokens.skip(i + 1));
        assert(here[0] == t);
        if t == "--"@ {
            lemma_subsequence_reflexive(tokens.skip(i + 1));
        } else if is_plain(t) {
            lemma_forwards_in_order(tokens, i + 1);
            assert(forwards(tokens, i).skip(1) =~= forwards(tokens, i + 1));
        } else if (t == "--release-bin"@ && takes_destination(tokens, i)) || (t == "--project"@ && i
            + 1 < tokens.len()) {
            lemma_forwards_in_order(tokens, i + 2);
            assert(here.skip(1).skip(1) =~= tokens.skip(i + 2));
            assert(is_subsequence(forwards(tokens, i + 2), here.skip(1)));
        } else {
            lemma_forwards_in_order(tokens, i + 1);
        }
    }
}

/// A token that does not begin with `--` is handed on, unless it is `-h` or `-V`.
pub proof fn lemma_short_tokens_are_plain(t: Seq<char>)
    requires
        !is_long(t),
    ensures
        is_plain(t) || t == "-h"@ || t == "-V"@,
{
    reveal_strlit("--");
    reveal_strlit("--help");
    reveal_strlit("--version");
    reveal_strlit("--test");
    reveal_strlit("--build");
    reveal_strlit("--release");
    reveal_strlit("--release-bin");
    reveal_strlit("--release-bin=");
    reveal_strlit("--project");
    reveal_strlit("--project=");
    if t.len() >= 2 && t[0] == '-' && t[1] == '-' {
        assert("--"@ =~= t.subrange(0, 2));
    }
    if "--release-bin="@.is_prefix_of(t) {
        assert(t.subrange(0, "--release-bin="@.len() as int)[0] == '-');
        assert(t.subrange(0, "--release-bin="@.len() as int)[1] == '-');
    }
    if "--project="@.is_prefix_of(t) {
        assert(t.subrange(0, "--project="@.len() as int)[0] == '-');
        assert(t.subrange(0, "--project="@.len() as int)[1] == '-');
    }
}

/// Where no token is a `--project` flag and the first token does not begin with `--`,
/// a command line that asks for neither the usage text nor the version is accepted,
/// its first token is the positional project, and the forwarded arguments are the
/// handed-on tokens of the rest of the line: the first token is among them no more.
pub proof fn lemma_first_token_is_project(tokens: Seq<Seq<char>>)
    requires
        tokens.len() > 0,
        !is_long(tokens[0]),
        forall|j: int| 0 <= j < tokens.len() ==> !is_project_flag(#[trigger] tokens[j]),
        !(classify(tokens) is Help),
        !(classify(tokens) is Version),
    ensures
        classify(tokens) matches Parse::Run(c) && c.project is None && c.project_name == Some(
            tokens[0],
        ) && c.project_args == forwards(tokens, 1) && forwards(tokens, 0) == seq![tokens[0]]
            + c.project_args,
{
    let t = tokens[0];
    lemma_short_tokens_are_plain(t);
    let first = Gathered { buffer: start().buffer.push(t), ..start() };
    assert(scan(tokens, 0, start()) == scan(tokens, 1, first));
    lemma_scan_buffer(tokens, 1, first);
    lemma_scan_without_project(tokens, 1, first);
    let s = scan(tokens, 1, first)->Done_0;
    assert(s.buffer =~= seq![t] + forwards(tokens, 1));
    assert(s.buffer.skip(1) =~= forwards(tokens, 1));
}

/// The forwarded arguments of an accepted command line are tokens of that line,
/// unchanged and in the order in which they came; together with the positional project, where
/// there is one, they are exactly the handed-on tokens of the line.
pub proof fn lemma_forwarded_in_order(tokens: Seq<Seq<char>>)
    ensures
        classify(tokens) matches Parse::Run(c) ==> {
            &&& is_subsequence(c.project_args, tokens)
            &&& forwards(tokens, 0) == match c.project_name {
                Some(name) => seq![name] + c.project_args,
                None => c.project_args,
            }
        },
{
    lemma_scan_buffer(tokens, 0, start());
    lemma_forwards_in_order(tokens, 0);
    assert(tokens.skip(0) =~= tokens);
    if let Scanned::Done(g) = scan(tokens, 0, start()) {
        assert(g.buffer =~= forwards(tokens, 0));
        if promotes(g) {
            lemma_subsequence_without_head(g.buffer, tokens);
            assert(g.buffer =~= seq![g.buffer[0]] + g.buffer.skip(1));
        }
    }
}

/// Once `--project` has named a project, no positional project is chosen.
pub proof fn lemma_explicit_excludes_positional(tokens: Seq<Seq<char>>)
    ensures
        classify(tokens) matches Parse::Run(c) ==> !(c.project is Some && c.project_name is Some),
{
}

/// A `--` ends the reading of flags: whatever the scan has gathered when it reaches the
/// separator stays as it is, and every later token is handed on, flags among them.
pub proof fn lemma_separator_forwards_rest(tokens: Seq<Seq<char>>, i: int, g: Gathered)
    requires
        0 <= i < tokens.len(),
        tokens[i] == "--"@,
    ensures
        scan(tokens, i, g) == Scanned::Done(
            Gathered { buffer: g.buffer + tokens.skip(i + 1), ..g },
        ),
        forwards(tokens, i) == tokens.skip(i + 1),
{
}

/// Any arguments reach a named project as they are: behind `--project`, a name and
/// `--`, every token is forwarded, unchanged and in order, and nothing else is asked for.
pub proof fn lemma_forwarding_round_trip(name: Seq<char>, args: Seq<Seq<char>>)
    ensures
        classify(seq!["--project"@, name, "--"@] + args) == Parse::Run(
            Command { project: Some(name), project_args: args, ..nothing() },
        ),
{
    let tokens = seq!["--project"@, name, "--"@] + args;
    reveal_strlit("--");
    reveal_strlit("-h");
    reveal_strlit("-V");
    reveal_strlit("--help");
    reveal_strlit("--version");
    reveal_strlit("--test");
    reveal_strlit("--build");
    reveal_strlit("--release");
    reveal_strlit("--release-bin");
    reveal_strlit("--release-bin=");
    reveal_strlit("--project");
    reveal_strlit("--project=");
    let flag = "--project"@;
    assert(flag.len() == 9);
    assert(flag[2] == 'p');
    assert(tokens[0] == flag);
    assert(tokens[1] == name);
    assert(tokens[2] == "--"@);
    let named = Gathered { project: Some(name), ..start() };
    assert(scan(tokens, 0, start()) == scan(tokens, 2, named));
    assert(tokens.skip(3) =~= args);
    assert(named.buffer + tokens.skip(3) =~= args);
}

} // verus!
