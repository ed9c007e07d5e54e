//! The manifest scanner: a line-by-line reading of a project's manifest that keeps the
//! package's name and what the manifest declares about its binary targets.

use vstd::prelude::*;
use vstd::slice::slice_subrange;
use vstd::string::*;
use crate::text::{
    chars_of, find, lemma_position_after, position, spells, text_of, trim, trim_left, trim_start,
    trimmed,
};

verus! {

/// The part of the manifest that a line belongs to.
#[derive(Debug, Clone, Copy, PartialEq, Eq)]
pub enum Section {
    /// Before the first header, or under a header that is not read.
    Outside,
    /// Under `[package]`.
    Package,
    /// Under the latest `[[bin]]`.
    Bin,
}

/// One declared binary target.
#[derive(Debug, Clone, PartialEq, Eq)]
pub struct BinTarget {
    /// The target's `name`, where the record gives one.
    pub name: Option<String>,
    /// The target's `path`, where the record gives one.
    pub path: Option<String>,
}

/// What a manifest says about its package and the binaries it builds.
#[derive(Debug, Clone, PartialEq, Eq)]
pub struct ManifestProfile {
    /// The package's name.
    pub package_name: String,
    /// The binary that the manifest names as the one to run.
    pub default_run: Option<String>,
    /// Whether a conventional entry point makes a binary named after the package.
    pub autobins: bool,
    /// The declared binary targets, in the order of their records.
    pub bins: Vec<BinTarget>,
}

/// Why a manifest gave no answer.
#[derive(Debug, Clone, PartialEq, Eq)]
pub enum ResolveError {
    /// The manifest has no package name.
    MissingPackageName,
    /// The manifest declares several binaries and nothing singles one out.
    AmbiguousBinaries { package: String },
}

/// The mathematical value of a `BinTarget`.
pub struct Bin {
    pub name: Option<Seq<char>>,
    pub path: Option<Seq<char>>,
}

/// The mathematical value of a `ManifestProfile`.
pub struct Profile {
    pub package_name: Seq<char>,
    pub default_run: Option<Seq<char>>,
    pub autobins: bool,
    pub bins: Seq<Bin>,
}

/// The mathematical value of a `ResolveError`.
pub enum Failure {
    MissingPackageName,
    AmbiguousBinaries(Seq<char>),
}

/// What has been read of a manifest after some of its lines.
pub struct Draft {
    pub section: Section,
    pub package_name: Option<Seq<char>>,
    pub default_run: Option<Seq<char>>,
    pub autobins: bool,
    pub bins: Seq<Bin>,
}

impl View for BinTarget {
    type V = Bin;

    open spec fn view(&self) -> Bin {
        Bin { name: text_of(self.name), path: text_of(self.path) }
    }
}

/// The values of a list of targets, element by element.
pub open spec fn bins_of(v: Seq<BinTarget>) -> Seq<Bin> {
    Seq::new(v.len(), |i: int| v[i]@)
}

impl View for ManifestProfile {
    type V = Profile;

    open spec fn view(&self) -> Profile {
        Profile {
            package_name: self.package_name@,
            default_run: text_of(self.default_run),
            autobins: self.autobins,
            bins: bins_of(self.bins@),
        }
    }
}

impl View for ResolveError {
    type V = Failure;

    open spec fn view(&self) -> Failure {
        match self {
            ResolveError::MissingPackageName => Failure::MissingPackageName,
            ResolveError::AmbiguousBinaries { package } => Failure::AmbiguousBinaries(package@),
        }
    }
}

impl ResolveError {
    /// The text shown to the user for this error.
    pub fn message(&self) -> (out: String)
        ensures
            out@ == match self@ {
                Failure::MissingPackageName => "Could not find project name in Cargo.toml"@,
                Failure::AmbiguousBinaries(package) =>
                    "Multiple binary targets found in Cargo.toml for package '"@ + package
                        + "'; set default-run to choose one"@,
            },
    {
        match self {
            ResolveError::MissingPackageName => {
                "Could not find project name in Cargo.toml".to_owned()
            },
            ResolveError::AmbiguousBinaries { package } => {
                let mut out = "Multiple binary targets found in Cargo.toml for package '".to_owned();
                out.append(package.as_str());
                out.append("'; set default-run to choose one");
                out
            },
        }
    }
}

/// What stands after the first `=` of a line whose key, blanks aside, is `key`.
pub open spec fn value_part(line: Seq<char>, key: Seq<char>) -> Option<Seq<char>> {
    let eq = position(line, '=');
    if eq < line.len() && trimmed(line.take(eq as int)) == key {
        Some(line.skip(eq as int + 1))
    } else {
        None
    }
}

/// `text` in front of an optional result.
pub open spec fn prepend(text: Seq<char>, rest: Option<Seq<char>>) -> Option<Seq<char>> {
    match rest {
        Some(r) => Some(text + r),
        None => None,
    }
}

/// The string that ends at the first unescaped `"` of `v`, where `v` is what follows
/// the opening quote. A backslash makes the next character part of the string as it
/// is. Without a closing quote there is no string.
pub open spec fn unquoted(v: Seq<char>) -> Option<Seq<char>>
    decreases v.len(),
{
    if v.len() == 0 {
        None
    } else if v[0] == '"' {
        Some(Seq::empty())
    } else if v[0] == '\\' {
        if v.len() < 2 {
            None
        } else {
            prepend(seq![v[1]], unquoted(v.skip(2)))
        }
    } else {
        prepend(seq![v[0]], unquoted(v.skip(1)))
    }
}

/// The quoted string that a line gives to `key`.
pub open spec fn string_value(line: Seq<char>, key: Seq<char>) -> Option<Seq<char>> {
    match value_part(line, key) {
        Some(v) => {
            let w = trim_start(v);
            if w.len() > 0 && w[0] == '"' {
                unquoted(w.skip(1))
            } else {
                None
            }
        },
        None => None,
    }
}

/// The boolean that a line gives to `key`; a `#` begins a comment.
pub open spec fn bool_value(line: Seq<char>, key: Seq<char>) -> Option<bool> {
    match value_part(line, key) {
        Some(v) => {
            let w = trimmed(v.take(position(v, '#') as int));
            if w == "true"@ {
                Some(true)
            } else if w == "false"@ {
                Some(false)
            } else {
                None
            }
        },
        None => None,
    }
}

/// The section that a header line opens; `None` for a line that is no header.
pub open spec fn header(line: Seq<char>) -> Option<Section> {
    if line.len() > 0 && line[0] == '[' {
        if line == "[package]"@ {
            Some(Section::Package)
        } else if line == "[[bin]]"@ {
            Some(Section::Bin)
        } else {
            Some(Section::Outside)
        }
    } else {
        None
    }
}

/// A target record after one more line of its section.
pub open spec fn in_bin(b: Bin, line: Seq<char>) -> Bin {
    match string_value(line, "name"@) {
        Some(name) => if b.name is None {
            Bin { name: Some(name), ..b }
        } else {
            b
        },
        None => match string_value(line, "path"@) {
            Some(path) => if b.path is None {
                Bin { path: Some(path), ..b }
            } else {
                b
            },
            None => b,
        },
    }
}

/// The draft after one more line of the package section.
pub open spec fn in_package(d: Draft, line: Seq<char>) -> Draft {
    match string_value(line, "name"@) {
        Some(name) => if d.package_name is None {
            Draft { package_name: Some(name), ..d }
        } else {
            d
        },
        None => match string_value(line, "default-run"@) {
            Some(run) => if d.default_run is None {
                Draft { default_run: Some(run), ..d }
            } else {
                d
            },
            None => match bool_value(line, "autobins"@) {
                Some(flag) => Draft { autobins: flag, ..d },
                None => d,
            },
        },
    }
}

/// The draft after one more line of the manifest.
pub open spec fn step(d: Draft, raw: Seq<char>) -> Draft {
    let line = trimmed(raw);
    match header(line) {
        Some(Section::Bin) => Draft {
            section: Section::Bin,
            bins: d.bins.push(Bin { name: None, path: None }),
            ..d
        },
        Some(section) => Draft { section, ..d },
        None => match d.section {
            Section::Outside => d,
            Section::Package => in_package(d, line),
            Section::Bin => if d.bins.len() > 0 {
                Draft { bins: d.bins.update(d.bins.len() - 1, in_bin(d.bins.last(), line)), ..d }
            } else {
                d
            },
        },
    }
}

/// The draft after every line of `text`, read from the draft `d` on. Lines end at a
/// line feed; the last line needs none.
pub open spec fn scan_text(text: Seq<char>, d: Draft) -> Draft
    decreases text.len(),
{
    if text.len() == 0 {
        d
    } else {
        let end = position(text, '\n');
        if end >= text.len() {
            step(d, text)
        } else {
            scan_text(text.skip(end as int + 1), step(d, text.take(end as int)))
        }
    }
}

/// The draft before the first line.
pub open spec fn blank() -> Draft {
    Draft {
        section: Section::Outside,
        package_name: None,
        default_run: None,
        autobins: true,
        bins: Seq::empty(),
    }
}

/// What the manifest `text` says, or why it says nothing.
pub open spec fn profile_of(text: Seq<char>) -> Result<Profile, Failure> {
    let d = scan_text(text, blank());
    match d.package_name {
        Some(name) => Ok(
            Profile {
                package_name: name,
                default_run: d.default_run,
                autobins: d.autobins,
                bins: d.bins,
            },
        ),
        None => Err(Failure::MissingPackageName),
    }
}

/// The mathematical value of what `parse_manifest` returns.
pub open spec fn profile_result(r: Result<ManifestProfile, ResolveError>) -> Result<
    Profile,
    Failure,
> {
    match r {
        Ok(p) => Ok(p@),
        Err(e) => Err(e@),
    }
}

/// The rest of `line` after its `=`, where the key in front of it is `key`.
fn value_after<'a>(line: &'a [char], key: &str) -> (out: Option<&'a [char]>)
    ensures
        match out {
            Some(v) => value_part(line@, key@) == Some(v@),
            None => value_part(line@, key@) is None,
        },
{
    let eq: usize = find(line, '=');
    if eq < line.len() && spells(trim(slice_subrange(line, 0, eq)), key) {
        let rest = slice_subrange(line, eq + 1, line.len());
        proof {
            assert(line@.take(eq as int) =~= line@.subrange(0, eq as int));
            assert(line@.skip(eq as int + 1) =~= rest@);
        }
        Some(rest)
    } else {
        proof {
            if eq < line.len() {
                assert(line@.take(eq as int) =~= line@.subrange(0, eq as int));
            }
        }
        None
    }
}

/// Reads a quoted string whose opening quote stands just before `v`.
fn unquote(v: &[char]) -> (out: Option<String>)
    ensures
        text_of(out) == unquoted(v@),
{
    let n: usize = v.len();
    let mut text = String::new();
    let mut i: usize = 0;
    proof {
        assert(v@.skip(0) =~= v@);
        match unquoted(v@) {
            Some(r) => assert(text@ + r =~= r),
            None => {},
        }
    }
    while i < n
        invariant
            i <= n,
            n == v@.len(),
            unquoted(v@) == prepend(text@, unquoted(v@.skip(i as int))),
        decreases n - i,
    {
        let ghost before = text@;
        let ghost here = v@.skip(i as int);
        let c: char = v[i];
        assert(here[0] == c);
        if c == '"' {
            proof {
                assert(before + Seq::<char>::empty() =~= before);
            }
            return Some(text);
        } else if c == '\\' {
            if i + 1 >= n {
                return None;
            }
            let escaped: char = v[i + 1];
            text.push(escaped);
            proof {
                assert(here[1] == escaped);
                assert(here.skip(2) =~= v@.skip(i as int + 2));
                match unquoted(here.skip(2)) {
                    Some(r) => assert(before + (seq![escaped] + r) =~= before.push(escaped) + r),
                    None => {},
                }
            }
            i += 2;
        } else {
            text.push(c);
            proof {
                assert(here.skip(1) =~= v@.skip(i as int + 1));
                match unquoted(here.skip(1)) {
                    Some(r) => assert(before + (seq![c] + r) =~= before.push(c) + r),
                    None => {},
                }
            }
            i += 1;
        }
    }
    None
}

/// The quoted string that `line` gives to `key`, if it gives one.
pub fn read_string(line: &[char], key: &str) -> (out: Option<String>)
    ensures
        text_of(out) == string_value(line@, key@),
{
    match value_after(line, key) {
        Some(v) => {
            let w = trim_left(v);
            if w.len() > 0 && w[0] == '"' {
                let rest = slice_subrange(w, 1, w.len());
                proof {
                    assert(rest@ =~= w@.skip(1));
                }
                unquote(rest)
            } else {
                None
            }
        },
        None => None,
    }
}

/// The boolean that `line` gives to `key`, if it gives one.
pub fn read_bool(line: &[char], key: &str) -> (out: Option<bool>)
    ensures
        out == bool_value(line@, key@),
{
    match value_after(line, key) {
        Some(v) => {
            let end: usize = find(v, '#');
            let w = trim(slice_subrange(v, 0, end));
            proof {
                assert(v@.take(end as int) =~= v@.subrange(0, end as int));
            }
            if spells(w, "true") {
                Some(true)
            } else if spells(w, "false") {
                Some(false)
            } else {
                None
            }
        },
        None => None,
    }
}

/// The section that the header `line` opens, if `line` is a header.
pub fn read_header(line: &[char]) -> (out: Option<Section>)
    ensures
        out == header(line@),
{
    if line.len() > 0 && line[0] == '[' {
        if spells(line, "[package]") {
            Some(Section::Package)
        } else if spells(line, "[[bin]]") {
            Some(Section::Bin)
        } else {
            Some(Section::Outside)
        }
    } else {
        None
    }
}

/// The scanner's state between two lines.
struct Scanner {
    section: Section,
    package_name: Option<String>,
    default_run: Option<String>,
    autobins: bool,
    bins: Vec<BinTarget>,
}

impl View for Scanner {
    type V = Draft;

    closed spec fn view(&self) -> Draft {
        Draft {
            section: self.section,
            package_name: text_of(self.package_name),
            default_run: text_of(self.default_run),
            autobins: self.autobins,
            bins: bins_of(self.bins@),
        }
    }
}

/// Whether lines of a target section have a record to fill.
pub open spec fn has_open_record(d: Draft) -> bool {
    d.section is Bin ==> d.bins.len() > 0
}

/// Fills in what `line` gives to a target record.
fn fill_bin(bin: BinTarget, line: &[char]) -> (out: BinTarget)
    ensures
        out@ == in_bin(bin@, line@),
{
    let mut bin = bin;
    match read_string(line, "name") {
        Some(name) => {
            if bin.name.is_none() {
                bin.name = Some(name);
            }
        },
        None => match read_string(line, "path") {
            Some(path) => {
                if bin.path.is_none() {
                    bin.path = Some(path);
                }
            },
            None => {},
        },
    }
    bin
}

/// Takes one line of the manifest into the scanner's state.
fn read_line(scanner: &mut Scanner, raw: &[char])
    requires
        has_open_record(old(scanner)@),
    ensures
        final(scanner)@ == step(old(scanner)@, raw@),
        has_open_record(final(scanner)@),
{
    let ghost before = scanner@;
    let line = trim(raw);
    match read_header(line) {
        Some(Section::Bin) => {
            scanner.section = Section::Bin;
            scanner.bins.push(BinTarget { name: None, path: None });
            proof {
                assert(scanner@.bins =~= before.bins.push(Bin { name: None, path: None }));
            }
        },
        Some(section) => {
            scanner.section = section;
        },
        None => match scanner.section {
            Section::Outside => {},
            Section::Package => {
                match read_string(line, "name") {
                    Some(name) => {
                        if scanner.package_name.is_none() {
                            scanner.package_name = Some(name);
                        }
                    },
                    None => match read_string(line, "default-run") {
                        Some(run) => {
                            if scanner.default_run.is_none() {
                                scanner.default_run = Some(run);
                            }
                        },
                        None => match read_bool(line, "autobins") {
                            Some(flag) => {
                                scanner.autobins = flag;
                            },
                            None => {},
                        },
                    },
                }
            },
            Section::Bin => {
                let last = scanner.bins.pop().unwrap();
                let filled = fill_bin(last, line);
                scanner.bins.push(filled);
                proof {
                    assert(scanner@.bins =~= before.bins.update(
                        before.bins.len() - 1,
                        in_bin(before.bins.last(), line@),
                    ));
                }
            },
        },
    }
}

/// Reads a manifest: the package's name, `default-run` and `autobins` from its
/// `[package]` section, and one record for each `[[bin]]` section. Lines under other
/// headers, unknown keys and values that do not parse are passed over. A manifest
/// without a package name is refused.
pub fn parse_manifest(contents: &str) -> (r: Result<ManifestProfile, ResolveError>)
    ensures
        profile_result(r) == profile_of(contents@),
{
    let chars = chars_of(contents);
    let text: &[char] = chars.as_slice();
    let n: usize = text.len();
    let mut scanner = Scanner {
        section: Section::Outside,
        package_name: None,
        default_run: None,
        autobins: true,
        bins: Vec::new(),
    };
    let mut at: usize = 0;
    proof {
        assert(scanner@.bins =~= Seq::empty());
        assert(text@.skip(0) =~= text@);
    }
    while at < n
        invariant
            at <= n,
            n == text@.len(),
            text@ == contents@,
            has_open_record(scanner@),
            scan_text(text@, blank()) == scan_text(text@.skip(at as int), scanner@),
        decreases n - at,
    {
        let rest = slice_subrange(text, at, n);
        let end: usize = find(rest, '\n');
        proof {
            assert(rest@ =~= text@.skip(at as int));
        }
        if end >= rest.len() {
            read_line(&mut scanner, rest);
            proof {
                assert(text@.skip(n as int).len() == 0);
            }
            at = n;
        } else {
            read_line(&mut scanner, slice_subrange(rest, 0, end));
            proof {
                assert(rest@.take(end as int) =~= rest@.subrange(0, end as int));
                assert(rest@.skip(end as int + 1) =~= text@.skip(at as int + end as int + 1));
            }
            at = at + end + 1;
        }
    }
    match scanner.package_name {
        Some(name) => Ok(
            ManifestProfile {
                package_name: name,
                default_run: scanner.default_run,
                autobins: scanner.autobins,
                bins: scanner.bins,
            },
        ),
        None => Err(ResolveError::MissingPackageName),
    }
}

/// A manifest is read line by line: a first line and its line feed are taken in by one
/// step, and the rest of the text is read from the draft that the step gives.
pub proof fn lemma_scan_first_line(line: Seq<char>, rest: Seq<char>, d: Draft)
    requires
        !line.contains('\n'),
    ensures
        scan_text(line + seq!['\n'] + rest, d) == scan_text(rest, step(d, line)),
{
    let tail = seq!['\n'] + rest;
    let text = line + tail;
    assert(line + seq!['\n'] + rest =~= text);
    lemma_position_after(line, tail, '\n');
    assert(position(tail, '\n') == 0);
    assert(text.take(line.len() as int) =~= line);
    assert(text.skip(line.len() as int + 1) =~= rest);
}

/// A last line without a line feed is taken in by one step.
pub proof fn lemma_scan_last_line(line: Seq<char>, d: Draft)
    requires
        line.len() > 0,
        !line.contains('\n'),
    ensures
        scan_text(line, d) == step(d, line),
{
    lemma_position_after(line, Seq::empty(), '\n');
    assert(line + Seq::<char>::empty() =~= line);
}

} // verus!
