//! The artifact policy: which of a package's binaries the launcher builds and runs.

use vstd::prelude::*;
use vstd::string::*;
use crate::manifest::{bins_of, Bin, Failure, ManifestProfile, Profile, ResolveError};
use crate::text::{chars_of, same_text};

verus! {

/// `c` with a backslash turned into a forward slash.
pub open spec fn slashed(c: char) -> char {
    if c == '\\' {
        '/'
    } else {
        c
    }
}

/// A path with forward slashes only and without a leading `./`.
pub open spec fn normalized(path: Seq<char>) -> Seq<char> {
    let p = path.map_values(|c: char| slashed(c));
    if "./"@.is_prefix_of(p) {
        p.skip(2)
    } else {
        p
    }
}

/// Whether `path` names the conventional entry point of a package.
pub open spec fn is_entry_path(path: Seq<char>) -> bool {
    normalized(path) == "src/main.rs"@
}

/// Whether a target is built from the conventional entry point.
pub open spec fn is_entry_bin(b: Bin) -> bool {
    b.path matches Some(path) && is_entry_path(path)
}

/// The targets built from the conventional entry point, in the order of their records.
pub open spec fn entry_bins(bins: Seq<Bin>) -> Seq<Bin> {
    bins.filter(|b: Bin| is_entry_bin(b))
}

/// The targets that have a name, in the order of their records.
pub open spec fn named_bins(bins: Seq<Bin>) -> Seq<Bin> {
    bins.filter(|b: Bin| b.name is Some)
}

/// Whether some target is called `name`.
pub open spec fn has_bin_named(bins: Seq<Bin>, name: Seq<char>) -> bool {
    exists|i: int| 0 <= i < bins.len() && (#[trigger] bins[i]).name == Some(name)
}

/// The name of the binary that the launcher runs for a package, by the first of these
/// that applies:
/// the manifest's `default-run`;
/// the name of the one target built from the conventional entry point;
/// the package's name, where a target is declared under it;
/// the package's name, where the entry point exists and `autobins` is on;
/// the name of the one named target;
/// a failure, where several targets are named;
/// the package's name.
pub open spec fn artifact(p: Profile, entry_exists: bool) -> Result<Seq<char>, Failure> {
    let entries = entry_bins(p.bins);
    let named = named_bins(p.bins);
    if p.default_run is Some {
        Ok(p.default_run->0)
    } else if entries.len() == 1 && entries[0].name is Some {
        Ok(entries[0].name->0)
    } else if has_bin_named(p.bins, p.package_name) {
        Ok(p.package_name)
    } else if p.autobins && entry_exists {
        Ok(p.package_name)
    } else if named.len() == 1 {
        Ok(named[0].name->0)
    } else if named.len() > 1 {
        Err(Failure::AmbiguousBinaries(p.package_name))
    } else {
        Ok(p.package_name)
    }
}

/// The mathematical value of a resolved name or the failure to resolve one.
pub open spec fn name_result(r: Result<String, ResolveError>) -> Result<Seq<char>, Failure> {
    match r {
        Ok(name) => Ok(name@),
        Err(e) => Err(e@),
    }
}

/// One more record at the end adds itself to the entry-point targets, or nothing.
pub proof fn lemma_entry_bins_push(bins: Seq<Bin>, b: Bin)
    ensures
        entry_bins(bins.push(b)) == if is_entry_bin(b) {
            entry_bins(bins).push(b)
        } else {
            entry_bins(bins)
        },
{
    reveal(Seq::filter);
    assert(bins.push(b).drop_last() =~= bins);
}

/// One more record at the end adds itself to the named targets, or nothing.
pub proof fn lemma_named_bins_push(bins: Seq<Bin>, b: Bin)
    ensures
        named_bins(bins.push(b)) == if b.name is Some {
            named_bins(bins).push(b)
        } else {
            named_bins(bins)
        },
{
    reveal(Seq::filter);
    assert(bins.push(b).drop_last() =~= bins);
}

/// One more record at the end is called `name` itself, or changes nothing.
pub proof fn lemma_has_bin_named_push(bins: Seq<Bin>, b: Bin, name: Seq<char>)
    ensures
        has_bin_named(bins.push(b), name) == (has_bin_named(bins, name) || b.name == Some(name)),
{
    let more = bins.push(b);
    if has_bin_named(bins, name) {
        let i = choose|i: int| 0 <= i < bins.len() && (#[trigger] bins[i]).name == Some(name);
        assert(more[i].name == Some(name));
    }
    if b.name == Some(name) {
        assert(more[bins.len() as int].name == Some(name));
    }
    if has_bin_named(more, name) {
        let i = choose|i: int| 0 <= i < more.len() && (#[trigger] more[i]).name == Some(name);
        if i < bins.len() {
            assert(bins[i].name == Some(name));
        }
    }
}

/// `c`, or a forward slash where `c` is a backslash.
fn slashed_char(c: char) -> (out: char)
    ensures
        out == slashed(c),
{
    if c == '\\' {
        '/'
    } else {
        c
    }
}

/// Whether `path`, with either kind of slash and with or without a leading `./`, is
/// `src/main.rs`.
pub fn names_entry_point(path: &str) -> (b: bool)
    ensures
        b == is_entry_path(path@),
{
    let p = chars_of(path);
    let entry = chars_of("src/main.rs");
    let n: usize = p.len();
    let m: usize = entry.len();
    let ghost q = path@.map_values(|c: char| slashed(c));
    proof {
        reveal_strlit("./");
    }
    let skip: usize = if n >= 2 && p[0] == '.' && slashed_char(p[1]) == '/' {
        proof {
            assert("./"@ =~= q.subrange(0, 2));
        }
        2
    } else {
        proof {
            if "./"@.is_prefix_of(q) {
                assert(q.subrange(0, 2)[0] == '.');
                assert(q.subrange(0, 2)[1] == '/');
            }
        }
        0
    };
    assert(normalized(path@) == q.skip(skip as int));
    if n - skip != m {
        return false;
    }
    let mut i: usize = 0;
    while i < m
        invariant
            i <= m,
            skip <= n,
            n - skip == m,
            p@ == path@,
            n == p@.len(),
            m == entry@.len(),
            entry@ == "src/main.rs"@,
            q == path@.map_values(|c: char| slashed(c)),
            normalized(path@) == q.skip(skip as int),
            forall|j: int| 0 <= j < i ==> q.skip(skip as int)[j] == entry@[j],
        decreases m - i,
    {
        if slashed_char(p[skip + i]) != entry[i] {
            assert(q.skip(skip as int)[i as int] != entry@[i as int]);
            return false;
        }
        i += 1;
    }
    proof {
        assert(q.skip(skip as int) =~= entry@);
    }
    true
}

/// Chooses the binary that the launcher runs for the package that `profile` describes;
/// `entry_exists` says whether the package has a file at the conventional entry point.
pub fn resolve_artifact(profile: &ManifestProfile, entry_exists: bool) -> (r: Result<
    String,
    ResolveError,
>)
    ensures
        name_result(r) == artifact(profile@, entry_exists),
{
    match &profile.default_run {
        Some(run) => {
            return Ok(run.clone());
        },
        None => {},
    }
    let ghost bins = bins_of(profile.bins@);
    let n: usize = profile.bins.len();
    let mut entries: usize = 0;
    let mut entry_at: usize = 0;
    let mut named: usize = 0;
    let mut named_at: usize = 0;
    let mut declared: bool = false;
    let mut i: usize = 0;
    proof {
        reveal(Seq::filter);
        assert(bins.take(0) =~= Seq::empty());
    }
    while i < n
        invariant
            i <= n,
            n == profile.bins@.len(),
            bins == bins_of(profile.bins@),
            entries == entry_bins(bins.take(i as int)).len(),
            entries <= i,
            entries > 0 ==> entry_at < i && entry_bins(bins.take(i as int))[0] == bins[entry_at as int],
            named == named_bins(bins.take(i as int)).len(),
            named <= i,
            named > 0 ==> named_at < i && named_bins(bins.take(i as int))[0] == bins[named_at as int],
            declared == has_bin_named(bins.take(i as int), profile.package_name@),
        decreases n - i,
    {
        let bin = &profile.bins[i];
        proof {
            assert(bins.take(i as int + 1) =~= bins.take(i as int).push(bins[i as int]));
            assert(bin@ == bins[i as int]);
            lemma_entry_bins_push(bins.take(i as int), bins[i as int]);
            lemma_named_bins_push(bins.take(i as int), bins[i as int]);
            lemma_has_bin_named_push(bins.take(i as int), bins[i as int], profile.package_name@);
        }
        match &bin.path {
            Some(path) => {
                if names_entry_point(path.as_str()) {
                    if entries == 0 {
                        entry_at = i;
                    }
                    entries += 1;
                }
            },
            None => {},
        }
        match &bin.name {
            Some(name) => {
                if named == 0 {
                    named_at = i;
                }
                named += 1;
                if same_text(name.as_str(), profile.package_name.as_str()) {
                    declared = true;
                }
            },
            None => {},
        }
        i += 1;
    }
    proof {
        assert(bins.take(n as int) =~= bins);
    }
    if entries == 1 {
        match &profile.bins[entry_at].name {
            Some(name) => {
                return Ok(name.clone());
            },
            None => {},
        }
    }
    if declared || (profile.autobins && entry_exists) {
        Ok(profile.package_name.clone())
    } else if named == 1 {
        match &profile.bins[named_at].name {
            Some(name) => Ok(name.clone()),
            None => Ok(profile.package_name.clone()),
        }
    } else if named > 1 {
        Err(ResolveError::AmbiguousBinaries { package: profile.package_name.clone() })
    } else {
        Ok(profile.package_name.clone())
    }
}

/// Without records there are no entry-point targets and no named targets.
pub proof fn lemma_no_bins()
    ensures
        entry_bins(Seq::empty()).len() == 0,
        named_bins(Seq::empty()).len() == 0,
{
    reveal(Seq::filter);
}

/// Where every entry-point target of `bins` is called `name`, so is every element of
/// `entry_bins(bins)`.
pub proof fn lemma_entry_bins_named(bins: Seq<Bin>, name: Seq<char>)
    requires
        forall|i: int|
            0 <= i < bins.len() && is_entry_bin(#[trigger] bins[i]) ==> bins[i].name == Some(name),
    ensures
        forall|j: int|
            0 <= j < entry_bins(bins).len() ==> (#[trigger] entry_bins(bins)[j]).name == Some(
                name,
            ),
    decreases bins.len(),
{
    if bins.len() > 0 {
        let front = bins.drop_last();
        assert(bins =~= front.push(bins.last()));
        lemma_entry_bins_push(front, bins.last());
        assert forall|i: int| 0 <= i < front.len() && is_entry_bin(#[trigger] front[i]) implies front[i].name
            == Some(name) by {
            assert(front[i] == bins[i]);
        }
        lemma_entry_bins_named(front, name);
    } else {
        lemma_no_bins();
        assert(bins =~= Seq::empty());
    }
}

/// A manifest's `default-run` decides, whatever else the manifest declares and whether
/// or not the entry point exists.
pub proof fn lemma_default_run_decides(p: Profile, entry_exists: bool)
    requires
        p.default_run is Some,
    ensures
        artifact(p, entry_exists) == Ok::<Seq<char>, Failure>(p.default_run->0),
{
}

/// Without a `default-run`, a target declared under the package's name makes the
/// package's name the answer, with or without an entry point and whatever `autobins`
/// says, provided that no target of another name is built from the entry point.
pub proof fn lemma_declared_package_target(p: Profile, entry_exists: bool)
    requires
        p.default_run is None,
        has_bin_named(p.bins, p.package_name),
        forall|i: int|
            0 <= i < p.bins.len() && is_entry_bin(#[trigger] p.bins[i]) ==> p.bins[i].name == Some(
                p.package_name,
            ),
    ensures
        artifact(p, entry_exists) == Ok::<Seq<char>, Failure>(p.package_name),
{
    lemma_entry_bins_named(p.bins, p.package_name);
    let entries = entry_bins(p.bins);
    if entries.len() == 1 {
        assert(entries[0].name == Some(p.package_name));
    }
}

/// Two targets named otherwise than the package, neither built from the entry point,
/// are ambiguous where the manifest has no `default-run` and switches `autobins` off.
pub proof fn lemma_two_foreign_targets_are_ambiguous(p: Profile, entry_exists: bool)
    requires
        p.default_run is None,
        !p.autobins,
        p.bins.len() == 2,
        forall|i: int|
            0 <= i < 2 ==> {
                &&& (#[trigger] p.bins[i]).name is Some
                &&& p.bins[i].name != Some(p.package_name)
                &&& !is_entry_bin(p.bins[i])
            },
    ensures
        artifact(p, entry_exists) == Err::<Seq<char>, Failure>(
            Failure::AmbiguousBinaries(p.package_name),
        ),
{
    let none = Seq::<Bin>::empty();
    let one = none.push(p.bins[0]);
    assert(p.bins =~= one.push(p.bins[1]));
    lemma_no_bins();
    lemma_entry_bins_push(none, p.bins[0]);
    lemma_entry_bins_push(one, p.bins[1]);
    lemma_named_bins_push(none, p.bins[0]);
    lemma_named_bins_push(one, p.bins[1]);
    assert(!has_bin_named(p.bins, p.package_name));
}

} // verus!
