use vstd::prelude::*;

use crate::deps::which_resolves;
use crate::errors::TshError;
use crate::exclude::filter_candidates;
use crate::exclude::keep_candidates;
use crate::exclude::ExclusionFilter;
use crate::text::split_lines;
use crate::text::keep_nonblank;
use crate::text::lemma_deep_view_is_str_views;
use crate::text::lemma_str_views_push;
use crate::text::lines_spec;
use crate::text::nonempty_lines;
use crate::text::str_views;

verus! {

/// Which recursive directory-search binary a run drives: the faster one when
/// it is on the search path, else the generic one. Resolved once per run and
/// reused for every search.
#[derive(Clone, Copy, Debug, PartialEq, Eq, Structural)]
pub enum Enumerator {
    Fd,
    Find,
}

/// The name of the binary an `Enumerator` stands for.
pub open spec fn program_of(e: Enumerator) -> Seq<char> {
    match e {
        Enumerator::Fd => "fd"@,
        Enumerator::Find => "find"@,
    }
}

/// Picks the faster enumerator exactly when it is available.
pub fn choose_enumerator(fd_available: bool) -> (e: Enumerator)
    ensures
        e == (if fd_available {
            Enumerator::Fd
        } else {
            Enumerator::Find
        }),
{
    if fd_available {
        Enumerator::Fd
    } else {
        Enumerator::Find
    }
}

/// Probes the search path once and picks the enumerator for this run. The
/// probe's answer depends on the machine, so no more is promised than that
/// the choice follows it.
pub fn resolve_enumerator() -> Enumerator {
    let fd_available = which_resolves("fd");
    choose_enumerator(fd_available)
}

/// The binary name to spawn for an enumerator.
pub fn enumerator_program(e: Enumerator) -> (s: String)
    ensures
        s@ == program_of(e),
{
    match e {
        Enumerator::Fd => String::from_str("fd"),
        Enumerator::Find => String::from_str("find"),
    }
}

/// One invocation that the directory search under a base makes for a single
/// requested name: a recursive directory-type search matching that exact
/// name, always with the generic enumerator.
pub open spec fn name_search_args_spec(base: Seq<char>, name: Seq<char>) -> Seq<Seq<char>> {
    seq![base, "-type"@, "d"@, "-name"@, name]
}

/// The nested "all subdirectories under a matched path" search of the named
/// mode; the faster enumerator takes `.` and the path, the generic one takes
/// the path and a directory-type filter.
pub open spec fn nested_search_args_spec(e: Enumerator, path: Seq<char>) -> Seq<Seq<char>> {
    match e {
        Enumerator::Fd => seq!["."@, path],
        Enumerator::Find => seq![path, "-type"@, "d"@],
    }
}

/// The whole-subtree search of the path mode; the faster enumerator takes
/// its own type-restriction flag.
pub open spec fn base_search_args_spec(e: Enumerator, path: Seq<char>) -> Seq<Seq<char>> {
    match e {
        Enumerator::Fd => seq!["."@, "--type"@, "d"@, path],
        Enumerator::Find => seq![path, "-type"@, "d"@],
    }
}

/// Builds the arguments of the top-level name-match search.
pub fn name_search_args(base: &str, name: &str) -> (a: Vec<String>)
    ensures
        a.deep_view() == name_search_args_spec(base@, name@),
{
    let mut a: Vec<String> = Vec::new();
    a.push(base.to_owned());
    a.push(String::from_str("-type"));
    a.push(String::from_str("d"));
    a.push(String::from_str("-name"));
    a.push(name.to_owned());
    proof {
        lemma_deep_view_is_str_views(&a);
        assert(str_views(a@) =~= name_search_args_spec(base@, name@));
    }
    a
}

/// Builds the arguments of the nested subtree search of the named mode.
pub fn nested_search_args(e: Enumerator, path: &str) -> (a: Vec<String>)
    ensures
        a.deep_view() == nested_search_args_spec(e, path@),
{
    let mut a: Vec<String> = Vec::new();
    match e {
        Enumerator::Fd => {
            a.push(String::from_str("."));
            a.push(path.to_owned());
        },
        Enumerator::Find => {
            a.push(path.to_owned());
            a.push(String::from_str("-type"));
            a.push(String::from_str("d"));
        },
    }
    proof {
        lemma_deep_view_is_str_views(&a);
        assert(str_views(a@) =~= nested_search_args_spec(e, path@));
    }
    a
}

/// Builds the arguments of the whole-subtree search of the path mode.
pub fn base_search_args(e: Enumerator, path: &str) -> (a: Vec<String>)
    ensures
        a.deep_view() == base_search_args_spec(e, path@),
{
    let mut a: Vec<String> = Vec::new();
    match e {
        Enumerator::Fd => {
            a.push(String::from_str("."));
            a.push(String::from_str("--type"));
            a.push(String::from_str("d"));
            a.push(path.to_owned());
        },
        Enumerator::Find => {
            a.push(path.to_owned());
            a.push(String::from_str("-type"));
            a.push(String::from_str("d"));
        },
    }
    proof {
        lemma_deep_view_is_str_views(&a);
        assert(str_views(a@) =~= base_search_args_spec(e, path@));
    }
    a
}

/// What one invocation is searching for, named in the failure report when
/// the top-level name-match search fails.
pub fn name_search_failure(name: &str) -> (s: String)
    ensures
        s@ == "find command for "@ + name@,
{
    String::from_str("find command for ").concat(name)
}

/// The failure report of a nested subtree search of the named mode.
pub fn nested_search_failure(e: Enumerator, path: &str) -> (s: String)
    ensures
        s@ == program_of(e) + " command for "@ + path@,
{
    enumerator_program(e).concat(" command for ").concat(path)
}

/// The failure report of the whole-subtree search of the path mode.
pub fn base_search_failure(e: Enumerator) -> (s: String)
    ensures
        s@ == "Failed to execute "@ + program_of(e) + " command"@,
{
    String::from_str("Failed to execute ").concat(enumerator_program(e).as_str()).concat(" command")
}

/// How one invocation is made: exactly one search request is active per run.
/// Requested names take precedence over an explicit base directory, which
/// takes precedence over the default base.
#[derive(Debug, PartialEq, Eq)]
pub enum SearchRequest {
    /// Locate directories of these exact names anywhere under the base.
    Named(Vec<String>),
    /// Enumerate every subdirectory under this base, with noise excluded.
    Path(String),
}

/// The default search base: the home directory when the environment gives
/// one, else the current working directory; neither is an I/O failure.
pub fn resolve_base(home: Option<String>, cwd: Option<String>) -> (r: Result<String, TshError>)
    ensures
        home matches Some(h) ==> (r matches Ok(b) && b == h),
        home is None && cwd is Some ==> (r matches Ok(b) && b == cwd->Some_0),
        home is None && cwd is None ==> (r matches Err(e) && e matches TshError::IoError(m) && m@
            == "could not resolve a home or working directory"@),
{
    match home {
        Some(h) => Ok(h),
        None => match cwd {
            Some(c) => Ok(c),
            None => Err(
                TshError::IoError(String::from_str("could not resolve a home or working directory")),
            ),
        },
    }
}

/// Decides which search this run makes, by the fixed precedence.
pub fn resolve_request(directories: Vec<String>, custom_dir: Option<String>, base: String) -> (r:
    SearchRequest)
    ensures
        directories@.len() > 0 ==> (r matches SearchRequest::Named(n) && n == directories),
        directories@.len() == 0 && custom_dir is Some ==> (r matches SearchRequest::Path(p)
            && p == custom_dir->Some_0),
        directories@.len() == 0 && custom_dir is None ==> (r matches SearchRequest::Path(p) && p
            == base),
{
    if directories.len() > 0 {
        SearchRequest::Named(directories)
    } else {
        match custom_dir {
            Some(d) => SearchRequest::Path(d),
            None => SearchRequest::Path(base),
        }
    }
}

/// Absorbs one search subprocess's outcome into the growing candidate list:
/// on success every non-empty output line is appended in order; on failure
/// nothing is appended and the whole enumeration fails with the given
/// report.
pub fn absorb_search_output(acc: &mut Vec<String>, success: bool, out: &str, context: String) -> (r:
    Result<(), TshError>)
    ensures
        success ==> r is Ok && final(acc).deep_view() == old(acc).deep_view() + keep_nonblank(
            lines_spec(out@),
        ),
        !success ==> (r matches Err(e) && e matches TshError::CommandFailed(m) && m == context
            && *final(acc) == *old(acc)),
{
    if !success {
        return Err(TshError::CommandFailed(context));
    }
    let lines = nonempty_lines(out);
    proof {
        lemma_deep_view_is_str_views(&lines);
        lemma_deep_view_is_str_views(acc);
    }
    let ghost base = str_views(acc@);
    let mut i: usize = 0;
    proof {
        assert(str_views(lines@).subrange(0, 0) =~= Seq::<Seq<char>>::empty());
        assert(str_views(acc@) =~= base + str_views(lines@).subrange(0, 0));
    }
    while i < lines.len()
        invariant
            i <= lines.len(),
            str_views(lines@) == keep_nonblank(lines_spec(out@)),
            str_views(acc@) == base + str_views(lines@).subrange(0, i as int),
        decreases lines.len() - i,
    {
        let line = lines[i].clone();
        proof {
            lemma_str_views_push(acc@, line);
            assert((base + str_views(lines@).subrange(0, i as int)).push(lines@[i as int]@) =~= base
                + str_views(lines@).subrange(0, i + 1));
        }
        acc.push(line);
        i = i + 1;
    }
    proof {
        assert(str_views(lines@).subrange(0, lines@.len() as int) =~= str_views(lines@));
        lemma_deep_view_is_str_views(acc);
    }
    Ok(())
}

/// An empty candidate list is the distinguished no-directories failure; a
/// non-empty one passes through unchanged to selection.
pub fn require_candidates(acc: Vec<String>) -> (r: Result<Vec<String>, TshError>)
    ensures
        acc@.len() == 0 ==> (r matches Err(e) && e matches TshError::NoDirectoriesFound),
        acc@.len() > 0 ==> (r matches Ok(v) && v == acc),
{
    if acc.len() == 0 {
        Err(TshError::NoDirectoriesFound)
    } else {
        Ok(acc)
    }
}

/// Turns the path-mode search subprocess's outcome into the candidate set:
/// a failed search is a command failure naming the enumerator; a successful
/// one keeps every non-empty, non-excluded output line, in order, and an
/// empty remainder is the distinguished no-directories failure.
pub fn path_search_candidates(
    e: Enumerator,
    success: bool,
    out: &str,
    filter: &ExclusionFilter,
) -> (r: Result<Vec<String>, TshError>)
    ensures
        !success ==> (r matches Err(err) && err matches TshError::CommandFailed(m) && m@
            == "Failed to execute "@ + program_of(e) + " command"@),
        success && keep_candidates(lines_spec(out@)).len() == 0 ==> (r matches Err(err)
            && err matches TshError::NoDirectoriesFound),
        success && keep_candidates(lines_spec(out@)).len() > 0 ==> (r matches Ok(v)
            && v.deep_view() == keep_candidates(lines_spec(out@))),
{
    if !success {
        return Err(TshError::CommandFailed(base_search_failure(e)));
    }
    let lines = split_lines(out);
    let kept = filter_candidates(&lines, filter);
    require_candidates(kept)
}

/// The candidates that a run of searches gathers, in order: the non-empty
/// output lines of every search, one search after the other.
pub open spec fn gathered(outs: Seq<Seq<char>>) -> Seq<Seq<char>>
    decreases outs.len(),
{
    if outs.len() == 0 {
        Seq::empty()
    } else {
        gathered(outs.drop_last()) + keep_nonblank(lines_spec(outs.last()))
    }
}

/// One more absorbed search output appends exactly its non-empty lines, as
/// `absorb_search_output` does to the candidate list.
pub proof fn lemma_gathered_step(outs: Seq<Seq<char>>, out: Seq<char>)
    ensures
        gathered(outs.push(out)) == gathered(outs) + keep_nonblank(lines_spec(out)),
{
    assert(outs.push(out).drop_last() =~= outs);
    assert(outs.push(out).last() == out);
}

/// A named search whose every requested name yields nothing gathers nothing,
/// so it ends in the no-directories failure and never reaches selection.
pub proof fn lemma_all_blank_gathers_nothing(outs: Seq<Seq<char>>)
    requires
        forall|i: int|
            0 <= i < outs.len() ==> keep_nonblank(lines_spec(#[trigger] outs[i])).len() == 0,
    ensures
        gathered(outs).len() == 0,
    decreases outs.len(),
{
    if outs.len() > 0 {
        lemma_all_blank_gathers_nothing(outs.drop_last());
        assert(outs[outs.len() - 1] == outs.last());
    }
}

} // verus!
