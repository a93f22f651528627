use vstd::prelude::*;


verus! {

/// A name as the report quotes it.
pub open spec fn quoted(s: Seq<char>) -> Seq<char> {
    "\""@ + s + "\""@
}

/// The quoted forms of a list of names, in order.
pub open spec fn quoted_views(ss: Seq<String>) -> Seq<Seq<char>> {
    Seq::new(ss.len(), |i: int| quoted(ss[i]@))
}

/// The pieces joined with `, ` between them.
pub open spec fn joined(ds: Seq<Seq<char>>) -> Seq<char>
    decreases ds.len(),
{
    if ds.len() == 0 {
        Seq::empty()
    } else if ds.len() == 1 {
        ds[0]
    } else {
        joined(ds.drop_last()) + ", "@ + ds.last()
    }
}

/// The error taxonomy of the whole pipeline. Every failure is fatal and is
/// reported to the caller as one of these variants; interactive cancellation
/// is deliberately *not* an error (it is a `None` selection).
#[derive(Debug)]
pub enum TshError {
    /// An underlying I/O failure (pipe, filesystem, environment access).
    IoError(String),
    /// One or more required executables could not be resolved on the search
    /// path; carries every unresolved name, not just the first.
    MissingDependencies(Vec<String>),
    /// A spawned subprocess reported a failure status or produced an unusable
    /// result; carries a human-readable description of the failed operation.
    CommandFailed(String),
    /// Enumeration ran successfully but yielded zero usable candidates.
    NoDirectoriesFound,
    /// Reserved for interactive aborts surfaced as hard errors.
    UserCancelled,
}

/// The human-readable report of an error.
pub open spec fn error_text(e: TshError) -> Seq<char> {
    match e {
        TshError::IoError(m) => "I/O error: "@ + m@,
        TshError::MissingDependencies(d) => "MissingDependencies: ["@ + joined(quoted_views(d@))
            + "]"@,
        TshError::CommandFailed(m) => "Command failed: "@ + m@,
        TshError::NoDirectoriesFound => "No directories found"@,
        TshError::UserCancelled => "Operation cancelled by user"@,
    }
}

/// Joins the quoted names with `, ` between them, as a debug-formatted list
/// body reads.
fn join_quoted(items: &Vec<String>) -> (s: String)
    ensures
        s@ == joined(quoted_views(items@)),
{
    let mut s = String::new();
    let mut i: usize = 0;
    proof {
        assert(quoted_views(items@).subrange(0, 0) =~= Seq::<Seq<char>>::empty());
        assert(s@ =~= joined(quoted_views(items@).subrange(0, 0)));
    }
    while i < items.len()
        invariant
            i <= items.len(),
            s@ == joined(quoted_views(items@).subrange(0, i as int)),
        decreases items.len() - i,
    {
        proof {
            assert(quoted_views(items@).subrange(0, i + 1).drop_last() =~= quoted_views(
                items@,
            ).subrange(0, i as int));
            assert(quoted_views(items@).subrange(0, i + 1).last() == quoted(items@[i as int]@));
            assert(quoted_views(items@).subrange(0, i + 1)[0] == quoted(items@[0]@));
        }
        if i > 0 {
            s.append(", ");
        }
        s.append("\"");
        s.append(items[i].as_str());
        s.append("\"");
        proof {
            assert(s@ =~= joined(quoted_views(items@).subrange(0, i + 1)));
        }
        i = i + 1;
    }
    proof {
        assert(quoted_views(items@).subrange(0, items@.len() as int) =~= quoted_views(items@));
    }
    s
}

impl TshError {
    /// The report a run prints when it aborts with this error.
    pub fn message(&self) -> (s: String)
        ensures
            s@ == error_text(*self),
    {
        match self {
            TshError::IoError(m) => String::from_str("I/O error: ").concat(m.as_str()),
            TshError::MissingDependencies(d) => String::from_str("MissingDependencies: [").concat(
                join_quoted(d).as_str(),
            ).concat("]"),
            TshError::CommandFailed(m) => String::from_str("Command failed: ").concat(m.as_str()),
            TshError::NoDirectoriesFound => String::from_str("No directories found"),
            TshError::UserCancelled => String::from_str("Operation cancelled by user"),
        }
    }
}

} // verus!
