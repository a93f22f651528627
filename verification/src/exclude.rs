use vstd::prelude::*;

use crate::text::lemma_deep_view_is_str_views;
use crate::text::lemma_str_views_push;
use crate::text::str_views;

verus! {

#[verifier::external_type_specification]
#[verifier::external_body]
pub struct ExRegex(regex::Regex);

/// The pattern occurs somewhere in the sequence as a contiguous substring.
pub open spec fn has_substr(s: Seq<char>, pat: Seq<char>) -> bool {
    exists|i: int| 0 <= i && i + pat.len() <= s.len() && #[trigger] s.subrange(i, i + pat.len())
        == pat
}

/// A candidate line is noise and must never be offered for selection: it
/// runs through a dependency-manager cache, version-control metadata, a
/// general cache, a temporary directory, or a user-library directory.
pub open spec fn line_excluded(l: Seq<char>) -> bool {
    has_substr(l, "/node_modules/"@) || has_substr(l, "/.git/"@) || has_substr(l, "/.cache/"@)
        || has_substr(l, "/tmp/"@) || has_substr(l, "/Library/"@)
}

/// The fixed, compiled exclusion pattern. It is resolved once per run and
/// reused for every candidate line.
pub struct ExclusionFilter {
    re: regex::Regex,
}

impl ExclusionFilter {
    /// Compiles the exclusion pattern.
    ///
    /// Relies on `regex::Regex::new`: the fixed pattern below is a valid
    /// regular expression, so compilation succeeds.
    #[verifier::external_body]
    pub fn new() -> ExclusionFilter {
        ExclusionFilter {
            re: regex::Regex::new(r"/node_modules/|/\.git/|/\.cache/|/tmp/|/Library/").unwrap(),
        }
    }

    /// Tests one candidate line against the exclusion pattern.
    ///
    /// Relies on `regex::Regex::is_match`: an alternation of escaped literals
    /// matches a haystack exactly when the haystack contains one of the
    /// literals as a substring. The only constructor of this type compiles
    /// the alternation of the five literals that `line_excluded` names.
    #[verifier::external_body]
    pub fn is_excluded(&self, line: &str) -> (r: bool)
        ensures
            r == line_excluded(line@),
    {
        self.re.is_match(line)
    }
}

/// The lines of a list that are non-empty and not excluded, in their order.
pub open spec fn keep_candidates(ls: Seq<Seq<char>>) -> Seq<Seq<char>>
    decreases ls.len(),
{
    if ls.len() == 0 {
        ls
    } else {
        let r = keep_candidates(ls.drop_last());
        if ls.last().len() > 0 && !line_excluded(ls.last()) {
            r.push(ls.last())
        } else {
            r
        }
    }
}

/// Every line that the exclusion filter keeps is non-empty and not excluded.
pub proof fn lemma_keep_candidates_sound(ls: Seq<Seq<char>>)
    ensures
        forall|i: int|
            0 <= i < keep_candidates(ls).len() ==> (#[trigger] keep_candidates(ls)[i]).len() > 0
                && !line_excluded(keep_candidates(ls)[i]),
    decreases ls.len(),
{
    if ls.len() > 0 {
        lemma_keep_candidates_sound(ls.drop_last());
        let r = keep_candidates(ls.drop_last());
        assert forall|i: int| 0 <= i < keep_candidates(ls).len() implies (
        #[trigger] keep_candidates(ls)[i]).len() > 0 && !line_excluded(
            keep_candidates(ls)[i],
        ) by {
            if ls.last().len() > 0 && !line_excluded(ls.last()) {
                assert(keep_candidates(ls) == r.push(ls.last()));
                if i < r.len() {
                    assert(keep_candidates(ls)[i] == r[i]);
                } else {
                    assert(keep_candidates(ls)[i] == ls.last());
                }
            } else {
                assert(keep_candidates(ls)[i] == r[i]);
            }
        }
    }
}

/// No list of candidate lines, whatever it holds, ever yields an excluded
/// path from the exclusion filter.
pub proof fn lemma_excluded_never_kept(ls: Seq<Seq<char>>, s: Seq<char>)
    requires
        line_excluded(s),
    ensures
        !keep_candidates(ls).contains(s),
{
    lemma_keep_candidates_sound(ls);
}

/// Keeps the candidate lines that are non-empty and not excluded, in order.
pub fn filter_candidates(lines: &Vec<String>, filter: &ExclusionFilter) -> (r: Vec<String>)
    ensures
        r.deep_view() == keep_candidates(lines.deep_view()),
        forall|s: Seq<char>| line_excluded(s) ==> !r.deep_view().contains(s),
{
    proof {
        lemma_deep_view_is_str_views(lines);
    }
    let mut r: Vec<String> = Vec::new();
    let mut i: usize = 0;
    proof {
        assert(str_views(lines@).subrange(0, 0) =~= Seq::<Seq<char>>::empty());
        assert(str_views(r@) =~= keep_candidates(str_views(lines@).subrange(0, 0)));
    }
    while i < lines.len()
        invariant
            i <= lines.len(),
            str_views(lines@) == lines.deep_view(),
            str_views(r@) == keep_candidates(str_views(lines@).subrange(0, i as int)),
        decreases lines.len() - i,
    {
        proof {
            assert(str_views(lines@).subrange(0, i + 1).drop_last() =~= str_views(
                lines@,
            ).subrange(0, i as int));
            assert(str_views(lines@).subrange(0, i + 1).last() == lines@[i as int]@);
        }
        if !lines[i].as_str().is_empty() && !filter.is_excluded(lines[i].as_str()) {
            let line = lines[i].clone();
            proof {
                lemma_str_views_push(r@, line);
            }
            r.push(line);
        }
        i = i + 1;
    }
    proof {
        assert(str_views(lines@).subrange(0, lines@.len() as int) =~= str_views(lines@));
        lemma_deep_view_is_str_views(&r);
        lemma_keep_candidates_sound(lines.deep_view());
    }
    r
}

} // verus!
