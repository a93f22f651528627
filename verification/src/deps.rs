use vstd::prelude::*;

use crate::errors::TshError;
use crate::text::lemma_deep_view_is_str_views;
use crate::text::lemma_str_views_push;
use crate::text::str_views;

verus! {

/// Tests whether an executable of this name can be resolved on the search
/// path. The answer depends on the machine's state, so nothing more is
/// promised of it.
///
/// Relies on `which::which`: it returns `Ok` with the executable's path
/// exactly when the name resolves on the search path, and an error otherwise.
#[verifier::external_body]
pub(crate) fn which_resolves(name: &str) -> bool {
    which::which(name).is_ok()
}

/// The names whose probe answered `false`, in their request order.
pub open spec fn missing_of(deps: Seq<Seq<char>>, present: Seq<bool>) -> Seq<Seq<char>>
    decreases deps.len(),
{
    if deps.len() == 0 || deps.len() != present.len() {
        Seq::empty()
    } else {
        let r = missing_of(deps.drop_last(), present.drop_last());
        if !present.last() {
            r.push(deps.last())
        } else {
            r
        }
    }
}

/// Every name that `missing_of` keeps is one of the requested names.
pub proof fn lemma_missing_of_sound(deps: Seq<Seq<char>>, present: Seq<bool>)
    requires
        deps.len() == present.len(),
    ensures
        forall|i: int|
            0 <= i < missing_of(deps, present).len() ==> deps.contains(
                #[trigger] missing_of(deps, present)[i],
            ),
    decreases deps.len(),
{
    if deps.len() > 0 {
        lemma_missing_of_sound(deps.drop_last(), present.drop_last());
        let r = missing_of(deps.drop_last(), present.drop_last());
        assert forall|i: int| 0 <= i < missing_of(deps, present).len() implies deps.contains(
            #[trigger] missing_of(deps, present)[i],
        ) by {
            assert forall|j: int| 0 <= j < r.len() && deps.drop_last().contains(
                #[trigger] r[j],
            ) implies deps.contains(r[j]) by {
                let k = choose|k: int|
                    0 <= k < deps.drop_last().len() && deps.drop_last()[k] == r[j];
                assert(deps[k] == r[j]);
            }
            if !present.last() {
                assert(missing_of(deps, present) == r.push(deps.last()));
                if i < r.len() {
                    assert(missing_of(deps, present)[i] == r[i]);
                } else {
                    assert(missing_of(deps, present)[i] == deps.last());
                    assert(deps[deps.len() - 1] == deps.last());
                }
            } else {
                assert(missing_of(deps, present)[i] == r[i]);
            }
        }
    }
}

/// Collects the names whose probe answered `false`, in request order.
pub fn collect_missing(deps: &Vec<String>, present: &Vec<bool>) -> (m: Vec<String>)
    requires
        deps@.len() == present@.len(),
    ensures
        m.deep_view() == missing_of(deps.deep_view(), present@),
{
    proof {
        lemma_deep_view_is_str_views(deps);
    }
    let mut m: Vec<String> = Vec::new();
    let mut i: usize = 0;
    proof {
        assert(str_views(deps@).subrange(0, 0) =~= Seq::<Seq<char>>::empty());
        assert(present@.subrange(0, 0) =~= Seq::<bool>::empty());
        assert(str_views(m@) =~= missing_of(
            str_views(deps@).subrange(0, 0),
            present@.subrange(0, 0),
        ));
    }
    while i < deps.len()
        invariant
            i <= deps.len(),
            deps@.len() == present@.len(),
            str_views(deps@) == deps.deep_view(),
            str_views(m@) == missing_of(
                str_views(deps@).subrange(0, i as int),
                present@.subrange(0, i as int),
            ),
        decreases deps.len() - i,
    {
        proof {
            assert(str_views(deps@).subrange(0, i + 1).drop_last() =~= str_views(deps@).subrange(
                0,
                i as int,
            ));
            assert(present@.subrange(0, i + 1).drop_last() =~= present@.subrange(0, i as int));
            assert(str_views(deps@).subrange(0, i + 1).last() == deps@[i as int]@);
            assert(present@.subrange(0, i + 1).last() == present@[i as int]);
        }
        if !present[i] {
            let name = deps[i].clone();
            proof {
                lemma_str_views_push(m@, name);
            }
            m.push(name);
        }
        i = i + 1;
    }
    proof {
        assert(str_views(deps@).subrange(0, deps@.len() as int) =~= str_views(deps@));
        assert(present@.subrange(0, present@.len() as int) =~= present@);
        lemma_deep_view_is_str_views(&m);
    }
    m
}

/// The two executables every run needs: the interactive selector and the
/// multiplexer binary.
pub fn required_dependencies() -> (v: Vec<String>)
    ensures
        v.deep_view() == seq!["fzf"@, "tmux"@],
{
    let mut v: Vec<String> = Vec::new();
    v.push(String::from_str("fzf"));
    v.push(String::from_str("tmux"));
    proof {
        lemma_deep_view_is_str_views(&v);
        assert(str_views(v@) =~= seq!["fzf"@, "tmux"@]);
    }
    v
}

/// Decides the dependency check's outcome from the list of unresolved
/// names: success exactly when the list is empty, else the failure carrying
/// that full list, unchanged.
pub fn gate_outcome(missing: Vec<String>) -> (r: Result<(), TshError>)
    ensures
        missing@.len() == 0 <==> r is Ok,
        r matches Err(e) ==> e matches TshError::MissingDependencies(m) && m == missing,
{
    if missing.len() == 0 {
        Ok(())
    } else {
        Err(TshError::MissingDependencies(missing))
    }
}

/// Probes every required executable and fails with the full list of
/// unresolved names when any is missing. The probe's answers depend on the
/// machine, so the contract promises what holds of every outcome: the result
/// is `gate_outcome` applied to the probed list, so success comes exactly
/// when that list is empty, and failure carries all of it, every name a
/// requested one, in request order.
pub fn check_dependencies(deps: &Vec<String>) -> (r: Result<(), TshError>)
    ensures
        deps@.len() == 0 ==> r is Ok,
        r matches Err(e) ==> e matches TshError::MissingDependencies(m) && (exists|p: Seq<bool>|
            p.len() == deps@.len() && m.deep_view() == missing_of(deps.deep_view(), p)) && m@.len()
            > 0 && (forall|i: int|
            0 <= i < m.deep_view().len() ==> deps.deep_view().contains(#[trigger] m.deep_view()[i])),
{
    let mut present: Vec<bool> = Vec::new();
    let mut i: usize = 0;
    while i < deps.len()
        invariant
            i <= deps.len(),
            present@.len() == i,
        decreases deps.len() - i,
    {
        present.push(which_resolves(deps[i].as_str()));
        i = i + 1;
    }
    let missing = collect_missing(deps, &present);
    proof {
        lemma_missing_of_sound(deps.deep_view(), present@);
        assert(missing.deep_view().len() == missing@.len());
    }
    gate_outcome(missing)
}

} // verus!
