//! Resolution of the work set: either the repositories of explicitly named
//! organizations, taken verbatim, or full discovery over every organization
//! visible to the credential, with the archived/fork filter applied.
//!
//! The hosting-API calls themselves happen outside the library; this module
//! combines their results, discarding partial results on the first failure.

use vstd::prelude::*;

use crate::errors::DiscoveryError;
use crate::repo::Repo;

verus! {

/// How the work set is resolved: explicit organization names bypass the
/// archived/fork filter; full discovery applies it.
#[derive(PartialEq, Eq, Structural)]
pub enum WorkSetMode {
    Explicit,
    FullDiscovery,
}

/// Explicit names, if any were given, select explicit mode; otherwise the
/// run discovers every organization visible to the credential.
pub fn work_set_mode(explicit_org_count: usize) -> (m: WorkSetMode)
    ensures
        m == WorkSetMode::Explicit <==> explicit_org_count > 0,
{
    if explicit_org_count > 0 {
        WorkSetMode::Explicit
    } else {
        WorkSetMode::FullDiscovery
    }
}

/// The membership test of the full-discovery filter, as a predicate value.
pub open spec fn wanted_pred() -> spec_fn(Repo) -> bool {
    |r: Repo| r.spec_wanted()
}

/// Every per-organization listing succeeded.
pub open spec fn all_ok(rs: Seq<Result<Vec<Repo>, DiscoveryError>>) -> bool {
    forall|i: int| 0 <= i < rs.len() ==> rs[i] is Ok
}

/// `e` is the error of the first listing that failed.
pub open spec fn is_first_err(rs: Seq<Result<Vec<Repo>, DiscoveryError>>, e: DiscoveryError) -> bool {
    exists|i: int|
        0 <= i < rs.len() && rs[i] == Result::<Vec<Repo>, DiscoveryError>::Err(e) && (forall|j: int|
            0 <= j < i ==> rs[j] is Ok)
}

/// All repositories of all successful listings, in listing order; a failed
/// listing contributes nothing.
pub open spec fn flat_all(rs: Seq<Result<Vec<Repo>, DiscoveryError>>) -> Seq<Repo>
    decreases rs.len(),
{
    if rs.len() == 0 {
        Seq::empty()
    } else {
        flat_all(rs.drop_last()) + (if rs.last() is Ok {
            rs.last()->Ok_0@
        } else {
            Seq::<Repo>::empty()
        })
    }
}

/// Keeps exactly the repositories that belong to the full-discovery work
/// set: neither archived nor a fork, in their original order.
pub fn filter_wanted(repos: Vec<Repo>) -> (kept: Vec<Repo>)
    ensures
        kept@ == repos@.filter(wanted_pred()),
{
    let mut kept: Vec<Repo> = Vec::new();
    let mut i: usize = 0;
    proof {
        reveal_with_fuel(Seq::<_>::filter, 2);
        assert(repos@.subrange(0, 0) =~= Seq::<Repo>::empty());
        assert(kept@ =~= repos@.subrange(0, 0).filter(wanted_pred()));
    }
    while i < repos.len()
        invariant
            i <= repos.len(),
            kept@ == repos@.subrange(0, i as int).filter(wanted_pred()),
        decreases repos.len() - i,
    {
        let ghost pre = repos@.subrange(0, i as int);
        if repos[i].wanted() {
            kept.push(repos[i].clone());
        }
        proof {
            reveal_with_fuel(Seq::<_>::filter, 2);
            assert(repos@.subrange(0, i as int + 1) =~= pre + seq![repos@[i as int]]);
            Seq::<Repo>::filter_distributes_over_add(pre, seq![repos@[i as int]], wanted_pred());
            assert(seq![repos@[i as int]].drop_last() =~= Seq::<Repo>::empty());
            assert(kept@ =~= repos@.subrange(0, i as int + 1).filter(wanted_pred()));
        }
        i = i + 1;
    }
    proof {
        assert(repos@.subrange(0, repos@.len() as int) =~= repos@);
    }
    kept
}

/// Concatenates the per-organization listings of explicitly named
/// organizations, verbatim and unfiltered; the first failed listing fails
/// the whole resolution and every partial result is discarded.
pub fn gather_explicit(per_org: Vec<Result<Vec<Repo>, DiscoveryError>>) -> (r: Result<
    Vec<Repo>,
    DiscoveryError,
>)
    ensures
        r is Ok <==> all_ok(per_org@),
        r matches Ok(repos) ==> repos@ == flat_all(per_org@),
        r matches Err(e) ==> is_first_err(per_org@, e),
{
    let mut acc: Vec<Repo> = Vec::new();
    let mut i: usize = 0;
    proof {
        assert(per_org@.subrange(0, 0) =~= Seq::<Result<Vec<Repo>, DiscoveryError>>::empty());
    }
    while i < per_org.len()
        invariant
            i <= per_org.len(),
            acc@ == flat_all(per_org@.subrange(0, i as int)),
            forall|j: int| 0 <= j < i ==> per_org@[j] is Ok,
        decreases per_org.len() - i,
    {
        let ghost pre = per_org@.subrange(0, i as int);
        match &per_org[i] {
            Ok(repos) => {
                let mut k: usize = 0;
                while k < repos.len()
                    invariant
                        k <= repos.len(),
                        acc@ == flat_all(pre) + repos@.subrange(0, k as int),
                        0 <= i < per_org@.len(),
                        repos@ == per_org@[i as int]->Ok_0@,
                    decreases repos.len() - k,
                {
                    acc.push(repos[k].clone());
                    proof {
                        assert(repos@.subrange(0, k as int + 1) =~= repos@.subrange(0, k as int)
                            + seq![repos@[k as int]]);
                        assert(acc@ =~= flat_all(pre) + repos@.subrange(0, k as int + 1));
                    }
                    k = k + 1;
                }
                proof {
                    assert(repos@.subrange(0, repos@.len() as int) =~= repos@);
                    assert(per_org@.subrange(0, i as int + 1).drop_last() =~= pre);
                    assert(per_org@.subrange(0, i as int + 1).last() == per_org@[i as int]);
                    assert(acc@ =~= flat_all(per_org@.subrange(0, i as int + 1)));
                }
            },
            Err(e) => {
                let err = DiscoveryError { message: e.message.clone() };
                proof {
                    assert(per_org@[i as int] == Result::<Vec<Repo>, DiscoveryError>::Err(err));
                    assert(is_first_err(per_org@, err));
                }
                return Err(err);
            },
        }
        i = i + 1;
    }
    proof {
        assert(per_org@.subrange(0, per_org@.len() as int) =~= per_org@);
    }
    Ok(acc)
}

/// Combines the per-organization listings of full discovery: the first
/// failed listing fails the whole resolution and discards every partial
/// result; otherwise the work set is every listed repository that is
/// neither archived nor a fork.
pub fn gather_discovered(per_org: Vec<Result<Vec<Repo>, DiscoveryError>>) -> (r: Result<
    Vec<Repo>,
    DiscoveryError,
>)
    ensures
        r is Ok <==> all_ok(per_org@),
        r matches Ok(repos) ==> repos@ == flat_all(per_org@).filter(wanted_pred()),
        r matches Err(e) ==> is_first_err(per_org@, e),
{
    match gather_explicit(per_org) {
        Ok(all) => Ok(filter_wanted(all)),
        Err(e) => Err(e),
    }
}

/// Filtering law. In full-discovery mode a repository stands in the work
/// set exactly when it was listed and is neither archived nor a fork; in
/// explicit mode the work set is every listed repository, whatever its
/// flags, because no filter is applied to it.
pub proof fn lemma_work_set_filtering(
    per_org: Seq<Result<Vec<Repo>, DiscoveryError>>,
    r: Repo,
)
    ensures
        flat_all(per_org).filter(wanted_pred()).contains(r) <==> flat_all(per_org).contains(r)
            && r.spec_wanted(),
{
    let listed = flat_all(per_org);
    if listed.filter(wanted_pred()).contains(r) {
        listed.lemma_filter_contains_rev(wanted_pred(), r);
        let i = choose|i: int|
            0 <= i < listed.filter(wanted_pred()).len() && listed.filter(wanted_pred())[i] == r;
        listed.lemma_filter_pred(wanted_pred(), i);
    }
    if listed.contains(r) && r.spec_wanted() {
        let i = choose|i: int| 0 <= i < listed.len() && listed[i] == r;
        listed.lemma_filter_contains(wanted_pred(), i);
    }
}

} // verus!
