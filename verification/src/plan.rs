//! The driver loop: runs a whole planning session to completion against
//! caller-supplied collaborators, producing a terminal [`Outcome`] or the
//! first collaborator error, tagged by its source.
//!
//! Collaborators are plain functions in state-passing style: each receives
//! the caller's context value and hands it back, so a sampler can advance a
//! generator and a limiter can count iterations without any shared mutable
//! state. The driver itself performs no retries: the first error aborts the
//! run.

use vstd::prelude::*;

use crate::util::vec_slist::{EmptyRandomTree, NodeRef, RandomTree};

verus! {

/// What a transition checker decides for one sampled candidate: abandon the
/// sample, or grow the tree by the given non-empty chain of states.
pub enum Transition<S> {
    Rejected,
    Accepted(Vec<S>),
}

/// A breach of the planning protocol by a collaborator: a node reference
/// that does not belong to the current tree, or an accepted transition with
/// an empty chain. Unreachable when the collaborators meet their contracts.
pub struct TreeStoreError;

/// The first error a run ends with, tagged by the collaborator it came
/// from. Payloads are never inspected, only forwarded.
pub enum PlanError<LE, SE, NE, TE, GE> {
    TreeStore(TreeStoreError),
    Limiter(LE),
    Sampler(SE),
    NearestNode(NE),
    TransitionChecker(TE),
    GoalChecker(GE),
}

/// A successful, terminal result of a run: a path from the root to a goal
/// state, or the final tree when the sampler was exhausted or the limiter
/// ended the run.
pub enum Outcome<S> {
    PathPlanned(Vec<S>),
    NoPathExists(RandomTree<S>),
    LimitReached(RandomTree<S>),
}

/// The strict order on distance values: defined distances compare by their
/// number, and an undefined distance compares with nothing.
pub open spec fn dist_lt(a: Option<u64>, b: Option<u64>) -> bool {
    match (a, b) {
        (Some(x), Some(y)) => x < y,
        _ => false,
    }
}

/// The index the full scan settles on after seeing the first `n` distances:
/// starts at the root and moves only for a strictly smaller defined
/// distance, so the first minimal value wins and wholly undefined distances
/// leave the root in place.
pub open spec fn scan_best(ds: Seq<Option<u64>>, n: int) -> int
    decreases n,
{
    if n <= 1 {
        0
    } else {
        let prev = scan_best(ds, n - 1);
        if dist_lt(ds[n - 1], ds[prev]) {
            n - 1
        } else {
            prev
        }
    }
}

/// The scan's choice is always among the entries it has seen.
pub proof fn lemma_scan_best_in_range(ds: Seq<Option<u64>>, n: int)
    requires
        n >= 1,
    ensures
        0 <= scan_best(ds, n) < n,
    decreases n,
{
    if n > 1 {
        lemma_scan_best_in_range(ds, n - 1);
    }
}

fn dist_lt_exec(a: Option<u64>, b: Option<u64>) -> (r: bool)
    ensures
        r == dist_lt(a, b),
{
    match (a, b) {
        (Some(x), Some(y)) => x < y,
        _ => false,
    }
}

/// Full-scan nearest-node search: applies `metric` to every node state,
/// root first then insertion order, and returns the reference of the first
/// node whose distance to `sample` is minimal. Ties and undefined distances
/// never displace an earlier candidate, so a sample no node is comparable
/// to yields the root.
pub fn locate_nearest<S, F: Fn(&S, &S) -> Option<u64>>(
    tree: &RandomTree<S>,
    sample: &S,
    metric: &F,
) -> (r: NodeRef)
    requires
        tree.wf(),
        forall|a: &S, b: &S| #[trigger] call_requires(*metric, (a, b)),
    ensures
        tree.contains_ref_spec(r),
        exists|ds: Seq<Option<u64>>|
            {
                &&& ds.len() == tree@.len()
                &&& (forall|i: int|
                    0 <= i < ds.len() ==> #[trigger] call_ensures(
                        *metric,
                        (&tree@[i], sample),
                        ds[i],
                    ))
                &&& r.idx() == scan_best(ds, ds.len() as int)
            },
{
    let en = tree.states();
    let (root_ref, root_state) = en.root;
    let mut children = en.children;
    let mut best = root_ref;
    let mut best_d = metric(root_state, sample);
    let ghost mut ds: Seq<Option<u64>> = seq![best_d];
    proof {
        assert(scan_best(ds, 1) == 0);
    }
    loop
        invariant
            tree.wf(),
            forall|a: &S, b: &S| #[trigger] call_requires(*metric, (a, b)),
            children.src() == tree@,
            1 <= children.pos() <= tree@.len(),
            ds.len() == children.pos(),
            forall|i: int|
                0 <= i < ds.len() ==> #[trigger] call_ensures(*metric, (&tree@[i], sample), ds[i]),
            best.idx() == scan_best(ds, ds.len() as int),
            0 <= best.idx() < ds.len(),
            best_d == ds[best.idx()],
        ensures
            ds.len() == tree@.len(),
            forall|i: int|
                0 <= i < ds.len() ==> #[trigger] call_ensures(*metric, (&tree@[i], sample), ds[i]),
            best.idx() == scan_best(ds, ds.len() as int),
            0 <= best.idx() < ds.len(),
        decreases tree@.len() - children.pos(),
    {
        match children.next() {
            None => {
                break ;
            },
            Some((nr, s)) => {
                let ghost old_ds = ds;
                let ghost old_best = best;
                let d = metric(s, sample);
                let closer = dist_lt_exec(d, best_d);
                if closer {
                    best = nr;
                    best_d = d;
                }
                proof {
                    ds = old_ds.push(d);
                    let n = ds.len() as int;
                    assert(ds.drop_last() =~= old_ds);
                    lemma_scan_best_prefix(old_ds, ds, n - 1);
                    assert(ds[n - 1] == d);
                    assert(ds[old_best.idx()] == old_ds[old_best.idx()]);
                    assert(scan_best(ds, n) == if closer {
                        n - 1
                    } else {
                        old_best.idx()
                    });
                    assert forall|i: int|
                        0 <= i < ds.len() implies #[trigger] call_ensures(
                        *metric,
                        (&tree@[i], sample),
                        ds[i],
                    ) by {
                        if i < n - 1 {
                            assert(ds[i] == old_ds[i]);
                        }
                    }
                }
            },
        }
    }
    best
}

/// The scan over a prefix does not depend on entries past the prefix.
proof fn lemma_scan_best_prefix(ds1: Seq<Option<u64>>, ds2: Seq<Option<u64>>, n: int)
    requires
        n <= ds1.len(),
        ds1.len() <= ds2.len(),
        forall|i: int| 0 <= i < ds1.len() ==> ds1[i] == ds2[i],
    ensures
        scan_best(ds2, n) == scan_best(ds1, n),
    decreases n,
{
    if n > 1 {
        lemma_scan_best_prefix(ds1, ds2, n - 1);
        lemma_scan_best_in_range(ds1, n - 1);
    }
}

/// The goal checker can never approve `state`: every answer it may give for
/// it is `false` or an error.
pub open spec fn goal_cannot_approve<S, U, GE, FG: Fn(U, &S) -> Result<(U, bool), GE>>(
    goal: FG,
    state: S,
) -> bool {
    forall|u: U, s: &S, r: Result<(U, bool), GE>|
        *s == state && #[trigger] call_ensures(goal, (u, s), r) ==> !(r matches Ok(p) && p.1)
}

/// The limiter reports the budget as exceeded whenever it is asked about a
/// tree that holds only its root — in particular at a run's very first
/// check.
pub open spec fn limiter_exceeds_at_root<
    S,
    U,
    LE,
    FL: Fn(U, &RandomTree<S>) -> Result<(U, bool), LE>,
>(limiter: FL) -> bool {
    forall|u: U, t: &RandomTree<S>, r: Result<(U, bool), LE>|
        t@.len() == 1 && #[trigger] call_ensures(limiter, (u, t), r) ==> !(r matches Ok(p) && !p.1)
}

/// The limiter never reports the budget as exceeded while the tree holds
/// only its root.
pub open spec fn limiter_spares_root<
    S,
    U,
    LE,
    FL: Fn(U, &RandomTree<S>) -> Result<(U, bool), LE>,
>(limiter: FL) -> bool {
    forall|u: U, t: &RandomTree<S>, r: Result<(U, bool), LE>|
        t@.len() == 1 && #[trigger] call_ensures(limiter, (u, t), r) ==> !(r matches Ok(p) && p.1)
}

/// The sampler signals exhaustion whenever it is asked about a tree that
/// holds only its root — in particular before any accepted transition.
pub open spec fn sampler_exhausted_at_root<
    S,
    U,
    SE,
    FS: Fn(U, &RandomTree<S>) -> Result<(U, Option<S>), SE>,
>(sampler: FS) -> bool {
    forall|u: U, t: &RandomTree<S>, r: Result<(U, Option<S>), SE>|
        t@.len() == 1 && #[trigger] call_ensures(sampler, (u, t), r) ==> !(r matches Ok(p) && p.1
            is Some)
}

/// Every answer the goal checker can give is an error.
pub open spec fn goal_always_fails<S, U, GE, FG: Fn(U, &S) -> Result<(U, bool), GE>>(
    goal: FG,
) -> bool {
    forall|u: U, s: &S, r: Result<(U, bool), GE>| #[trigger] call_ensures(goal, (u, s), r) ==> r
        is Err
}

/// Every answer the limiter can give is an error.
pub open spec fn limiter_always_fails<
    S,
    U,
    LE,
    FL: Fn(U, &RandomTree<S>) -> Result<(U, bool), LE>,
>(limiter: FL) -> bool {
    forall|u: U, t: &RandomTree<S>, r: Result<(U, bool), LE>|
        #[trigger] call_ensures(limiter, (u, t), r) ==> r is Err
}

/// Every answer the sampler can give is an error.
pub open spec fn sampler_always_fails<
    S,
    U,
    SE,
    FS: Fn(U, &RandomTree<S>) -> Result<(U, Option<S>), SE>,
>(sampler: FS) -> bool {
    forall|u: U, t: &RandomTree<S>, r: Result<(U, Option<S>), SE>|
        #[trigger] call_ensures(sampler, (u, t), r) ==> r is Err
}

/// Every answer the nearest-node locator can give is an error.
pub open spec fn locator_always_fails<
    S,
    U,
    NE,
    FN: Fn(U, &RandomTree<S>, &S) -> Result<(U, NodeRef), NE>,
>(locator: FN) -> bool {
    forall|u: U, t: &RandomTree<S>, s: &S, r: Result<(U, NodeRef), NE>|
        #[trigger] call_ensures(locator, (u, t, s), r) ==> r is Err
}

/// Runs one whole planning session: roots the tree at `start` and then
/// repeats the limiter check, sampling, nearest-node search and transition
/// check until a terminal [`Outcome`] or the first collaborator error.
///
/// Collaborators receive the context value `ctx` and pass it along; on a
/// successful outcome the final context is returned with it. The goal
/// checker runs right after rooting and after every accepted transition,
/// never after a rejected one. Budgets belong to the limiter; the driver
/// itself only holds a last-resort bound of `usize::MAX` iterations, also
/// reported as `LimitReached`, so that every run provably terminates.
///
/// The contract carries the protocol's laws: a planned path begins with
/// `start` and ends in a state the goal checker approved; a limiter that
/// reports "exceeded" at the very first check — that is, on any tree still
/// holding only the root — ends the run at once as `LimitReached`, the tree
/// still holding only the root; a sampler exhausted before any accepted
/// transition, under a limiter that spares the root, yields `NoPathExists`
/// with the tree still holding only the root. Every returned error is one
/// its collaborator can actually answer: each `PlanError` tag carries a
/// payload the tagged collaborator's own postcondition admits, so a caller
/// whose collaborators cannot fail can rule the error outcomes out.
///
/// Conversely, each successful outcome names its cause: `NoPathExists`
/// carries a tree the sampler answered with exhaustion on, and
/// `LimitReached` a tree the limiter was consulted on — answering `true`
/// for an exceeded budget, or `false` in the one case where the internal
/// last-resort bound ended the run right after the limiter declined. And a
/// collaborator that can only fail aborts the run where it stands in the
/// call order: nothing after it is ever reported.
#[verifier::loop_isolation(false)]
pub fn plan<S, U, LE, SE, NE, TE, GE, FL, FS, FN, FT, FG>(
    start: S,
    ctx: U,
    limiter: FL,
    sampler: FS,
    locator: FN,
    checker: FT,
    goal: FG,
) -> (r: Result<(Outcome<S>, U), PlanError<LE, SE, NE, TE, GE>>) where
    FL: Fn(U, &RandomTree<S>) -> Result<(U, bool), LE>,
    FS: Fn(U, &RandomTree<S>) -> Result<(U, Option<S>), SE>,
    FN: Fn(U, &RandomTree<S>, &S) -> Result<(U, NodeRef), NE>,
    FT: Fn(U, &S, &S) -> Result<(U, Transition<S>), TE>,
    FG: Fn(U, &S) -> Result<(U, bool), GE>,

    requires
        forall|u: U, t: &RandomTree<S>| #[trigger] call_requires(limiter, (u, t)),
        forall|u: U, t: &RandomTree<S>| #[trigger] call_requires(sampler, (u, t)),
        forall|u: U, t: &RandomTree<S>, s: &S| #[trigger] call_requires(locator, (u, t, s)),
        forall|u: U, a: &S, b: &S| #[trigger] call_requires(checker, (u, a, b)),
        forall|u: U, s: &S| #[trigger] call_requires(goal, (u, s)),
    ensures
        r matches Ok((Outcome::PathPlanned(found), _)) ==> {
            &&& found@.len() >= 1
            &&& found@[0] == start
            &&& exists|u1: U, sarg: &S, res: Result<(U, bool), GE>|
                #[trigger] call_ensures(goal, (u1, sarg), res) && *sarg == found@.last() && (
                res matches Ok(p) && p.1)
        },
        r matches Ok((Outcome::NoPathExists(t), _)) ==> t.wf() && t@.len() >= 1 && t@[0] == start,
        r matches Ok((Outcome::LimitReached(t), _)) ==> t.wf() && t@.len() >= 1 && t@[0] == start,
        r matches Ok((Outcome::NoPathExists(t), _)) ==> exists|
            u1: U,
            targ: &RandomTree<S>,
            res: Result<(U, Option<S>), SE>,
        |
            #[trigger] call_ensures(sampler, (u1, targ), res) && *targ == t && (res matches Ok(p)
                && p.1 is None),
        r matches Ok((Outcome::LimitReached(t), _)) ==> {
            ||| exists|u1: U, targ: &RandomTree<S>, res: Result<(U, bool), LE>|
                #[trigger] call_ensures(limiter, (u1, targ), res) && *targ == t && (res matches Ok(
                p,
                ) && p.1)
            ||| exists|u1: U, targ: &RandomTree<S>, res: Result<(U, bool), LE>|
                #[trigger] call_ensures(limiter, (u1, targ), res) && *targ == t && (res matches Ok(
                p,
                ) && !p.1)
        },
        goal_cannot_approve(goal, start) && limiter_exceeds_at_root(limiter) ==> {
            ||| (r matches Ok((Outcome::LimitReached(t), _)) && t@ == seq![start])
            ||| r matches Err(PlanError::GoalChecker(_))
            ||| r matches Err(PlanError::Limiter(_))
        },
        goal_cannot_approve(goal, start) && limiter_spares_root(limiter)
            && sampler_exhausted_at_root(sampler) ==> {
            ||| (r matches Ok((Outcome::NoPathExists(t), _)) && t@ == seq![start])
            ||| r matches Err(PlanError::GoalChecker(_))
            ||| r matches Err(PlanError::Limiter(_))
            ||| r matches Err(PlanError::Sampler(_))
        },
        goal_always_fails(goal) ==> r matches Err(PlanError::GoalChecker(_)),
        limiter_always_fails(limiter) ==> {
            ||| r matches Err(PlanError::Limiter(_))
            ||| r matches Err(PlanError::GoalChecker(_))
            ||| r matches Ok((Outcome::PathPlanned(_), _))
        },
        sampler_always_fails(sampler) ==> {
            ||| r matches Err(PlanError::Sampler(_))
            ||| r matches Err(PlanError::Limiter(_))
            ||| r matches Err(PlanError::GoalChecker(_))
            ||| r matches Ok((Outcome::PathPlanned(_), _))
            ||| r matches Ok((Outcome::LimitReached(_), _))
        },
        locator_always_fails(locator) ==> !(r matches Err(PlanError::TransitionChecker(_))) && !(
        r matches Err(PlanError::TreeStore(_))),
        r matches Err(PlanError::Limiter(e)) ==> exists|
            u: U,
            t: &RandomTree<S>,
            res: Result<(U, bool), LE>,
        |
            #[trigger] call_ensures(limiter, (u, t), res) && res == Err::<(U, bool), LE>(e),
        r matches Err(PlanError::Sampler(e)) ==> exists|
            u: U,
            t: &RandomTree<S>,
            res: Result<(U, Option<S>), SE>,
        |
            #[trigger] call_ensures(sampler, (u, t), res) && res == Err::<(U, Option<S>), SE>(e),
        r matches Err(PlanError::NearestNode(e)) ==> exists|
            u: U,
            t: &RandomTree<S>,
            s: &S,
            res: Result<(U, NodeRef), NE>,
        |
            #[trigger] call_ensures(locator, (u, t, s), res) && res == Err::<(U, NodeRef), NE>(e),
        r matches Err(PlanError::TransitionChecker(e)) ==> exists|
            u: U,
            a: &S,
            b: &S,
            res: Result<(U, Transition<S>), TE>,
        |
            #[trigger] call_ensures(checker, (u, a, b), res) && res == Err::<
                (U, Transition<S>),
                TE,
            >(e),
        r matches Err(PlanError::GoalChecker(e)) ==> exists|u: U, s: &S, res: Result<(U, bool), GE>|
            #[trigger] call_ensures(goal, (u, s), res) && res == Err::<(U, bool), GE>(e),
        r matches Err(PlanError::TreeStore(_)) ==> {
            ||| exists|u: U, u2: U, t: RandomTree<S>, s: S, nr: NodeRef|
                #[trigger] call_ensures(locator, (u, &t, &s), Ok((u2, nr)))
                    && !t.contains_ref_spec(nr)
            ||| exists|u: U, u2: U, a: S, b: S, ch: Vec<S>|
                #[trigger] call_ensures(checker, (u, &a, &b), Ok((u2, Transition::Accepted(ch))))
                    && ch@.len() == 0
        },
{
    let ghost start0 = start;
    let mut ctx = ctx;
    let mut tree = EmptyRandomTree::new().add_root(start);
    let root_ref = tree.root();
    let root_state = tree.get_state(&root_ref);
    match goal(ctx, root_state) {
        Err(e) => {
            return Err(PlanError::GoalChecker(e));
        },
        Ok((c, reached)) => {
            ctx = c;
            if reached {
                let path = tree.into_path(root_ref);
                proof {
                    assert(path@ =~= seq![start0]);
                }
                return Ok((Outcome::PathPlanned(path), ctx));
            }
        },
    }
    let mut fuel: usize = usize::MAX;
    loop
        invariant
            tree.wf(),
            tree@.len() >= 1,
            tree@[0] == start0,
            limiter_exceeds_at_root(limiter) ==> tree@.len() == 1,
            limiter_spares_root(limiter) && sampler_exhausted_at_root(sampler) ==> tree@.len() == 1
                && fuel == usize::MAX,
            sampler_always_fails(sampler) ==> fuel == usize::MAX,
        decreases fuel,
    {
        match limiter(ctx, &tree) {
            Err(e) => {
                return Err(PlanError::Limiter(e));
            },
            Ok((c, exceeded)) => {
                ctx = c;
                if exceeded {
                    proof {
                        if limiter_exceeds_at_root(limiter) || (limiter_spares_root(limiter)
                            && sampler_exhausted_at_root(sampler)) {
                            assert(tree@ =~= seq![start0]);
                        }
                    }
                    return Ok((Outcome::LimitReached(tree), ctx));
                }
                if fuel == 0 {
                    return Ok((Outcome::LimitReached(tree), ctx));
                }
                fuel = fuel - 1;
            },
        }
        let sample = match sampler(ctx, &tree) {
            Err(e) => {
                return Err(PlanError::Sampler(e));
            },
            Ok((c, None)) => {
                ctx = c;
                proof {
                    if limiter_spares_root(limiter) && sampler_exhausted_at_root(sampler) {
                        assert(tree@ =~= seq![start0]);
                    }
                }
                return Ok((Outcome::NoPathExists(tree), ctx));
            },
            Ok((c, Some(sample))) => {
                ctx = c;
                sample
            },
        };
        let nearest = match locator(ctx, &tree, &sample) {
            Err(e) => {
                return Err(PlanError::NearestNode(e));
            },
            Ok((c, nearest)) => {
                ctx = c;
                nearest
            },
        };
        if !tree.contains_ref(&nearest) {
            return Err(PlanError::TreeStore(TreeStoreError));
        }
        match checker(ctx, tree.get_state(&nearest), &sample) {
            Err(e) => {
                return Err(PlanError::TransitionChecker(e));
            },
            Ok((c, Transition::Rejected)) => {
                ctx = c;
            },
            Ok((c, Transition::Accepted(chain))) => {
                ctx = c;
                if chain.len() == 0 {
                    return Err(PlanError::TreeStore(TreeStoreError));
                }
                let frontier = tree.expand_chain(nearest, chain);
                let frontier_state = tree.get_state(&frontier);
                match goal(ctx, frontier_state) {
                    Err(e) => {
                        return Err(PlanError::GoalChecker(e));
                    },
                    Ok((c2, reached)) => {
                        ctx = c2;
                        if reached {
                            let path = tree.into_path(frontier);
                            return Ok((Outcome::PathPlanned(path), ctx));
                        }
                    },
                }
            },
        }
    }
}

} // verus!

