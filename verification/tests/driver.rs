use rtt::plan::{locate_nearest, plan, Outcome, PlanError, Transition};
use rtt::util::vec_slist::{EmptyRandomTree, RandomTree};

fn abs_metric(a: &u32, b: &u32) -> Option<u64> {
    Some(if a > b { (a - b) as u64 } else { (b - a) as u64 })
}

#[test]
fn locate_nearest_picks_minimal() {
    let mut tree = EmptyRandomTree::new().add_root(0u32);
    let root = tree.root();
    let ten = tree.expand(root, 10);
    let _twenty = tree.expand(ten, 20);
    let found = locate_nearest(&tree, &12, &abs_metric);
    assert_eq!(found, ten);
}

#[test]
fn locate_nearest_first_minimal_wins() {
    // 10 and 14 are both at distance 2 from 12: the earlier node wins.
    let mut tree = EmptyRandomTree::new().add_root(10u32);
    let root = tree.root();
    let _other = tree.expand(root, 14);
    let found = locate_nearest(&tree, &12, &abs_metric);
    assert_eq!(found, root);
}

#[test]
fn locate_nearest_defaults_to_root_when_incomparable() {
    // A metric that is undefined everywhere leaves the root in place.
    let mut tree = EmptyRandomTree::new().add_root(0u32);
    let root = tree.root();
    let _a = tree.expand(root, 10);
    let none_metric = |_a: &u32, _b: &u32| -> Option<u64> { None };
    let found = locate_nearest(&tree, &10, &none_metric);
    assert_eq!(found, root);
}

#[test]
fn goal_at_start_plans_trivial_path() {
    let r = plan(
        5u32,
        0u32,
        |u: u32, _t: &RandomTree<u32>| -> Result<(u32, bool), ()> { Ok((u, false)) },
        |u: u32, _t: &RandomTree<u32>| -> Result<(u32, Option<u32>), ()> { Ok((u, None)) },
        |u: u32, t: &RandomTree<u32>, s: &u32| -> Result<(u32, rtt::util::vec_slist::NodeRef), ()> {
            Ok((u, locate_nearest(t, s, &abs_metric)))
        },
        |u: u32, _from: &u32, _to: &u32| -> Result<(u32, Transition<u32>), ()> {
            Ok((u, Transition::Rejected))
        },
        |u: u32, s: &u32| -> Result<(u32, bool), ()> { Ok((u, *s == 5)) },
    );
    match r {
        Ok((Outcome::PathPlanned(path), _ctx)) => assert_eq!(path, vec![5]),
        _ => panic!("expected a planned path"),
    }
}

#[test]
fn limiter_exceeded_on_first_check() {
    // The limiter refuses at once: the outcome is LimitReached and the
    // tree still holds only the root.
    let r = plan(
        0u32,
        0u32,
        |u: u32, _t: &RandomTree<u32>| -> Result<(u32, bool), ()> { Ok((u, true)) },
        |u: u32, _t: &RandomTree<u32>| -> Result<(u32, Option<u32>), ()> { Ok((u, Some(1))) },
        |u: u32, t: &RandomTree<u32>, s: &u32| -> Result<(u32, rtt::util::vec_slist::NodeRef), ()> {
            Ok((u, locate_nearest(t, s, &abs_metric)))
        },
        |u: u32, _from: &u32, _to: &u32| -> Result<(u32, Transition<u32>), ()> {
            Ok((u, Transition::Rejected))
        },
        |u: u32, s: &u32| -> Result<(u32, bool), ()> { Ok((u, *s == 99)) },
    );
    match r {
        Ok((Outcome::LimitReached(tree), _ctx)) => {
            assert_eq!(tree.len(), 1);
            let root = tree.root();
            assert_eq!(*tree.get_state(&root), 0);
        },
        _ => panic!("expected the limit to be reached"),
    }
}

#[test]
fn sampler_exhaustion_means_no_path() {
    // The sampler is exhausted before any accepted transition: the outcome
    // is NoPathExists.
    let r = plan(
        0u32,
        0u32,
        |u: u32, _t: &RandomTree<u32>| -> Result<(u32, bool), ()> { Ok((u, false)) },
        |u: u32, _t: &RandomTree<u32>| -> Result<(u32, Option<u32>), ()> { Ok((u, None)) },
        |u: u32, t: &RandomTree<u32>, s: &u32| -> Result<(u32, rtt::util::vec_slist::NodeRef), ()> {
            Ok((u, locate_nearest(t, s, &abs_metric)))
        },
        |u: u32, _from: &u32, _to: &u32| -> Result<(u32, Transition<u32>), ()> {
            Ok((u, Transition::Rejected))
        },
        |u: u32, s: &u32| -> Result<(u32, bool), ()> { Ok((u, *s == 99)) },
    );
    match r {
        Ok((Outcome::NoPathExists(tree), _ctx)) => assert_eq!(tree.len(), 1),
        _ => panic!("expected no path to exist"),
    }
}

#[test]
fn straight_line_run_plans_full_path() {
    // States on a line; the checker grows the chain of intermediate states
    // toward the sample, and the goal is reached after one acceptance.
    let r = plan(
        0u32,
        0u32,
        |u: u32, _t: &RandomTree<u32>| -> Result<(u32, bool), ()> { Ok((u, false)) },
        |u: u32, _t: &RandomTree<u32>| -> Result<(u32, Option<u32>), ()> { Ok((u, Some(3))) },
        |u: u32, t: &RandomTree<u32>, s: &u32| -> Result<(u32, rtt::util::vec_slist::NodeRef), ()> {
            Ok((u, locate_nearest(t, s, &abs_metric)))
        },
        |u: u32, from: &u32, to: &u32| -> Result<(u32, Transition<u32>), ()> {
            if from < to {
                Ok((u, Transition::Accepted(((*from + 1)..=*to).collect())))
            } else {
                Ok((u, Transition::Rejected))
            }
        },
        |u: u32, s: &u32| -> Result<(u32, bool), ()> { Ok((u, *s == 3)) },
    );
    match r {
        Ok((Outcome::PathPlanned(path), _ctx)) => assert_eq!(path, vec![0, 1, 2, 3]),
        _ => panic!("expected a planned path"),
    }
}

#[test]
fn first_error_aborts_tagged_by_source() {
    // A limiter error comes back tagged as such, unchanged.
    let r = plan(
        0u32,
        0u32,
        |_u: u32, _t: &RandomTree<u32>| -> Result<(u32, bool), &'static str> { Err("limit oops") },
        |u: u32, _t: &RandomTree<u32>| -> Result<(u32, Option<u32>), ()> { Ok((u, None)) },
        |u: u32, t: &RandomTree<u32>, s: &u32| -> Result<(u32, rtt::util::vec_slist::NodeRef), ()> {
            Ok((u, locate_nearest(t, s, &abs_metric)))
        },
        |u: u32, _from: &u32, _to: &u32| -> Result<(u32, Transition<u32>), ()> {
            Ok((u, Transition::Rejected))
        },
        |u: u32, s: &u32| -> Result<(u32, bool), ()> { Ok((u, *s == 99)) },
    );
    assert!(matches!(r, Err(PlanError::Limiter("limit oops"))));
}

#[test]
fn goal_checker_error_aborts_before_anything_else() {
    let r = plan(
        0u32,
        0u32,
        |u: u32, _t: &RandomTree<u32>| -> Result<(u32, bool), ()> { Ok((u, false)) },
        |u: u32, _t: &RandomTree<u32>| -> Result<(u32, Option<u32>), ()> { Ok((u, None)) },
        |u: u32, t: &RandomTree<u32>, s: &u32| -> Result<(u32, rtt::util::vec_slist::NodeRef), ()> {
            Ok((u, locate_nearest(t, s, &abs_metric)))
        },
        |u: u32, _from: &u32, _to: &u32| -> Result<(u32, Transition<u32>), ()> {
            Ok((u, Transition::Rejected))
        },
        |_u: u32, _s: &u32| -> Result<(u32, bool), &'static str> { Err("goal oops") },
    );
    assert!(matches!(r, Err(PlanError::GoalChecker("goal oops"))));
}

#[test]
fn sampler_error_aborts_tagged_by_source() {
    let r = plan(
        0u32,
        0u32,
        |u: u32, _t: &RandomTree<u32>| -> Result<(u32, bool), ()> { Ok((u, false)) },
        |_u: u32, _t: &RandomTree<u32>| -> Result<(u32, Option<u32>), &'static str> {
            Err("sample oops")
        },
        |u: u32, t: &RandomTree<u32>, s: &u32| -> Result<(u32, rtt::util::vec_slist::NodeRef), ()> {
            Ok((u, locate_nearest(t, s, &abs_metric)))
        },
        |u: u32, _from: &u32, _to: &u32| -> Result<(u32, Transition<u32>), ()> {
            Ok((u, Transition::Rejected))
        },
        |u: u32, s: &u32| -> Result<(u32, bool), ()> { Ok((u, *s == 99)) },
    );
    assert!(matches!(r, Err(PlanError::Sampler("sample oops"))));
}

#[test]
fn transition_checker_error_aborts_tagged_by_source() {
    let r = plan(
        0u32,
        0u32,
        |u: u32, _t: &RandomTree<u32>| -> Result<(u32, bool), ()> { Ok((u, false)) },
        |u: u32, _t: &RandomTree<u32>| -> Result<(u32, Option<u32>), ()> { Ok((u, Some(4))) },
        |u: u32, t: &RandomTree<u32>, s: &u32| -> Result<(u32, rtt::util::vec_slist::NodeRef), ()> {
            Ok((u, locate_nearest(t, s, &abs_metric)))
        },
        |_u: u32, _from: &u32, _to: &u32| -> Result<(u32, Transition<u32>), &'static str> {
            Err("trans oops")
        },
        |u: u32, s: &u32| -> Result<(u32, bool), ()> { Ok((u, *s == 99)) },
    );
    assert!(matches!(r, Err(PlanError::TransitionChecker("trans oops"))));
}

#[test]
fn stale_node_ref_is_a_tree_store_breach() {
    // A locator answering with a reference from another arena instance,
    // out of this tree's range, is a protocol breach, not a panic.
    let mut other = EmptyRandomTree::new().add_root(0u32);
    let other_root = other.root();
    let mut stale = other.expand(other_root, 1);
    stale = other.expand(stale, 2);
    let r = plan(
        0u32,
        0u32,
        |u: u32, _t: &RandomTree<u32>| -> Result<(u32, bool), ()> { Ok((u, false)) },
        |u: u32, _t: &RandomTree<u32>| -> Result<(u32, Option<u32>), ()> { Ok((u, Some(4))) },
        move |u: u32,
              _t: &RandomTree<u32>,
              _s: &u32|
              -> Result<(u32, rtt::util::vec_slist::NodeRef), ()> { Ok((u, stale)) },
        |u: u32, _from: &u32, _to: &u32| -> Result<(u32, Transition<u32>), ()> {
            Ok((u, Transition::Rejected))
        },
        |u: u32, s: &u32| -> Result<(u32, bool), ()> { Ok((u, *s == 99)) },
    );
    assert!(matches!(r, Err(PlanError::TreeStore(_))));
}

#[test]
fn empty_accepted_chain_is_a_tree_store_breach() {
    let r = plan(
        0u32,
        0u32,
        |u: u32, _t: &RandomTree<u32>| -> Result<(u32, bool), ()> { Ok((u, false)) },
        |u: u32, _t: &RandomTree<u32>| -> Result<(u32, Option<u32>), ()> { Ok((u, Some(4))) },
        |u: u32, t: &RandomTree<u32>, s: &u32| -> Result<(u32, rtt::util::vec_slist::NodeRef), ()> {
            Ok((u, locate_nearest(t, s, &abs_metric)))
        },
        |u: u32, _from: &u32, _to: &u32| -> Result<(u32, Transition<u32>), ()> {
            Ok((u, Transition::Accepted(Vec::new())))
        },
        |u: u32, s: &u32| -> Result<(u32, bool), ()> { Ok((u, *s == 99)) },
    );
    assert!(matches!(r, Err(PlanError::TreeStore(_))));
}
