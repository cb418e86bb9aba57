//! Caches of already-incorporated states, used by transition checkers to
//! reject samples that land on states the tree already holds.
//!
//! Two interchangeable strategies are provided. [`Search`] keeps no storage
//! of its own and answers queries by scanning a caller-supplied list of
//! incorporated states, so its answers are only as complete as that list.
//! [`HashSet`] records every remembered state itself and ignores the list.
//! The trait's proof obligations state the guarantee both share: once a
//! state has been remembered (and, for [`Search`], stands in the supplied
//! list), `already_seen` reports it, and further remembering never makes a
//! seen state unseen again.

use vstd::prelude::*;
use vstd::std_specs::cmp::PartialEqSpec;
use vstd::std_specs::hash::obeys_key_model;

verus! {

broadcast use vstd::std_specs::hash::group_hash_axioms;

/// A record of states already incorporated into the tree.
///
/// `already_seen` takes, besides the queried state, the list of states the
/// surrounding run has incorporated so far; a strategy without storage of
/// its own answers from that list, so the caller must keep it complete:
/// every state handed to `remember` must also be in the list it passes
/// later. The two proof obligations are the contract both strategies share.
pub trait SeenCache<S>: Sized {
    type Error;

    /// Well-formedness the concrete strategy needs of itself and of `S`.
    spec fn inv(&self) -> bool;

    /// Whether this strategy can fail at all: one that cannot returns `Ok`
    /// from every call.
    spec fn infallible(&self) -> bool;

    /// Whether this cache, together with the incorporated states `ext`,
    /// regards `state` as seen.
    spec fn tracks(&self, state: S, ext: Seq<S>) -> bool;

    /// How a successful `remember` of `state` relates the cache before the
    /// call to the cache after it.
    spec fn remember_ok(pre: Self, post: Self, state: S) -> bool;

    /// A state just remembered is seen, provided the incorporated-state
    /// list covers it as the caller must ensure.
    proof fn law_remember_tracks(pre: Self, post: Self, state: S, ext: Seq<S>)
        requires
            pre.inv(),
            Self::remember_ok(pre, post, state),
            ext.contains(state),
        ensures
            post.tracks(state, ext),
    ;

    /// Remembering one state never makes another state unseen.
    proof fn law_remember_monotonic(pre: Self, post: Self, state: S, other: S, ext: Seq<S>)
        requires
            pre.inv(),
            Self::remember_ok(pre, post, state),
            pre.tracks(other, ext),
        ensures
            post.tracks(other, ext),
    ;

    /// Marks `state` as incorporated; idempotent.
    fn remember(&mut self, state: &S) -> (r: Result<(), Self::Error>)
        requires
            old(self).inv(),
        ensures
            final(self).inv(),
            r matches Ok(()) ==> Self::remember_ok(*old(self), *final(self), *state),
            old(self).infallible() ==> r matches Ok(()),
    ;

    /// Reports whether `state` was incorporated strictly before this call,
    /// given the list `states` of states incorporated so far.
    fn already_seen(&self, state: &S, states: &Vec<S>) -> (r: Result<bool, Self::Error>)
        requires
            self.inv(),
        ensures
            r matches Ok(b) ==> b == self.tracks(*state, states@),
            self.infallible() ==> r matches Ok(_),
    ;
}

/// The storage-free strategy: a linear scan over the caller-supplied list
/// of incorporated states.
pub struct Search;

impl<S: PartialEq> SeenCache<S> for Search {
    type Error = ();

    /// Equality on `S` must be the structural one, and the executable `==`
    /// must implement it.
    open spec fn inv(&self) -> bool {
        &&& S::obeys_eq_spec()
        &&& forall|a: S, b: S| #[trigger] a.eq_spec(&b) <==> a == b
    }

    /// This strategy never fails.
    open spec fn infallible(&self) -> bool {
        true
    }

    /// Seen exactly when the incorporated-state list holds the state.
    open spec fn tracks(&self, state: S, ext: Seq<S>) -> bool {
        ext.contains(state)
    }

    /// This strategy stores nothing, so remembering changes nothing.
    open spec fn remember_ok(pre: Self, post: Self, state: S) -> bool {
        post == pre
    }

    proof fn law_remember_tracks(pre: Self, post: Self, state: S, ext: Seq<S>) {
    }

    proof fn law_remember_monotonic(pre: Self, post: Self, state: S, other: S, ext: Seq<S>) {
    }

    fn remember(&mut self, state: &S) -> (r: Result<(), ()>) {
        Ok(())
    }

    fn already_seen(&self, state: &S, states: &Vec<S>) -> (r: Result<bool, ()>) {
        let mut i: usize = 0;
        while i < states.len()
            invariant
                0 <= i <= states@.len(),
                <Search as SeenCache<S>>::inv(self),
                forall|j: int| 0 <= j < i ==> states@[j] != *state,
            decreases states@.len() - i,
        {
            if states[i] == *state {
                return Ok(true);
            }
            i = i + 1;
        }
        Ok(false)
    }
}

/// The hashed strategy: remembered states are kept in a hash set of their
/// own, and the caller-supplied list is not consulted.
pub struct HashSet<S>(std::collections::HashSet<S>);

impl<S: core::cmp::Eq + core::hash::Hash> HashSet<S> {
    /// The set of states remembered so far.
    pub closed spec fn set(self) -> Set<S> {
        self.0@
    }

    pub fn new() -> (c: HashSet<S>)
        ensures
            c.set() == Set::<S>::empty(),
    {
        HashSet(std::collections::HashSet::new())
    }
}

impl<S: core::cmp::Eq + core::hash::Hash + Copy> SeenCache<S> for HashSet<S> {
    type Error = ();

    /// The state type must drive the hash table soundly.
    open spec fn inv(&self) -> bool {
        obeys_key_model::<S>()
    }

    /// This strategy never fails.
    open spec fn infallible(&self) -> bool {
        true
    }

    /// Seen exactly when remembered; the incorporated-state list plays no
    /// part.
    open spec fn tracks(&self, state: S, ext: Seq<S>) -> bool {
        self.set().contains(state)
    }

    /// Remembering adds the state to the remembered set.
    open spec fn remember_ok(pre: Self, post: Self, state: S) -> bool {
        post.set() == pre.set().insert(state)
    }

    proof fn law_remember_tracks(pre: Self, post: Self, state: S, ext: Seq<S>) {
    }

    proof fn law_remember_monotonic(pre: Self, post: Self, state: S, other: S, ext: Seq<S>) {
    }

    fn remember(&mut self, state: &S) -> (r: Result<(), ()>) {
        self.0.insert(*state);
        Ok(())
    }

    fn already_seen(&self, state: &S, states: &Vec<S>) -> (r: Result<bool, ()>) {
        Ok(self.0.contains(state))
    }
}

} // verus!
