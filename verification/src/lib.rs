//! A generic, incremental motion-planning protocol: a typestate session
//! machine that sequences root establishment, sampling, nearest-node search
//! and tree expansion, so that an illegal call order is rejected by the type
//! system rather than at run time.
//!
//! Each planner phase owns the tree value and is consumed by the transition
//! that advances it; the transitions themselves are supplied by the caller,
//! either as closures or as types implementing the `Trans*` traits. The
//! contracts of the phase methods propagate the transition's own
//! postcondition, so a verified caller learns exactly what its transition
//! established about the new phase.

use vstd::prelude::*;

pub mod plan;
pub mod util;

verus! {

/// An error type that no code outside this crate can construct, and that
/// this crate never constructs: a transition declared with this error type
/// cannot fail in practice. The `*_ok` phase methods additionally require
/// that the transition's postcondition rules the error case out, which makes
/// their error arms provably unreachable.
pub struct NeverError {
    never: (),
}

// PlannerInit

/// Transition out of [`PlannerInit`]: consumes the empty tree value and
/// produces the rooted tree. Implemented for any `FnOnce(ERT) -> Result<RT, E>`.
pub trait TransAddRoot<ERT>: Sized {
    type NonEmptyRtt;

    type Error;

    spec fn add_root_pre(self, empty_rtt: ERT) -> bool;

    spec fn add_root_post(self, empty_rtt: ERT, r: Result<Self::NonEmptyRtt, Self::Error>) -> bool;

    fn add_root(self, empty_rtt: ERT) -> (r: Result<Self::NonEmptyRtt, Self::Error>)
        requires
            self.add_root_pre(empty_rtt),
        ensures
            self.add_root_post(empty_rtt, r),
    ;
}

impl<ERT, F, RT, E> TransAddRoot<ERT> for F where F: FnOnce(ERT) -> Result<RT, E> {
    type NonEmptyRtt = RT;

    type Error = E;

    open spec fn add_root_pre(self, empty_rtt: ERT) -> bool {
        call_requires(self, (empty_rtt,))
    }

    open spec fn add_root_post(self, empty_rtt: ERT, r: Result<RT, E>) -> bool {
        call_ensures(self, (empty_rtt,), r)
    }

    fn add_root(self, empty_rtt: ERT) -> (r: Result<RT, E>) {
        (self)(empty_rtt)
    }
}

/// The initial phase of a planning session: holds the not-yet-rooted tree
/// value and accepts only `add_root`.
pub struct PlannerInit<ERT> {
    empty_rtt: ERT,
}

impl<ERT> PlannerInit<ERT> {
    /// The empty tree value this phase owns.
    pub closed spec fn rtt_spec(self) -> ERT {
        self.empty_rtt
    }

    pub fn new(empty_rtt: ERT) -> (p: PlannerInit<ERT>)
        ensures
            p.rtt_spec() == empty_rtt,
    {
        PlannerInit { empty_rtt }
    }

    pub fn add_root<TR: TransAddRoot<ERT>>(self, trans: TR) -> (r: Result<
        Planner<TR::NonEmptyRtt>,
        TR::Error,
    >)
        requires
            trans.add_root_pre(self.rtt_spec()),
        ensures
            match r {
                Ok(p) => trans.add_root_post(self.rtt_spec(), Ok(p.rtt_spec())),
                Err(e) => trans.add_root_post(self.rtt_spec(), Err(e)),
            },
    {
        match trans.add_root(self.empty_rtt) {
            Ok(rtt) => Ok(Planner { rtt }),
            Err(e) => Err(e),
        }
    }

    pub fn add_root_ok<TR>(self, trans: TR) -> (p: Planner<TR::NonEmptyRtt>) where
        TR: TransAddRoot<ERT, Error = NeverError>,

        requires
            trans.add_root_pre(self.rtt_spec()),
            forall|e: NeverError| !trans.add_root_post(self.rtt_spec(), Err(e)),
        ensures
            trans.add_root_post(self.rtt_spec(), Ok(p.rtt_spec())),
    {
        match self.add_root(trans) {
            Ok(p) => p,
            Err(_) => vstd::pervasive::unreached(),
        }
    }
}

// Planner

/// The rooted phase: the tree has its root, and the session waits for the
/// caller to designate the current node via `root_node`.
pub struct Planner<RT> {
    rtt: RT,
}

/// Transition out of [`Planner`]: receives the tree, returns it together
/// with the node reference that becomes the session's focus. Implemented for
/// any `FnOnce(RT) -> Result<(RT, NR), E>`.
pub trait TransRootNode<RT>: Sized {
    type RttNodeRef;

    type Error;

    spec fn root_node_pre(self, rtt: RT) -> bool;

    spec fn root_node_post(self, rtt: RT, r: Result<(RT, Self::RttNodeRef), Self::Error>) -> bool;

    fn root_node(self, rtt: RT) -> (r: Result<(RT, Self::RttNodeRef), Self::Error>)
        requires
            self.root_node_pre(rtt),
        ensures
            self.root_node_post(rtt, r),
    ;
}

impl<RT, F, NR, E> TransRootNode<RT> for F where F: FnOnce(RT) -> Result<(RT, NR), E> {
    type RttNodeRef = NR;

    type Error = E;

    open spec fn root_node_pre(self, rtt: RT) -> bool {
        call_requires(self, (rtt,))
    }

    open spec fn root_node_post(self, rtt: RT, r: Result<(RT, NR), E>) -> bool {
        call_ensures(self, (rtt,), r)
    }

    fn root_node(self, rtt: RT) -> (r: Result<(RT, NR), E>) {
        (self)(rtt)
    }
}

impl<RT> Planner<RT> {
    /// The tree value this phase owns.
    pub closed spec fn rtt_spec(self) -> RT {
        self.rtt
    }

    pub fn root_node<TR: TransRootNode<RT>>(self, trans: TR) -> (r: Result<
        PlannerRttNode<RT, TR::RttNodeRef>,
        TR::Error,
    >)
        requires
            trans.root_node_pre(self.rtt_spec()),
        ensures
            match r {
                Ok(p) => trans.root_node_post(
                    self.rtt_spec(),
                    Ok((p.rtt_spec(), p.node_ref_spec())),
                ),
                Err(e) => trans.root_node_post(self.rtt_spec(), Err(e)),
            },
    {
        match trans.root_node(self.rtt) {
            Ok((rtt, node_ref)) => Ok(PlannerRttNode { rtt, node_ref }),
            Err(e) => Err(e),
        }
    }

    pub fn root_node_ok<TR>(self, trans: TR) -> (p: PlannerRttNode<RT, TR::RttNodeRef>) where
        TR: TransRootNode<RT, Error = NeverError>,

        requires
            trans.root_node_pre(self.rtt_spec()),
            forall|e: NeverError| !trans.root_node_post(self.rtt_spec(), Err(e)),
        ensures
            trans.root_node_post(self.rtt_spec(), Ok((p.rtt_spec(), p.node_ref_spec()))),
    {
        match self.root_node(trans) {
            Ok(p) => p,
            Err(_) => vstd::pervasive::unreached(),
        }
    }
}

// PlannerRttNode

/// The phase in which the session focuses one node of the tree: the frontier
/// after an accepted transition, or the root right after rooting. From here
/// the caller either finishes the run (`into_path`) or prepares the next
/// sampling round (`prepare_sample`).
pub struct PlannerRttNode<RT, NR> {
    rtt: RT,
    node_ref: NR,
}

/// Terminal transition out of [`PlannerRttNode`]: consumes the whole session
/// and turns the focused node into a path value. Implemented for any
/// `FnOnce(RT, NR) -> Result<P, E>`.
pub trait TransIntoPath<RT, NR>: Sized {
    type RttPath;

    type Error;

    spec fn into_path_pre(self, rtt: RT, node_ref: NR) -> bool;

    spec fn into_path_post(self, rtt: RT, node_ref: NR, r: Result<
        Self::RttPath,
        Self::Error,
    >) -> bool;

    fn into_path(self, rtt: RT, node_ref: NR) -> (r: Result<Self::RttPath, Self::Error>)
        requires
            self.into_path_pre(rtt, node_ref),
        ensures
            self.into_path_post(rtt, node_ref, r),
    ;
}

impl<RT, NR, F, P, E> TransIntoPath<RT, NR> for F where F: FnOnce(RT, NR) -> Result<P, E> {
    type RttPath = P;

    type Error = E;

    open spec fn into_path_pre(self, rtt: RT, node_ref: NR) -> bool {
        call_requires(self, (rtt, node_ref))
    }

    open spec fn into_path_post(self, rtt: RT, node_ref: NR, r: Result<P, E>) -> bool {
        call_ensures(self, (rtt, node_ref), r)
    }

    fn into_path(self, rtt: RT, node_ref: NR) -> (r: Result<P, E>) {
        (self)(rtt, node_ref)
    }
}

/// Transition out of [`PlannerRttNode`] toward sampling: bookkeeping only.
/// Receives the tree and the focused node reference and hands the tree back.
/// Implemented for any `FnOnce(RT, NR) -> Result<RT, E>`.
pub trait TransPrepareSample<RT, NR>: Sized {
    type Error;

    spec fn prepare_sample_pre(self, rtt: RT, node_ref: NR) -> bool;

    spec fn prepare_sample_post(self, rtt: RT, node_ref: NR, r: Result<RT, Self::Error>) -> bool;

    fn prepare_sample(self, rtt: RT, node_ref: NR) -> (r: Result<RT, Self::Error>)
        requires
            self.prepare_sample_pre(rtt, node_ref),
        ensures
            self.prepare_sample_post(rtt, node_ref, r),
    ;
}

impl<RT, NR, F, E> TransPrepareSample<RT, NR> for F where F: FnOnce(RT, NR) -> Result<RT, E> {
    type Error = E;

    open spec fn prepare_sample_pre(self, rtt: RT, node_ref: NR) -> bool {
        call_requires(self, (rtt, node_ref))
    }

    open spec fn prepare_sample_post(self, rtt: RT, node_ref: NR, r: Result<RT, E>) -> bool {
        call_ensures(self, (rtt, node_ref), r)
    }

    fn prepare_sample(self, rtt: RT, node_ref: NR) -> (r: Result<RT, E>) {
        (self)(rtt, node_ref)
    }
}

impl<RT, NR> PlannerRttNode<RT, NR> {
    /// The tree value this phase owns.
    pub closed spec fn rtt_spec(self) -> RT {
        self.rtt
    }

    /// The focused node reference.
    pub closed spec fn node_ref_spec(self) -> NR {
        self.node_ref
    }

    pub fn rtt(&self) -> (r: &RT)
        ensures
            *r == self.rtt_spec(),
    {
        &self.rtt
    }

    pub fn node_ref(&self) -> (r: &NR)
        ensures
            *r == self.node_ref_spec(),
    {
        &self.node_ref
    }

    pub fn into_path<TR: TransIntoPath<RT, NR>>(self, trans: TR) -> (r: Result<
        TR::RttPath,
        TR::Error,
    >)
        requires
            trans.into_path_pre(self.rtt_spec(), self.node_ref_spec()),
        ensures
            trans.into_path_post(self.rtt_spec(), self.node_ref_spec(), r),
    {
        trans.into_path(self.rtt, self.node_ref)
    }

    pub fn into_path_ok<TR>(self, trans: TR) -> (p: TR::RttPath) where
        TR: TransIntoPath<RT, NR, Error = NeverError>,

        requires
            trans.into_path_pre(self.rtt_spec(), self.node_ref_spec()),
            forall|e: NeverError|
                !trans.into_path_post(self.rtt_spec(), self.node_ref_spec(), Err(e)),
        ensures
            trans.into_path_post(self.rtt_spec(), self.node_ref_spec(), Ok(p)),
    {
        let ghost rtt0 = self.rtt_spec();
        let ghost nr0 = self.node_ref_spec();
        match self.into_path(trans) {
            Ok(p) => {
                proof {
                    assert(trans.into_path_post(rtt0, nr0, Ok(p)));
                }
                p
            },
            Err(e) => {
                proof {
                    assert(trans.into_path_post(rtt0, nr0, Err(e)));
                }
                vstd::pervasive::unreached()
            },
        }
    }

    pub fn prepare_sample<TR: TransPrepareSample<RT, NR>>(self, trans: TR) -> (r: Result<
        PlannerReadyToSample<RT>,
        TR::Error,
    >)
        requires
            trans.prepare_sample_pre(self.rtt_spec(), self.node_ref_spec()),
        ensures
            match r {
                Ok(p) => trans.prepare_sample_post(
                    self.rtt_spec(),
                    self.node_ref_spec(),
                    Ok(p.rtt_spec()),
                ),
                Err(e) => trans.prepare_sample_post(self.rtt_spec(), self.node_ref_spec(), Err(e)),
            },
    {
        match trans.prepare_sample(self.rtt, self.node_ref) {
            Ok(rtt) => Ok(PlannerReadyToSample { rtt }),
            Err(e) => Err(e),
        }
    }

    pub fn prepare_sample_ok<TR>(self, trans: TR) -> (p: PlannerReadyToSample<RT>) where
        TR: TransPrepareSample<RT, NR, Error = NeverError>,

        requires
            trans.prepare_sample_pre(self.rtt_spec(), self.node_ref_spec()),
            forall|e: NeverError|
                !trans.prepare_sample_post(self.rtt_spec(), self.node_ref_spec(), Err(e)),
        ensures
            trans.prepare_sample_post(self.rtt_spec(), self.node_ref_spec(), Ok(p.rtt_spec())),
    {
        match self.prepare_sample(trans) {
            Ok(p) => p,
            Err(_) => vstd::pervasive::unreached(),
        }
    }
}

// PlannerReadyToSample

/// The phase that awaits a candidate state from the sampler.
pub struct PlannerReadyToSample<RT> {
    rtt: RT,
}

/// Transition out of [`PlannerReadyToSample`]: receives the tree and returns
/// it together with the sampled candidate state. Implemented for any
/// `FnOnce(RT) -> Result<(RT, S), E>`.
pub trait TransSample<RT>: Sized {
    type Sample;

    type Error;

    spec fn sample_pre(self, rtt: RT) -> bool;

    spec fn sample_post(self, rtt: RT, r: Result<(RT, Self::Sample), Self::Error>) -> bool;

    fn sample(self, rtt: RT) -> (r: Result<(RT, Self::Sample), Self::Error>)
        requires
            self.sample_pre(rtt),
        ensures
            self.sample_post(rtt, r),
    ;
}

impl<RT, F, S, E> TransSample<RT> for F where F: FnOnce(RT) -> Result<(RT, S), E> {
    type Sample = S;

    type Error = E;

    open spec fn sample_pre(self, rtt: RT) -> bool {
        call_requires(self, (rtt,))
    }

    open spec fn sample_post(self, rtt: RT, r: Result<(RT, S), E>) -> bool {
        call_ensures(self, (rtt,), r)
    }

    fn sample(self, rtt: RT) -> (r: Result<(RT, S), E>) {
        (self)(rtt)
    }
}

impl<RT> PlannerReadyToSample<RT> {
    /// The tree value this phase owns.
    pub closed spec fn rtt_spec(self) -> RT {
        self.rtt
    }

    pub fn rtt(&self) -> (r: &RT)
        ensures
            *r == self.rtt_spec(),
    {
        &self.rtt
    }

    pub fn sample<TR: TransSample<RT>>(self, trans: TR) -> (r: Result<
        PlannerSample<RT, TR::Sample>,
        TR::Error,
    >)
        requires
            trans.sample_pre(self.rtt_spec()),
        ensures
            match r {
                Ok(p) => trans.sample_post(self.rtt_spec(), Ok((p.rtt_spec(), p.sample_spec()))),
                Err(e) => trans.sample_post(self.rtt_spec(), Err(e)),
            },
    {
        match trans.sample(self.rtt) {
            Ok((rtt, sample)) => Ok(PlannerSample { rtt, sample }),
            Err(e) => Err(e),
        }
    }

    pub fn sample_ok<TR>(self, trans: TR) -> (p: PlannerSample<RT, TR::Sample>) where
        TR: TransSample<RT, Error = NeverError>,

        requires
            trans.sample_pre(self.rtt_spec()),
            forall|e: NeverError| !trans.sample_post(self.rtt_spec(), Err(e)),
        ensures
            trans.sample_post(self.rtt_spec(), Ok((p.rtt_spec(), p.sample_spec()))),
    {
        match self.sample(trans) {
            Ok(p) => p,
            Err(_) => vstd::pervasive::unreached(),
        }
    }
}

// PlannerSample

/// The phase that holds a sampled candidate state and awaits the
/// nearest-node search.
pub struct PlannerSample<RT, S> {
    rtt: RT,
    sample: S,
}

/// Transition out of [`PlannerSample`]: receives the tree and a reference to
/// the candidate state, and returns the tree together with the reference of
/// the nearest node. Implemented for any `FnOnce(RT, &S) -> Result<(RT, NR), E>`.
pub trait TransClosestToSample<RT, S>: Sized {
    type RttNodeRef;

    type Error;

    spec fn closest_to_sample_pre(self, rtt: RT, sample: S) -> bool;

    spec fn closest_to_sample_post(self, rtt: RT, sample: S, r: Result<
        (RT, Self::RttNodeRef),
        Self::Error,
    >) -> bool;

    fn closest_to_sample(self, rtt: RT, sample: &S) -> (r: Result<
        (RT, Self::RttNodeRef),
        Self::Error,
    >)
        requires
            self.closest_to_sample_pre(rtt, *sample),
        ensures
            self.closest_to_sample_post(rtt, *sample, r),
    ;
}

impl<RT, S, F, NR, E> TransClosestToSample<RT, S> for F where F: FnOnce(
    RT,
    &S,
) -> Result<(RT, NR), E> {
    type RttNodeRef = NR;

    type Error = E;

    open spec fn closest_to_sample_pre(self, rtt: RT, sample: S) -> bool {
        call_requires(self, (rtt, &sample))
    }

    open spec fn closest_to_sample_post(self, rtt: RT, sample: S, r: Result<(RT, NR), E>) -> bool {
        call_ensures(self, (rtt, &sample), r)
    }

    fn closest_to_sample(self, rtt: RT, sample: &S) -> (r: Result<(RT, NR), E>) {
        (self)(rtt, sample)
    }
}

impl<RT, S> PlannerSample<RT, S> {
    /// The tree value this phase owns.
    pub closed spec fn rtt_spec(self) -> RT {
        self.rtt
    }

    /// The sampled candidate state.
    pub closed spec fn sample_spec(self) -> S {
        self.sample
    }

    pub fn rtt(&self) -> (r: &RT)
        ensures
            *r == self.rtt_spec(),
    {
        &self.rtt
    }

    pub fn sample(&self) -> (r: &S)
        ensures
            *r == self.sample_spec(),
    {
        &self.sample
    }

    pub fn closest_to_sample<TR: TransClosestToSample<RT, S>>(self, trans: TR) -> (r: Result<
        PlannerClosestNodeFound<RT, TR::RttNodeRef, S>,
        TR::Error,
    >)
        requires
            trans.closest_to_sample_pre(self.rtt_spec(), self.sample_spec()),
        ensures
            match r {
                Ok(p) => p.sample_spec() == self.sample_spec()
                    && trans.closest_to_sample_post(
                    self.rtt_spec(),
                    self.sample_spec(),
                    Ok((p.rtt_spec(), p.node_ref_spec())),
                ),
                Err(e) => trans.closest_to_sample_post(self.rtt_spec(), self.sample_spec(), Err(e)),
            },
    {
        match trans.closest_to_sample(self.rtt, &self.sample) {
            Ok((rtt, node_ref)) => Ok(
                PlannerClosestNodeFound { rtt, node_ref, sample: self.sample },
            ),
            Err(e) => Err(e),
        }
    }

    pub fn closest_to_sample_ok<TR>(self, trans: TR) -> (p: PlannerClosestNodeFound<
        RT,
        TR::RttNodeRef,
        S,
    >) where TR: TransClosestToSample<RT, S, Error = NeverError>,

        requires
            trans.closest_to_sample_pre(self.rtt_spec(), self.sample_spec()),
            forall|e: NeverError|
                !trans.closest_to_sample_post(self.rtt_spec(), self.sample_spec(), Err(e)),
        ensures
            p.sample_spec() == self.sample_spec(),
            trans.closest_to_sample_post(
                self.rtt_spec(),
                self.sample_spec(),
                Ok((p.rtt_spec(), p.node_ref_spec())),
            ),
    {
        match self.closest_to_sample(trans) {
            Ok(p) => p,
            Err(_) => vstd::pervasive::unreached(),
        }
    }
}

// PlannerClosestNodeFound

/// The phase that holds both the candidate state and the nearest node found
/// for it. Exactly two continuations are legal: discard the sample
/// (`no_transition`) or grow the tree (`has_transition`).
pub struct PlannerClosestNodeFound<RT, NR, S> {
    rtt: RT,
    node_ref: NR,
    sample: S,
}

/// Transition out of [`PlannerClosestNodeFound`] that abandons the sample:
/// receives the tree and the nearest node reference and hands the tree back.
/// Implemented for any `FnOnce(RT, NR) -> Result<RT, E>`.
pub trait TransNoTransition<RT, NR>: Sized {
    type Error;

    spec fn no_transition_pre(self, rtt: RT, node_ref: NR) -> bool;

    spec fn no_transition_post(self, rtt: RT, node_ref: NR, r: Result<RT, Self::Error>) -> bool;

    fn no_transition(self, rtt: RT, node_ref: NR) -> (r: Result<RT, Self::Error>)
        requires
            self.no_transition_pre(rtt, node_ref),
        ensures
            self.no_transition_post(rtt, node_ref, r),
    ;
}

impl<RT, NR, F, E> TransNoTransition<RT, NR> for F where F: FnOnce(RT, NR) -> Result<RT, E> {
    type Error = E;

    open spec fn no_transition_pre(self, rtt: RT, node_ref: NR) -> bool {
        call_requires(self, (rtt, node_ref))
    }

    open spec fn no_transition_post(self, rtt: RT, node_ref: NR, r: Result<RT, E>) -> bool {
        call_ensures(self, (rtt, node_ref), r)
    }

    fn no_transition(self, rtt: RT, node_ref: NR) -> (r: Result<RT, E>) {
        (self)(rtt, node_ref)
    }
}

/// Transition out of [`PlannerClosestNodeFound`] that accepts the sample:
/// receives the tree, the nearest node reference and the sample, grows the
/// tree, and returns it with the reference of the new frontier node.
/// Implemented for any `FnOnce(RT, NR, S) -> Result<(RT, NRO), E>`.
pub trait TransHasTransition<RT, NR, S>: Sized {
    type RttNodeRef;

    type Error;

    spec fn has_transition_pre(self, rtt: RT, node_ref: NR, sample: S) -> bool;

    spec fn has_transition_post(self, rtt: RT, node_ref: NR, sample: S, r: Result<
        (RT, Self::RttNodeRef),
        Self::Error,
    >) -> bool;

    fn has_transition(self, rtt: RT, node_ref: NR, sample: S) -> (r: Result<
        (RT, Self::RttNodeRef),
        Self::Error,
    >)
        requires
            self.has_transition_pre(rtt, node_ref, sample),
        ensures
            self.has_transition_post(rtt, node_ref, sample, r),
    ;
}

impl<RT, NR, S, F, NRO, E> TransHasTransition<RT, NR, S> for F where F: FnOnce(
    RT,
    NR,
    S,
) -> Result<(RT, NRO), E> {
    type RttNodeRef = NRO;

    type Error = E;

    open spec fn has_transition_pre(self, rtt: RT, node_ref: NR, sample: S) -> bool {
        call_requires(self, (rtt, node_ref, sample))
    }

    open spec fn has_transition_post(self, rtt: RT, node_ref: NR, sample: S, r: Result<
        (RT, NRO),
        E,
    >) -> bool {
        call_ensures(self, (rtt, node_ref, sample), r)
    }

    fn has_transition(self, rtt: RT, node_ref: NR, sample: S) -> (r: Result<(RT, NRO), E>) {
        (self)(rtt, node_ref, sample)
    }
}

impl<RT, NR, S> PlannerClosestNodeFound<RT, NR, S> {
    /// The tree value this phase owns.
    pub closed spec fn rtt_spec(self) -> RT {
        self.rtt
    }

    /// The nearest node found for the sample.
    pub closed spec fn node_ref_spec(self) -> NR {
        self.node_ref
    }

    /// The sampled candidate state.
    pub closed spec fn sample_spec(self) -> S {
        self.sample
    }

    pub fn rtt(&self) -> (r: &RT)
        ensures
            *r == self.rtt_spec(),
    {
        &self.rtt
    }

    pub fn node_ref(&self) -> (r: &NR)
        ensures
            *r == self.node_ref_spec(),
    {
        &self.node_ref
    }

    pub fn sample(&self) -> (r: &S)
        ensures
            *r == self.sample_spec(),
    {
        &self.sample
    }

    pub fn no_transition<TR: TransNoTransition<RT, NR>>(self, trans: TR) -> (r: Result<
        PlannerReadyToSample<RT>,
        TR::Error,
    >)
        requires
            trans.no_transition_pre(self.rtt_spec(), self.node_ref_spec()),
        ensures
            match r {
                Ok(p) => trans.no_transition_post(
                    self.rtt_spec(),
                    self.node_ref_spec(),
                    Ok(p.rtt_spec()),
                ),
                Err(e) => trans.no_transition_post(self.rtt_spec(), self.node_ref_spec(), Err(e)),
            },
    {
        match trans.no_transition(self.rtt, self.node_ref) {
            Ok(rtt) => Ok(PlannerReadyToSample { rtt }),
            Err(e) => Err(e),
        }
    }

    pub fn no_transition_ok<TR>(self, trans: TR) -> (p: PlannerReadyToSample<RT>) where
        TR: TransNoTransition<RT, NR, Error = NeverError>,

        requires
            trans.no_transition_pre(self.rtt_spec(), self.node_ref_spec()),
            forall|e: NeverError|
                !trans.no_transition_post(self.rtt_spec(), self.node_ref_spec(), Err(e)),
        ensures
            trans.no_transition_post(self.rtt_spec(), self.node_ref_spec(), Ok(p.rtt_spec())),
    {
        match self.no_transition(trans) {
            Ok(p) => p,
            Err(_) => vstd::pervasive::unreached(),
        }
    }

    pub fn has_transition<TR: TransHasTransition<RT, NR, S>>(self, trans: TR) -> (r: Result<
        PlannerRttNode<RT, TR::RttNodeRef>,
        TR::Error,
    >)
        requires
            trans.has_transition_pre(self.rtt_spec(), self.node_ref_spec(), self.sample_spec()),
        ensures
            match r {
                Ok(p) => trans.has_transition_post(
                    self.rtt_spec(),
                    self.node_ref_spec(),
                    self.sample_spec(),
                    Ok((p.rtt_spec(), p.node_ref_spec())),
                ),
                Err(e) => trans.has_transition_post(
                    self.rtt_spec(),
                    self.node_ref_spec(),
                    self.sample_spec(),
                    Err(e),
                ),
            },
    {
        match trans.has_transition(self.rtt, self.node_ref, self.sample) {
            Ok((rtt, node_ref)) => Ok(PlannerRttNode { rtt, node_ref }),
            Err(e) => Err(e),
        }
    }

    pub fn has_transition_ok<TR>(self, trans: TR) -> (p: PlannerRttNode<RT, TR::RttNodeRef>) where
        TR: TransHasTransition<RT, NR, S, Error = NeverError>,

        requires
            trans.has_transition_pre(self.rtt_spec(), self.node_ref_spec(), self.sample_spec()),
            forall|e: NeverError|
                !trans.has_transition_post(
                    self.rtt_spec(),
                    self.node_ref_spec(),
                    self.sample_spec(),
                    Err(e),
                ),
        ensures
            trans.has_transition_post(
                self.rtt_spec(),
                self.node_ref_spec(),
                self.sample_spec(),
                Ok((p.rtt_spec(), p.node_ref_spec())),
            ),
    {
        match self.has_transition(trans) {
            Ok(p) => p,
            Err(_) => vstd::pervasive::unreached(),
        }
    }
}

} // verus!
