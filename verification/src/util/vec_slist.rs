//! Append-only tree arena backed by a vector of singly-linked path nodes.
//!
//! Each node stores a state and the index of its parent; node 0 is the root
//! and has no parent, and every other node's parent index is strictly
//! smaller than its own. That ordering makes the structure acyclic by
//! construction and lets a path be reconstructed by a plain backward walk
//! over parent links.

use vstd::prelude::*;

verus! {

/// Opaque stable handle to one node of one [`RandomTree`] instance.
///
/// References are handed out by `add_root` (always node 0) and by `expand`
/// (always the next free index), so within one run no reference is ever
/// reused for two different nodes.
#[derive(Clone, Copy, PartialEq, Eq, Structural, PartialOrd, Ord, Hash, Debug)]
pub struct NodeRef(usize);

impl NodeRef {
    /// The arena index this reference designates.
    pub closed spec fn idx(self) -> int {
        self.0 as int
    }
}

struct PathNode<S> {
    state: S,
    prev: Option<usize>,
}

/// Whether the parent chain starting at index `i` is well formed: every hop
/// stays in bounds and strictly decreases the index.
spec fn node_chain_ok<S>(nodes: Seq<PathNode<S>>, i: int) -> bool
    decreases i,
{
    0 <= i < nodes.len() && match nodes[i].prev {
        None => true,
        Some(j) => 0 <= j < i && node_chain_ok(nodes, j as int),
    }
}

/// The states along the parent chain starting at index `i`, the node at `i`
/// first and the chain's last node (under well-formedness, the root) last.
spec fn node_rev_path<S>(nodes: Seq<PathNode<S>>, i: int) -> Seq<S>
    decreases i,
{
    if 0 <= i < nodes.len() {
        match nodes[i].prev {
            None => seq![nodes[i].state],
            Some(j) => if 0 <= (j as int) < i {
                seq![nodes[i].state] + node_rev_path(nodes, j as int)
            } else {
                seq![nodes[i].state]
            },
        }
    } else {
        Seq::empty()
    }
}

/// A parent chain only reads node entries at indices up to its start, so two
/// node sequences that agree below `bound` yield the same chain and path for
/// any start index below `bound`.
proof fn lemma_node_path_agree<S>(n1: Seq<PathNode<S>>, n2: Seq<PathNode<S>>, i: int, bound: int)
    requires
        node_chain_ok(n1, i),
        i < bound,
        bound <= n1.len(),
        bound <= n2.len(),
        forall|k: int| 0 <= k < bound ==> n1[k] == n2[k],
    ensures
        node_chain_ok(n2, i),
        node_rev_path(n2, i) == node_rev_path(n1, i),
    decreases i,
{
    match n1[i].prev {
        None => {},
        Some(j) => {
            lemma_node_path_agree(n1, n2, j as int, bound);
        },
    }
}

/// The not-yet-rooted arena: carries no nodes, only the state type.
pub struct EmptyRandomTree<S> {
    _marker: core::marker::PhantomData<S>,
}

impl<S> EmptyRandomTree<S> {
    pub fn new() -> (t: EmptyRandomTree<S>) {
        EmptyRandomTree { _marker: core::marker::PhantomData }
    }

    /// Establishes the root: the resulting tree holds exactly one node, node
    /// 0, carrying `state`.
    pub fn add_root(self, state: S) -> (t: RandomTree<S>)
        ensures
            t.wf(),
            t@ == seq![state],
    {
        let mut nodes: Vec<PathNode<S>> = Vec::new();
        nodes.push(PathNode { state, prev: None });
        let t = RandomTree { nodes };
        proof {
            assert(t@ =~= seq![state]);
        }
        t
    }
}

/// The rooted, append-only arena. Its view `t@` is the sequence of node
/// states in insertion order; `parent_of` gives each node's parent index.
pub struct RandomTree<S> {
    nodes: Vec<PathNode<S>>,
}

impl<S> View for RandomTree<S> {
    type V = Seq<S>;

    closed spec fn view(&self) -> Seq<S> {
        self.nodes@.map_values(|n: PathNode<S>| n.state)
    }
}

impl<S> RandomTree<S> {
    /// The parent index of node `i`: `None` for the root and for indices out
    /// of range.
    pub closed spec fn parent_of(self, i: int) -> Option<int> {
        if 0 <= i < self.nodes@.len() {
            match self.nodes@[i].prev {
                None => None,
                Some(j) => Some(j as int),
            }
        } else {
            None
        }
    }

    /// Structural invariant: at least the root is present, the root has no
    /// parent, and every later node points to a strictly earlier parent.
    pub open spec fn wf(self) -> bool {
        &&& self@.len() >= 1
        &&& self.parent_of(0) is None
        &&& forall|i: int|
            1 <= i < self@.len() ==> ((#[trigger] self.parent_of(i)) matches Some(j) && 0 <= j < i)
    }

    /// Whether `r` designates a node of this tree.
    pub open spec fn contains_ref_spec(self, r: NodeRef) -> bool {
        0 <= r.idx() < self@.len()
    }

    /// The states along the parent chain from node `i` back to the root:
    /// node `i`'s state first, the root state last.
    pub open spec fn rev_path_from(self, i: int) -> Seq<S>
        decreases i,
    {
        if 0 <= i < self@.len() {
            match self.parent_of(i) {
                None => seq![self@[i]],
                Some(j) => if 0 <= j < i {
                    seq![self@[i]] + self.rev_path_from(j)
                } else {
                    seq![self@[i]]
                },
            }
        } else {
            Seq::empty()
        }
    }

    /// The path of node `i` in path order: the root state first, node `i`'s
    /// state last.
    pub open spec fn path_from(self, i: int) -> Seq<S> {
        self.rev_path_from(i).reverse()
    }

    /// The reference of the root node.
    pub fn root(&self) -> (r: NodeRef)
        ensures
            r.idx() == 0,
    {
        NodeRef(0)
    }

    /// Whether `r` designates a node of this tree; a reference obtained from
    /// a different arena instance may not.
    pub fn contains_ref(&self, r: &NodeRef) -> (b: bool)
        ensures
            b == self.contains_ref_spec(*r),
    {
        r.0 < self.nodes.len()
    }

    /// The number of nodes the tree holds.
    pub fn len(&self) -> (n: usize)
        ensures
            n == self@.len(),
    {
        self.nodes.len()
    }

    /// Appends a node carrying `state` under the parent `node_ref`, and
    /// returns the fresh reference of the new node: freshness is the final
    /// `forall`, which distinguishes the result from every reference already
    /// designating a node of this tree.
    pub fn expand(&mut self, node_ref: NodeRef, state: S) -> (r: NodeRef)
        requires
            old(self).wf(),
            old(self).contains_ref_spec(node_ref),
        ensures
            final(self).wf(),
            r.idx() == old(self)@.len(),
            final(self)@ == old(self)@.push(state),
            final(self).parent_of(r.idx()) == Some(node_ref.idx()),
            forall|k: int| 0 <= k < old(self)@.len() ==> final(self).parent_of(k)
                == old(self).parent_of(k),
            final(self).rev_path_from(r.idx()) == seq![state] + old(self).rev_path_from(
                node_ref.idx(),
            ),
            forall|q: NodeRef| q.idx() < old(self)@.len() ==> q != r,
    {
        let ghost pre = *self;
        let next_index = self.nodes.len();
        self.nodes.push(PathNode { state, prev: Some(node_ref.0) });
        let r = NodeRef(next_index);
        proof {
            assert(self@ =~= pre@.push(state));
            assert forall|k: int| 0 <= k < pre@.len() implies self.parent_of(k) == pre.parent_of(
                k,
            ) by {}
            assert(self.parent_of(r.idx()) == Some(node_ref.idx()));
            assert forall|i: int|
                1 <= i < self@.len() implies ((#[trigger] self.parent_of(i)) matches Some(j) && 0
                <= j < i) by {
                if i < pre@.len() {
                    assert(pre.parent_of(i) matches Some(j) && 0 <= j < i);
                } else {
                    assert(i == r.idx());
                }
            }
            Self::lemma_rev_path_prefix_stable(pre, *self, node_ref.idx());
            assert(self.rev_path_from(r.idx()) == seq![state] + pre.rev_path_from(node_ref.idx()));
        }
        r
    }

    /// Appends the whole chain `states` under `node_ref`, first element
    /// first, and returns the reference of the chain's last node. The
    /// root-first path of the new frontier is the root-first path of
    /// `node_ref` extended by exactly the appended states in order: the
    /// round-trip law for one accepted transition.
    pub fn expand_chain(&mut self, node_ref: NodeRef, states: Vec<S>) -> (r: NodeRef)
        requires
            old(self).wf(),
            old(self).contains_ref_spec(node_ref),
            states@.len() >= 1,
        ensures
            final(self).wf(),
            final(self)@ == old(self)@ + states@,
            r.idx() == old(self)@.len() + states@.len() - 1,
            final(self).rev_path_from(r.idx()) == states@.reverse() + old(self).rev_path_from(
                node_ref.idx(),
            ),
            final(self).path_from(r.idx()) == old(self).path_from(node_ref.idx()) + states@,
            forall|q: NodeRef| q.idx() < old(self)@.len() ==> q != r,
    {
        let ghost pre = *self;
        let ghost all = states@;
        let mut states = states;
        let mut cur = node_ref;
        let mut taken: usize = 0;
        proof {
            assert(all.subrange(0, 0).reverse() =~= Seq::<S>::empty());
            assert(pre@ + all.subrange(0, 0) =~= pre@);
            assert(self.rev_path_from(cur.idx()) =~= all.subrange(0, 0).reverse()
                + pre.rev_path_from(node_ref.idx()));
        }
        while states.len() > 0
            invariant
                taken + states@.len() == all.len(),
                states@ =~= all.subrange(taken as int, all.len() as int),
                self.wf(),
                self@ =~= pre@ + all.subrange(0, taken as int),
                taken == 0 ==> cur == node_ref,
                taken > 0 ==> cur.idx() == pre@.len() + taken - 1,
                self.contains_ref_spec(cur),
                self.rev_path_from(cur.idx()) =~= all.subrange(0, taken as int).reverse()
                    + pre.rev_path_from(node_ref.idx()),
                pre.wf(),
                pre.contains_ref_spec(node_ref),
            decreases states@.len(),
        {
            let s = states.remove(0);
            let ghost prev_tree = *self;
            let ghost prev_cur = cur;
            cur = self.expand(cur, s);
            proof {
                let t = taken as int;
                assert(s == all[t]);
                assert(all.subrange(0, t + 1).reverse() =~= seq![all[t]] + all.subrange(
                    0,
                    t,
                ).reverse());
                assert(self.rev_path_from(cur.idx()) == seq![s] + prev_tree.rev_path_from(
                    prev_cur.idx(),
                ));
                assert(self@ =~= pre@ + all.subrange(0, t + 1));
            }
            taken = taken + 1;
        }
        proof {
            assert(all.subrange(0, all.len() as int) =~= all);
            assert(self@ =~= pre@ + all);
            Self::lemma_expand_chain_round_trip(pre, *self, node_ref, cur, all);
        }
        cur
    }

    /// Consumes the tree into the path of `node_ref`, root first: the root
    /// state is the first element and the focused node's state the last.
    /// Storage is reclaimed while the backward walk proceeds; the collected
    /// walk is then reversed into path order.
    pub fn into_path(self, node_ref: NodeRef) -> (path: Vec<S>)
        requires
            self.wf(),
            self.contains_ref_spec(node_ref),
        ensures
            path@ == self.path_from(node_ref.idx()),
            path@.len() >= 1,
            path@[0] == self@[0],
            path@.last() == self@[node_ref.idx()],
    {
        proof {
            Self::lemma_paths_coincide(self, node_ref.idx());
            Self::lemma_rev_path_endpoints(self, node_ref.idx());
        }
        let ghost full = self.rev_path_from(node_ref.idx());
        let mut it = RevPathIterator { nodes: self.nodes, node: Some(node_ref.0) };
        let mut stack: Vec<S> = Vec::new();
        loop
            invariant
                it.inv(),
                stack@ + it.remaining() == full,
            ensures
                stack@ == full,
            decreases it.remaining().len(),
        {
            match it.next() {
                None => {
                    proof {
                        assert(stack@ =~= full);
                    }
                    break ;
                },
                Some(s) => {
                    stack.push(s);
                    proof {
                        assert(stack@ + it.remaining() =~= full);
                    }
                },
            }
        }
        let mut path: Vec<S> = Vec::new();
        loop
            invariant
                stack@.len() <= full.len(),
                stack@ == full.take(stack@.len() as int),
                path@ == full.skip(stack@.len() as int).reverse(),
            ensures
                path@ == full.reverse(),
            decreases stack@.len(),
        {
            let ghost m = stack@.len() as int;
            match stack.pop() {
                None => {
                    proof {
                        assert(full.skip(0) =~= full);
                    }
                    break ;
                },
                Some(s) => {
                    path.push(s);
                    proof {
                        assert(m > 0);
                        assert(s == full.take(m)[m - 1]);
                        assert(s == full[m - 1]);
                        assert(stack@ =~= full.take(m - 1));
                        assert(path@ =~= full.skip(m - 1).reverse());
                    }
                },
            }
        }
        path
    }

    /// The non-consuming path variant: borrows the tree, leaving it
    /// unchanged, and returns references to the states of `node_ref`'s
    /// path, root first — element for element the same sequence
    /// [`Self::into_path`] yields.
    pub fn path_iter<'a>(&'a self, node_ref: &NodeRef) -> (path: Vec<&'a S>)
        requires
            self.wf(),
            self.contains_ref_spec(*node_ref),
        ensures
            path@.len() == self.path_from(node_ref.idx()).len(),
            forall|i: int|
                0 <= i < path@.len() ==> *path@[i] == self.path_from(node_ref.idx())[i],
            path@.len() >= 1,
            *path@[0] == self@[0],
            *path@.last() == self@[node_ref.idx()],
    {
        proof {
            Self::lemma_paths_coincide(*self, node_ref.idx());
            Self::lemma_rev_path_endpoints(*self, node_ref.idx());
        }
        let ghost full = self.rev_path_from(node_ref.idx());
        let mut it = RevPathRefIterator { nodes: &self.nodes, node: Some(node_ref.0) };
        let mut stack: Vec<&S> = Vec::new();
        proof {
            assert(full.skip(0) =~= full);
        }
        loop
            invariant
                it.inv(),
                stack@.len() <= full.len(),
                it.remaining() == full.skip(stack@.len() as int),
                forall|i: int| 0 <= i < stack@.len() ==> *stack@[i] == full[i],
            ensures
                stack@.len() == full.len(),
                forall|i: int| 0 <= i < stack@.len() ==> *stack@[i] == full[i],
            decreases it.remaining().len(),
        {
            let ghost m = stack@.len() as int;
            match it.next() {
                None => {
                    break ;
                },
                Some(s) => {
                    stack.push(s);
                    proof {
                        assert(*s == full.skip(m)[0]);
                        assert(full.skip(m).drop_first() =~= full.skip(m + 1));
                    }
                },
            }
        }
        let mut path: Vec<&'a S> = Vec::new();
        loop
            invariant
                path@.len() + stack@.len() == full.len(),
                forall|i: int| 0 <= i < stack@.len() ==> *stack@[i] == full[i],
                forall|i: int| 0 <= i < path@.len() ==> *path@[i] == full[full.len() - 1 - i],
            ensures
                path@.len() == full.len(),
                forall|i: int| 0 <= i < path@.len() ==> *path@[i] == full[full.len() - 1 - i],
            decreases stack@.len(),
        {
            match stack.pop() {
                None => {
                    break ;
                },
                Some(s) => {
                    path.push(s);
                },
            }
        }
        path
    }

    /// Enumerates the tree for nearest-neighbour search: the root entry
    /// first, then a walk of the remaining nodes in insertion order.
    pub fn states<'a>(&'a self) -> (r: RandomTreeStates<'a, S>)
        requires
            self.wf(),
        ensures
            r.root.0.idx() == 0,
            *r.root.1 == self@[0],
            r.children.pos() == 1,
            r.children.src() == self@,
    {
        RandomTreeStates {
            root: (NodeRef(0), &self.nodes[0].state),
            children: RandomTreeStatesIter { nodes: &self.nodes, index: 1 },
        }
    }

    /// In a well-formed tree the public path definition agrees with the
    /// node-level walk the iterators perform, and the parent chain is well
    /// formed.
    proof fn lemma_paths_coincide(t: RandomTree<S>, i: int)
        requires
            t.wf(),
            0 <= i < t@.len(),
        ensures
            node_chain_ok(t.nodes@, i),
            node_rev_path(t.nodes@, i) == t.rev_path_from(i),
        decreases i,
    {
        if i > 0 {
            let j = t.parent_of(i)->Some_0;
            Self::lemma_paths_coincide(t, j);
        }
        assert(node_rev_path(t.nodes@, i) =~= t.rev_path_from(i));
    }

    /// The state stored at `node_ref`.
    pub fn get_state(&self, node_ref: &NodeRef) -> (s: &S)
        requires
            self.contains_ref_spec(*node_ref),
        ensures
            *s == self@[node_ref.idx()],
    {
        &self.nodes[node_ref.0].state
    }

    /// Two trees that agree node for node below `t1`'s length give each node
    /// below that length the same backward path, whatever was appended after.
    pub proof fn lemma_rev_path_prefix_stable(t1: RandomTree<S>, t2: RandomTree<S>, i: int)
        requires
            t1.wf(),
            0 <= i < t1@.len(),
            t1@.len() <= t2@.len(),
            forall|k: int| 0 <= k < t1@.len() ==> t2@[k] == t1@[k],
            forall|k: int| 0 <= k < t1@.len() ==> t2.parent_of(k) == t1.parent_of(k),
        ensures
            t2.rev_path_from(i) == t1.rev_path_from(i),
        decreases i,
    {
        match t1.parent_of(i) {
            None => {
                assert(t2.rev_path_from(i) =~= t1.rev_path_from(i));
            },
            Some(j) => {
                if 0 <= j < i {
                    Self::lemma_rev_path_prefix_stable(t1, t2, j);
                }
                assert(t2.rev_path_from(i) =~= t1.rev_path_from(i));
            },
        }
    }

    /// The round-trip law: after one accepted transition appends the chain
    /// `states` under `node_ref`, the root-first path of the new frontier is
    /// the root-first path of `node_ref` extended by exactly `states`, in
    /// insertion order. The premise is what [`Self::expand_chain`] ensures
    /// of the tree before (`t1`) and after (`t2`) the call.
    pub proof fn lemma_expand_chain_round_trip(
        t1: RandomTree<S>,
        t2: RandomTree<S>,
        node_ref: NodeRef,
        r: NodeRef,
        states: Seq<S>,
    )
        requires
            t2.rev_path_from(r.idx()) == states.reverse() + t1.rev_path_from(node_ref.idx()),
        ensures
            t2.path_from(r.idx()) == t1.path_from(node_ref.idx()) + states,
    {
        let p = t1.rev_path_from(node_ref.idx());
        assert((states.reverse() + p).reverse() =~= p.reverse() + states);
    }

    /// A backward path in a well-formed tree is never empty, starts with the
    /// state of the node it was asked for, and ends with the root state.
    pub proof fn lemma_rev_path_endpoints(t: RandomTree<S>, i: int)
        requires
            t.wf(),
            0 <= i < t@.len(),
        ensures
            t.rev_path_from(i).len() >= 1,
            t.rev_path_from(i)[0] == t@[i],
            t.rev_path_from(i).last() == t@[0],
        decreases i,
    {
        if i == 0 {
            assert(t.parent_of(0) is None);
        } else {
            let j = t.parent_of(i)->Some_0;
            Self::lemma_rev_path_endpoints(t, j);
        }
    }
}

/// The enumeration handed out by [`RandomTree::states`]: the root entry,
/// and a walk of the remaining nodes in insertion order.
pub struct RandomTreeStates<'a, S> {
    pub root: (NodeRef, &'a S),
    pub children: RandomTreeStatesIter<'a, S>,
}

/// A walk of the node entries of a tree from some index on, in insertion
/// order, yielding each node's reference and state.
pub struct RandomTreeStatesIter<'a, S> {
    nodes: &'a Vec<PathNode<S>>,
    index: usize,
}

impl<'a, S> RandomTreeStatesIter<'a, S> {
    /// The index of the next entry to yield.
    pub closed spec fn pos(self) -> int {
        self.index as int
    }

    /// The state sequence of the tree being walked.
    pub closed spec fn src(self) -> Seq<S> {
        self.nodes@.map_values(|n: PathNode<S>| n.state)
    }

    /// Yields the entry at the current position and advances, or reports the
    /// end of the tree.
    pub fn next(&mut self) -> (r: Option<(NodeRef, &'a S)>)
        ensures
            final(self).src() == old(self).src(),
            match r {
                Some((nr, s)) => {
                    &&& old(self).pos() < old(self).src().len()
                    &&& nr.idx() == old(self).pos()
                    &&& *s == old(self).src()[old(self).pos()]
                    &&& final(self).pos() == old(self).pos() + 1
                },
                None => {
                    &&& old(self).pos() >= old(self).src().len()
                    &&& final(self).pos() == old(self).pos()
                },
            },
    {
        if self.index >= self.nodes.len() {
            None
        } else {
            let item = (NodeRef(self.index), &self.nodes[self.index].state);
            self.index = self.index + 1;
            Some(item)
        }
    }
}

/// Consuming walk of a backward path, used by [`RandomTree::into_path`]:
/// yields the focused node's state first, then each ancestor in turn, the
/// root state last. Storage for the visited nodes is reclaimed as the walk
/// proceeds.
struct RevPathIterator<S> {
    nodes: Vec<PathNode<S>>,
    node: Option<usize>,
}

impl<S> RevPathIterator<S> {
    /// The parent chain still to walk is well formed.
    spec fn inv(self) -> bool {
        match self.node {
            None => true,
            Some(i) => node_chain_ok(self.nodes@, i as int),
        }
    }

    /// The states still to yield, in yield order.
    spec fn remaining(self) -> Seq<S> {
        match self.node {
            None => Seq::empty(),
            Some(i) => node_rev_path(self.nodes@, i as int),
        }
    }

    /// Yields the first remaining state, or reports the end of the path.
    fn next(&mut self) -> (r: Option<S>)
        requires
            old(self).inv(),
        ensures
            final(self).inv(),
            match r {
                Some(s) => {
                    &&& old(self).remaining().len() >= 1
                    &&& s == old(self).remaining()[0]
                    &&& final(self).remaining() == old(self).remaining().drop_first()
                },
                None => {
                    &&& old(self).remaining().len() == 0
                    &&& final(self).remaining() == old(self).remaining()
                },
            },
    {
        match self.node {
            None => None,
            Some(node_index) => {
                let ghost pre_nodes = self.nodes@;
                let node = self.nodes.swap_remove(node_index);
                self.node = node.prev;
                proof {
                    match node.prev {
                        None => {},
                        Some(j) => {
                            lemma_node_path_agree(
                                pre_nodes,
                                self.nodes@,
                                j as int,
                                node_index as int,
                            );
                            assert(node_rev_path(pre_nodes, node_index as int)
                                =~= seq![node.state] + node_rev_path(pre_nodes, j as int));
                        },
                    }
                }
                Some(node.state)
            },
        }
    }
}

/// Borrowing walk of a backward path, used by [`RandomTree::path_iter`]:
/// yields references to the focused node's state, then to each ancestor's,
/// the root state last.
struct RevPathRefIterator<'a, S> {
    nodes: &'a Vec<PathNode<S>>,
    node: Option<usize>,
}

impl<'a, S> RevPathRefIterator<'a, S> {
    /// The parent chain still to walk is well formed.
    spec fn inv(self) -> bool {
        match self.node {
            None => true,
            Some(i) => node_chain_ok(self.nodes@, i as int),
        }
    }

    /// The states still to yield, in yield order.
    spec fn remaining(self) -> Seq<S> {
        match self.node {
            None => Seq::empty(),
            Some(i) => node_rev_path(self.nodes@, i as int),
        }
    }

    /// Yields a reference to the first remaining state, or reports the end
    /// of the path.
    fn next(&mut self) -> (r: Option<&'a S>)
        requires
            old(self).inv(),
        ensures
            final(self).inv(),
            match r {
                Some(s) => {
                    &&& old(self).remaining().len() >= 1
                    &&& *s == old(self).remaining()[0]
                    &&& final(self).remaining() == old(self).remaining().drop_first()
                },
                None => {
                    &&& old(self).remaining().len() == 0
                    &&& final(self).remaining() == old(self).remaining()
                },
            },
    {
        match self.node {
            None => None,
            Some(node_index) => {
                let node = &self.nodes[node_index];
                self.node = node.prev;
                proof {
                    match node.prev {
                        None => {},
                        Some(j) => {
                            assert(node_rev_path(self.nodes@, node_index as int)
                                =~= seq![node.state] + node_rev_path(self.nodes@, j as int));
                        },
                    }
                }
                Some(&node.state)
            },
        }
    }
}

} // verus!
