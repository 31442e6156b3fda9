//! A tree of drawable nodes, each placed relative to its parent. The tree is
//! walked in pre-order; each node's world transform is its parent's world
//! transform composed with its own, which the caller computes from the
//! steps of the walk.

use vstd::prelude::*;

verus! {

/// A node of the scene: what it draws (nothing for an invisible node), its
/// transform relative to its parent, and its children in drawing order.
pub struct SceneNode<P, X> {
    node_type: Option<P>,
    tranform: X,
    child_nodes: Vec<SceneNode<P, X>>,
}

/// One node of a walk: the position of its parent in the walk (none for
/// the root), its own transform and what it draws.
pub struct DrawStep<'a, P, X> {
    pub parent: Option<usize>,
    pub local: &'a X,
    pub payload: Option<&'a P>,
}

/// A step of the walk in mathematical terms; the root's parent is -1.
pub struct StepSpec<P, X> {
    pub parent: int,
    pub local: X,
    pub payload: Option<P>,
}

/// The mathematical form of a step.
pub open spec fn step_view<'a, P, X>(step: DrawStep<'a, P, X>) -> StepSpec<P, X> {
    StepSpec {
        parent: match step.parent {
            Some(p) => p as int,
            None => -1,
        },
        local: *step.local,
        payload: match step.payload {
            Some(p) => Some(*p),
            None => None,
        },
    }
}

/// The mathematical form of a walk.
pub open spec fn steps_view<'a, P, X>(steps: Seq<DrawStep<'a, P, X>>) -> Seq<StepSpec<P, X>> {
    steps.map_values(|s: DrawStep<'a, P, X>| step_view(s))
}

impl<P, X> SceneNode<P, X> {
    pub closed spec fn spec_node_type(&self) -> Option<P> {
        self.node_type
    }

    pub closed spec fn spec_transform(&self) -> X {
        self.tranform
    }

    pub closed spec fn spec_children(&self) -> Seq<SceneNode<P, X>> {
        self.child_nodes@
    }

    /// The number of nodes of the tree.
    pub closed spec fn size(&self) -> nat
        decreases self, 1nat,
    {
        1 + Self::sizes(self.child_nodes@, 0)
    }

    /// The number of nodes of the trees `children[i..]`.
    pub closed spec fn sizes(children: Seq<SceneNode<P, X>>, i: int) -> nat
        decreases children, children.len() - i,
    {
        if 0 <= i < children.len() {
            children[i].size() + Self::sizes(children, i + 1)
        } else {
            0
        }
    }

    /// The pre-order walk of the tree when its root lands at position
    /// `base` with its parent at position `parent`.
    pub closed spec fn steps(&self, parent: int, base: int) -> Seq<StepSpec<P, X>>
        decreases self, 1nat,
    {
        seq![StepSpec { parent, local: self.tranform, payload: self.node_type }]
            + Self::child_steps(self.child_nodes@, 0, base, base + 1)
    }

    /// The walks of the trees `children[i..]`, one after the other from
    /// position `start`, all with their parent at position `parent`.
    pub closed spec fn child_steps(
        children: Seq<SceneNode<P, X>>,
        i: int,
        parent: int,
        start: int,
    ) -> Seq<StepSpec<P, X>>
        decreases children, children.len() - i,
    {
        if 0 <= i < children.len() {
            children[i].steps(parent, start) + Self::child_steps(
                children,
                i + 1,
                parent,
                start + children[i].size(),
            )
        } else {
            Seq::empty()
        }
    }

    /// A node that draws `payload`, with no children.
    pub fn from_payload(transform: X, payload: P) -> (r: SceneNode<P, X>)
        ensures
            r.spec_node_type() == Some(payload),
            r.spec_transform() == transform,
            r.spec_children() == Seq::<SceneNode<P, X>>::empty(),
    {
        SceneNode { node_type: Some(payload), tranform: transform, child_nodes: Vec::new() }
    }

    /// A node that draws `payload`, with the given children.
    pub fn from_payload_children(transform: X, payload: P, child_nodes: Vec<SceneNode<P, X>>) -> (r:
        SceneNode<P, X>)
        ensures
            r.spec_node_type() == Some(payload),
            r.spec_transform() == transform,
            r.spec_children() == child_nodes@,
    {
        SceneNode { node_type: Some(payload), tranform: transform, child_nodes }
    }

    /// A node that draws nothing itself but places its children.
    pub fn invisible(transform: X, child_nodes: Vec<SceneNode<P, X>>) -> (r: SceneNode<P, X>)
        ensures
            r.spec_node_type() is None,
            r.spec_transform() == transform,
            r.spec_children() == child_nodes@,
    {
        SceneNode { node_type: None, tranform: transform, child_nodes }
    }

    /// The walk of the tree, in the order the nodes are drawn: each node
    /// before its children, the children in order. Each step names the
    /// position of its parent's step, so that the world transform of a node
    /// is that of its parent composed with its own.
    pub fn draw_steps(&self) -> (r: Vec<DrawStep<'_, P, X>>)
        ensures
            steps_view(r@) == self.steps(-1, 0),
            walk_carries(steps_view(r@), preorder(*self)),
    {
        let mut out: Vec<DrawStep<'_, P, X>> = Vec::new();
        self.push_steps(None, &mut out);
        assert(steps_view(out@) =~= Seq::<StepSpec<P, X>>::empty() + self.steps(-1, 0));
        proof {
            self.lemma_steps_carry(-1, 0);
        }
        out
    }

    proof fn lemma_steps_len(&self, parent: int, base: int)
        ensures
            self.steps(parent, base).len() == self.size(),
        decreases self, 1nat,
    {
        Self::lemma_child_steps_len(self.child_nodes@, 0, base, base + 1);
    }

    proof fn lemma_child_steps_len(children: Seq<SceneNode<P, X>>, i: int, parent: int, start: int)
        ensures
            Self::child_steps(children, i, parent, start).len() == Self::sizes(children, i),
        decreases children, children.len() - i,
    {
        if 0 <= i < children.len() {
            children[i].lemma_steps_len(parent, start);
            Self::lemma_child_steps_len(children, i + 1, parent, start + children[i].size());
        }
    }

    proof fn lemma_steps_parents(&self, parent: int, base: int)
        ensures
            self.steps(parent, base).len() > 0,
            self.steps(parent, base)[0].parent == parent,
            forall|k: int|
                1 <= k < self.steps(parent, base).len() ==> base <= (#[trigger] self.steps(
                    parent,
                    base,
                )[k]).parent < base + k,
        decreases self, 1nat,
    {
        let all = self.steps(parent, base);
        let kids = Self::child_steps(self.child_nodes@, 0, base, base + 1);
        Self::lemma_child_steps_parents(self.child_nodes@, 0, base, base + 1);
        assert forall|k: int| 1 <= k < all.len() implies base <= (#[trigger] all[k]).parent < base + k by {
            assert(all[k] == kids[k - 1]);
        }
    }

    proof fn lemma_child_steps_parents(children: Seq<SceneNode<P, X>>, i: int, parent: int, start: int)
        ensures
            forall|k: int|
                0 <= k < Self::child_steps(children, i, parent, start).len() ==> (#[trigger] Self::child_steps(
                    children,
                    i,
                    parent,
                    start,
                )[k]).parent == parent || start <= Self::child_steps(children, i, parent, start)[k].parent
                    < start + k,
        decreases children, children.len() - i,
    {
        if 0 <= i < children.len() {
            let here = children[i].steps(parent, start);
            let later = Self::child_steps(children, i + 1, parent, start + children[i].size());
            let all = Self::child_steps(children, i, parent, start);
            children[i].lemma_steps_parents(parent, start);
            children[i].lemma_steps_len(parent, start);
            Self::lemma_child_steps_parents(children, i + 1, parent, start + children[i].size());
            assert(all == here + later);
            assert forall|k: int| 0 <= k < all.len() implies (#[trigger] all[k]).parent == parent || start
                <= all[k].parent < start + k by {
                if k < here.len() {
                    assert(all[k] == here[k]);
                } else {
                    assert(all[k] == later[k - here.len()]);
                }
            }
        }
    }

    /// Appends the walk of this tree, its root placed at the end of `out`
    /// with its parent at `parent`.
    fn push_steps<'a>(&'a self, parent: Option<usize>, out: &mut Vec<DrawStep<'a, P, X>>)
        requires
            match parent {
                Some(p) => p < old(out)@.len(),
                None => true,
            },
        ensures
            steps_view(final(out)@) == steps_view(old(out)@) + self.steps(
                match parent {
                    Some(p) => p as int,
                    None => -1,
                },
                old(out)@.len() as int,
            ),
        decreases self, 1nat,
    {
        let ghost parent_int = match parent {
            Some(p) => p as int,
            None => -1,
        };
        let ghost before = out@;
        let position = out.len();
        out.push(DrawStep { parent, local: &self.tranform, payload: self.node_type.as_ref() });
        assert(steps_view(out@) =~= steps_view(before) + seq![
            StepSpec { parent: parent_int, local: self.tranform, payload: self.node_type },
        ]);
        let mut i: usize = 0;
        while i < self.child_nodes.len()
            invariant
                i <= self.child_nodes@.len(),
                position == before.len(),
                out@.len() > position,
                steps_view(out@) == steps_view(before) + seq![
                    StepSpec { parent: parent_int, local: self.tranform, payload: self.node_type },
                ] + Self::child_steps(self.child_nodes@, 0, position as int, position + 1).take(
                    out@.len() - position - 1,
                ),
                out@.len() - position - 1 == Self::sizes(self.child_nodes@, 0) - Self::sizes(
                    self.child_nodes@,
                    i as int,
                ),
                Self::child_steps(self.child_nodes@, 0, position as int, position + 1)
                    == Self::child_steps(self.child_nodes@, 0, position as int, position + 1).take(
                    out@.len() - position - 1,
                ) + Self::child_steps(self.child_nodes@, i as int, position as int, out@.len() as int),
            decreases self.child_nodes@.len() - i,
        {
            let ghost mid = out@;
            let ghost rest = Self::child_steps(self.child_nodes@, i as int, position as int, mid.len() as int);
            let ghost all = Self::child_steps(self.child_nodes@, 0, position as int, position + 1);
            let ghost done = mid.len() - position - 1;
            let child = &self.child_nodes[i];
            child.push_steps(Some(position), out);
            proof {
                child.lemma_steps_len(position as int, mid.len() as int);
                Self::lemma_child_steps_len(
                    self.child_nodes@,
                    i + 1,
                    position as int,
                    (mid.len() + child.size()) as int,
                );
                let here = child.steps(position as int, mid.len() as int);
                let later = Self::child_steps(
                    self.child_nodes@,
                    i + 1,
                    position as int,
                    (mid.len() + child.size()) as int,
                );
                assert(rest == here + later);
                assert(all == all.take(done) + here + later);
                assert(all.take(done + here.len()) =~= all.take(done) + here);
                assert(steps_view(out@) =~= steps_view(mid) + here);
                assert(steps_view(out@).len() == out@.len());
                assert(steps_view(mid).len() == mid.len());
                assert(*child == self.child_nodes@[i as int]);
                assert(Self::sizes(self.child_nodes@, i as int) == child.size() + Self::sizes(
                    self.child_nodes@,
                    i + 1,
                ));
            }
            i = i + 1;
        }
        proof {
            let all = Self::child_steps(self.child_nodes@, 0, position as int, position + 1);
            assert(Self::child_steps(self.child_nodes@, i as int, position as int, out@.len() as int)
                =~= Seq::<StepSpec<P, X>>::empty());
            assert(all.take(out@.len() - position - 1) =~= all);
        }
    }
}

/// The nodes of the tree in pre-order: the root, then the nodes of each
/// child's tree, the children in order.
pub open spec fn preorder<P, X>(node: SceneNode<P, X>) -> Seq<SceneNode<P, X>>
    decreases node, 1nat,
{
    seq![node] + preorder_of_all(node.spec_children(), 0)
}

/// The nodes of the trees `children[i..]` in pre-order, one tree after the
/// other.
pub open spec fn preorder_of_all<P, X>(children: Seq<SceneNode<P, X>>, i: int) -> Seq<
    SceneNode<P, X>,
>
    decreases children, children.len() - i,
{
    if 0 <= i < children.len() {
        preorder(children[i]) + preorder_of_all(children, i + 1)
    } else {
        Seq::empty()
    }
}

/// Step `k` of `walk` stands for node `k` of `nodes`, for every `k`: it
/// carries that node's transform and what it draws.
pub open spec fn walk_carries<P, X>(walk: Seq<StepSpec<P, X>>, nodes: Seq<SceneNode<P, X>>) -> bool {
    &&& walk.len() == nodes.len()
    &&& forall|k: int|
        0 <= k < walk.len() ==> (#[trigger] walk[k]).local == nodes[k].spec_transform()
            && walk[k].payload == nodes[k].spec_node_type()
}

proof fn lemma_walk_carries_concat<P, X>(
    a: Seq<StepSpec<P, X>>,
    n: Seq<SceneNode<P, X>>,
    b: Seq<StepSpec<P, X>>,
    m: Seq<SceneNode<P, X>>,
)
    requires
        walk_carries(a, n),
        walk_carries(b, m),
    ensures
        walk_carries(a + b, n + m),
{
    assert forall|k: int| 0 <= k < (a + b).len() implies (#[trigger] (a + b)[k]).local == (n
        + m)[k].spec_transform() && (a + b)[k].payload == (n + m)[k].spec_node_type() by {
        if k < a.len() {
            assert((a + b)[k] == a[k]);
            assert((n + m)[k] == n[k]);
        } else {
            assert((a + b)[k] == b[k - a.len()]);
            assert((n + m)[k] == m[k - n.len()]);
        }
    }
}

impl<P, X> SceneNode<P, X> {
    proof fn lemma_steps_carry(&self, parent: int, base: int)
        ensures
            walk_carries(self.steps(parent, base), preorder(*self)),
        decreases self, 1nat,
    {
        Self::lemma_child_steps_carry(self.child_nodes@, 0, base, base + 1);
        let head = seq![StepSpec { parent, local: self.tranform, payload: self.node_type }];
        assert(walk_carries(head, seq![*self]));
        lemma_walk_carries_concat(
            head,
            seq![*self],
            Self::child_steps(self.child_nodes@, 0, base, base + 1),
            preorder_of_all(self.child_nodes@, 0),
        );
    }

    proof fn lemma_child_steps_carry(children: Seq<SceneNode<P, X>>, i: int, parent: int, start: int)
        ensures
            walk_carries(Self::child_steps(children, i, parent, start), preorder_of_all(children, i)),
        decreases children, children.len() - i,
    {
        if 0 <= i < children.len() {
            children[i].lemma_steps_carry(parent, start);
            Self::lemma_child_steps_carry(children, i + 1, parent, start + children[i].size());
            lemma_walk_carries_concat(
                children[i].steps(parent, start),
                preorder(children[i]),
                Self::child_steps(children, i + 1, parent, start + children[i].size()),
                preorder_of_all(children, i + 1),
            );
        }
    }
}

/// Every node of the scene is drawn, in pre-order: step `k` of the walk
/// carries the transform of the `k`-th node in pre-order and what that node
/// draws, whatever the shape of the tree. In particular the first step is
/// the root, with the root's own transform and payload, and a subtree's
/// walk, wherever it lands, starts with that subtree's root.
pub proof fn law_scene_walk_draws_every_node<P, X>(node: SceneNode<P, X>, parent: int, base: int)
    ensures
        walk_carries(node.steps(parent, base), preorder(node)),
        node.steps(parent, base)[0] == (StepSpec {
            parent,
            local: node.spec_transform(),
            payload: node.spec_node_type(),
        }),
{
    node.lemma_steps_carry(parent, base);
    node.lemma_steps_parents(parent, base);
    assert(preorder(node)[0] == node);
}

/// The walk of a scene visits each node after its parent: the root comes
/// first and has no parent, every other step names an earlier step as its
/// parent, and there is one step per node. So the world transforms can be
/// computed in one pass over the walk.
pub proof fn law_scene_walk_parent_first<P, X>(node: SceneNode<P, X>)
    ensures
        node.steps(-1, 0).len() == node.size(),
        node.steps(-1, 0)[0].parent == -1,
        forall|k: int|
            1 <= k < node.steps(-1, 0).len() ==> 0 <= (#[trigger] node.steps(-1, 0)[k]).parent < k,
{
    node.lemma_steps_len(-1, 0);
    node.lemma_steps_parents(-1, 0);
}

} // verus!
