//! World-transform propagation.
//!
//! The world transform of an instance is the world transform of the instance
//! of the parent node at the same slot, composed with its local transform.
//! Propagation walks the tree from a node down and brings a range of slots up to
//! date, each node from the world transforms that its parent has just got.

use vstd::prelude::*;
use std::ops::Range;
use super::{identities, SceneNode};
use crate::data_structures::instance::Instance;

verus! {

/// The lesser of two numbers.
pub open spec fn min(a: int, b: int) -> int {
    if a <= b {
        a
    } else {
        b
    }
}

impl SceneNode {
    /// Whether the node refuses to take world transforms for the slots from
    /// `start` up to `end` from `parents` parent transforms: there are more of
    /// them than the node has instances, or the range does not lie within its
    /// instances.
    pub open spec fn rejects(self, parents: nat, start: int, end: int) -> bool {
        ||| parents > self.instances().len()
        ||| start > end
        ||| end > self.instances().len()
    }

    /// Whether some node of the subtree refuses when the node is handed
    /// `parents` parent transforms for the slots from `start` up to `end`.
    pub open spec fn any_rejects(self, parents: nat, start: int, end: int) -> bool
        decreases self,
    {
        ||| self.rejects(parents, start, end)
        ||| exists|c: int|
            0 <= c < self.children().len() && (#[trigger] self.children()[c]).any_rejects(
                min(end - start, parents as int) as nat,
                start,
                end,
            )
    }

    /// Whether `after` is `before` with its world transforms brought up to date
    /// from the parent transforms `parents`, for the slots from `start` up to
    /// `end`, where `composed(parent, local, world)` tells whether `world` may
    /// come out of composing `parent` with `local`.
    ///
    /// A node that refuses stays as it is, with all below it. Otherwise slot
    /// `start + k` gets `parents[k]` composed with its local transform, for each
    /// `k` that both the range and `parents` have; the other slots and all local
    /// transforms stay; and every child is brought up to date for the same slots
    /// from the world transforms that the node has just got.
    pub open spec fn propagated(
        before: SceneNode,
        after: SceneNode,
        parents: Seq<Instance>,
        start: int,
        end: int,
        composed: spec_fn(Instance, Instance, Instance) -> bool,
    ) -> bool
        decreases before,
    {
        if before.rejects(parents.len(), start, end) {
            after == before
        } else {
            let count = min(end - start, parents.len() as int);
            &&& after.animations() == before.animations()
            &&& after.drawable() == before.drawable()
            &&& after.instances().len() == before.instances().len()
            &&& forall|i: int|
                0 <= i < before.instances().len() ==> (#[trigger] after.instances()[i]).0
                    == before.instances()[i].0
            &&& forall|i: int|
                0 <= i < before.instances().len() && !(start <= i < start + count)
                    ==> (#[trigger] after.instances()[i]).1 == before.instances()[i].1
            &&& forall|i: int|
                start <= i < start + count ==> composed(
                    parents[i - start],
                    before.instances()[i].0,
                    (#[trigger] after.instances()[i]).1,
                )
            &&& after.children().len() == before.children().len()
            &&& forall|c: int|
                #![trigger before.children()[c]]
                #![trigger after.children()[c]]
                0 <= c < before.children().len() ==> Self::propagated(
                    before.children()[c],
                    after.children()[c],
                    after.worlds().subrange(start, start + count),
                    start,
                    end,
                    composed,
                )
        }
    }

    /// Whether the world transforms of the subtree are up to date with respect
    /// to the parent transforms `parents`: the node has one instance for each of
    /// them, the world transform of each instance is the parent transform at
    /// its slot composed with its local transform, and every child is up to date
    /// with respect to the world transforms of the node.
    pub open spec fn up_to_date(
        self,
        parents: Seq<Instance>,
        composed: spec_fn(Instance, Instance, Instance) -> bool,
    ) -> bool
        decreases self,
    {
        &&& self.instances().len() == parents.len()
        &&& forall|i: int|
            0 <= i < parents.len() ==> composed(
                parents[i],
                (#[trigger] self.instances()[i]).0,
                self.instances()[i].1,
            )
        &&& forall|c: int|
            0 <= c < self.children().len() ==> (#[trigger] self.children()[c]).up_to_date(
                self.worlds(),
                composed,
            )
    }

    /// Multiple instances of a parent can be passed down to multiple instances of multiple children.
    /// The argument `parents_world_transform` with a matching `range` size provides control over which instances are transformed.
    ///
    /// Returns whether some node of the subtree refused and was left as it was.
    pub fn update_world_transforms<F: Fn(&Instance, &Instance) -> Instance>(
        &mut self,
        parents_world_transform: &Vec<Instance>,
        range: Range<usize>,
        compose: &F,
    ) -> (skipped: bool)
        requires
            forall|parent: &Instance, local: &Instance| compose.requires((parent, local)),
        ensures
            Self::propagated(
                *old(self),
                *final(self),
                parents_world_transform@,
                range.start as int,
                range.end as int,
                |parent: Instance, local: Instance, world: Instance|
                    compose.ensures((&parent, &local), world),
            ),
            skipped == old(self).any_rejects(
                parents_world_transform@.len(),
                range.start as int,
                range.end as int,
            ),
            parents_world_transform@.len() > old(self).instances().len() ==> *final(self) == *old(
                self,
            ),
            old(self).aligned(old(self).instances().len()) ==> final(self).aligned(
                old(self).instances().len(),
            ),
    {
        let ghost composed = |parent: Instance, local: Instance, world: Instance|
            compose.ensures((&parent, &local), world);
        let skipped = self.propagate(
            parents_world_transform,
            range.start,
            range.end,
            compose,
            Ghost(composed),
        );
        proof {
            if old(self).aligned(old(self).instances().len()) {
                Self::lemma_propagated_aligned(
                    *old(self),
                    *self,
                    parents_world_transform@,
                    range.start as int,
                    range.end as int,
                    composed,
                    old(self).instances().len(),
                );
            }
        }
        skipped
    }

    fn propagate<F: Fn(&Instance, &Instance) -> Instance>(
        &mut self,
        parents: &Vec<Instance>,
        start: usize,
        end: usize,
        compose: &F,
        Ghost(composed): Ghost<spec_fn(Instance, Instance, Instance) -> bool>,
    ) -> (skipped: bool)
        requires
            forall|parent: &Instance, local: &Instance| compose.requires((parent, local)),
            forall|parent: Instance, local: Instance, world: Instance|
                compose.ensures((&parent, &local), world) ==> composed(parent, local, world),
        ensures
            Self::propagated(*old(self), *final(self), parents@, start as int, end as int, composed),
            skipped == old(self).any_rejects(parents@.len(), start as int, end as int),
        decreases *old(self),
    {
        let (instances, children) = match self {
            SceneNode::Container(node) => (&mut node.instances, &mut node.children),
            SceneNode::Model(node) => (&mut node.instances, &mut node.children),
        };
        if parents.len() > instances.len() {
            return true;
        }
        if start > end || end > instances.len() {
            return true;
        }
        let count = if end - start <= parents.len() {
            end - start
        } else {
            parents.len()
        };
        let mut world_transforms: Vec<Instance> = Vec::new();
        let mut k: usize = 0;
        while k < count
            invariant
                k <= count,
                count == min(end - start, parents@.len() as int),
                start + count <= end <= instances@.len(),
                instances@.len() == old(self).instances().len(),
                forall|parent: &Instance, local: &Instance| compose.requires((parent, local)),
                forall|parent: Instance, local: Instance, world: Instance|
                    compose.ensures((&parent, &local), world) ==> composed(parent, local, world),
                world_transforms@.len() == k,
                forall|i: int|
                    0 <= i < instances@.len() ==> (#[trigger] instances@[i]).0 == old(
                        self,
                    ).instances()[i].0,
                forall|i: int|
                    0 <= i < instances@.len() && !(start <= i < start + k)
                        ==> (#[trigger] instances@[i]).1 == old(self).instances()[i].1,
                forall|i: int|
                    start <= i < start + k ==> composed(
                        parents@[i - start],
                        old(self).instances()[i].0,
                        (#[trigger] instances@[i]).1,
                    ),
                forall|i: int| 0 <= i < k ==> world_transforms@[i] == instances@[start + i].1,
            decreases count - k,
        {
            let local = instances[start + k].0;
            let world = compose(&parents[k], &local);
            instances[start + k] = (local, world);
            world_transforms.push(world);
            k += 1;
        }
        let n = children.len();
        let mut skipped = false;
        let mut c: usize = 0;
        while c < n
            invariant
                c <= n,
                n == children@.len(),
                n == old(self).children().len(),
                forall|parent: &Instance, local: &Instance| compose.requires((parent, local)),
                forall|parent: Instance, local: Instance, world: Instance|
                    compose.ensures((&parent, &local), world) ==> composed(parent, local, world),
                forall|j: int|
                    0 <= j < c ==> Self::propagated(
                        #[trigger] old(self).children()[j],
                        children@[j],
                        world_transforms@,
                        start as int,
                        end as int,
                        composed,
                    ),
                forall|j: int| c <= j < n ==> #[trigger] children@[j] == old(self).children()[j],
                skipped == exists|j: int|
                    0 <= j < c && (#[trigger] old(self).children()[j]).any_rejects(
                        world_transforms@.len(),
                        start as int,
                        end as int,
                    ),
            decreases n - c,
        {
            let child = &mut children[c];
            let child_skipped = child.propagate(
                &world_transforms,
                start,
                end,
                compose,
                Ghost(composed),
            );
            skipped = skipped || child_skipped;
            c += 1;
        }
        proof {
            assert(world_transforms@ =~= final(self).worlds().subrange(
                start as int,
                start + count,
            ));
        }
        skipped
    }

    /// Brings all world transforms of the subtree up to date, with no parent
    /// above the node: its world transforms are its local transforms composed
    /// with the identity.
    ///
    /// Returns whether some node of the subtree refused and was left as it was.
    pub fn update_world_transform_all<F: Fn(&Instance, &Instance) -> Instance>(
        &mut self,
        compose: &F,
    ) -> (skipped: bool)
        requires
            forall|parent: &Instance, local: &Instance| compose.requires((parent, local)),
        ensures
            Self::propagated(
                *old(self),
                *final(self),
                identities(old(self).instances().len()),
                0,
                old(self).instances().len() as int,
                |parent: Instance, local: Instance, world: Instance|
                    compose.ensures((&parent, &local), world),
            ),
            skipped == old(self).any_rejects(
                old(self).instances().len(),
                0,
                old(self).instances().len() as int,
            ),
            old(self).aligned(old(self).instances().len()) ==> {
                &&& !skipped
                &&& final(self).aligned(old(self).instances().len())
                &&& final(self).up_to_date(
                    identities(old(self).instances().len()),
                    |parent: Instance, local: Instance, world: Instance|
                        compose.ensures((&parent, &local), world),
                )
            },
    {
        let n = self.instance_count();
        let mut default_instances: Vec<Instance> = Vec::new();
        let mut i: usize = 0;
        while i < n
            invariant
                i <= n,
                default_instances@ == identities(i as nat),
            decreases n - i,
        {
            default_instances.push(Instance::new());
            i += 1;
        }
        let ghost composed = |parent: Instance, local: Instance, world: Instance|
            compose.ensures((&parent, &local), world);
        let skipped = self.propagate(&default_instances, 0, n, compose, Ghost(composed));
        proof {
            if old(self).aligned(n as nat) {
                Self::lemma_aligned_never_skips(*old(self), n as nat, n as nat, 0, n as int);
                Self::lemma_propagated_aligned(
                    *old(self),
                    *self,
                    default_instances@,
                    0,
                    n as int,
                    composed,
                    n as nat,
                );
                Self::lemma_propagated_up_to_date(*old(self), *self, default_instances@, composed);
            }
        }
        skipped
    }

    /// Bringing world transforms up to date changes no number of instances.
    pub proof fn lemma_propagated_aligned(
        before: SceneNode,
        after: SceneNode,
        parents: Seq<Instance>,
        start: int,
        end: int,
        composed: spec_fn(Instance, Instance, Instance) -> bool,
        len: nat,
    )
        requires
            Self::propagated(before, after, parents, start, end, composed),
            before.aligned(len),
        ensures
            after.aligned(len),
        decreases before,
    {
        if !before.rejects(parents.len(), start, end) {
            let count = min(end - start, parents.len() as int);
            assert forall|c: int| 0 <= c < after.children().len() implies (
            #[trigger] after.children()[c]).aligned(len) by {
                Self::lemma_propagated_aligned(
                    before.children()[c],
                    after.children()[c],
                    after.worlds().subrange(start, start + count),
                    start,
                    end,
                    composed,
                    len,
                );
            }
        }
    }

    /// Propagation is correct on aligned trees: once a tree whose nodes all have
    /// `len` instances was brought up to date for all its slots from `len`
    /// parent transforms, the world transform of every instance of every node is
    /// the world transform above it composed with its local transform.
    pub proof fn lemma_propagated_up_to_date(
        before: SceneNode,
        after: SceneNode,
        parents: Seq<Instance>,
        composed: spec_fn(Instance, Instance, Instance) -> bool,
    )
        requires
            before.aligned(parents.len()),
            Self::propagated(before, after, parents, 0, parents.len() as int, composed),
        ensures
            after.up_to_date(parents, composed),
        decreases before,
    {
        let len = parents.len();
        assert(after.worlds().subrange(0, len as int) =~= after.worlds());
        assert forall|c: int| 0 <= c < after.children().len() implies (
        #[trigger] after.children()[c]).up_to_date(after.worlds(), composed) by {
            Self::lemma_propagated_up_to_date(
                before.children()[c],
                after.children()[c],
                after.worlds(),
                composed,
            );
        }
    }

    /// Where composing the identity with a transform gives that transform, a
    /// node that was brought up to date for all its slots with no parent above
    /// has each world transform equal to its local transform.
    pub proof fn lemma_root_world_is_local(
        before: SceneNode,
        after: SceneNode,
        composed: spec_fn(Instance, Instance, Instance) -> bool,
    )
        requires
            Self::propagated(
                before,
                after,
                identities(before.instances().len()),
                0,
                before.instances().len() as int,
                composed,
            ),
            forall|local: Instance, world: Instance|
                #[trigger] composed(Instance::identity(), local, world) ==> world == local,
        ensures
            forall|i: int|
                0 <= i < after.instances().len() ==> (#[trigger] after.instances()[i]).1
                    == after.instances()[i].0,
    {
    }

    /// In a tree whose nodes all have the same number of instances, no node
    /// below refuses what the root accepts.
    pub proof fn lemma_aligned_never_skips(
        node: SceneNode,
        len: nat,
        parents: nat,
        start: int,
        end: int,
    )
        requires
            node.aligned(len),
            !node.rejects(parents, start, end),
        ensures
            !node.any_rejects(parents, start, end),
        decreases node,
    {
        let count = min(end - start, parents as int) as nat;
        assert forall|c: int| 0 <= c < node.children().len() implies !(
        #[trigger] node.children()[c]).any_rejects(count, start, end) by {
            assert(node.children()[c].aligned(len));
            Self::lemma_aligned_never_skips(node.children()[c], len, count, start, end);
        }
    }

    /// Bringing world transforms up to date keeps every unmarked buffer of the right size.
    pub proof fn lemma_propagated_sized(
        before: SceneNode,
        after: SceneNode,
        parents: Seq<Instance>,
        start: int,
        end: int,
        composed: spec_fn(Instance, Instance, Instance) -> bool,
    )
        requires
            Self::propagated(before, after, parents, start, end, composed),
            before.sized(),
        ensures
            after.sized(),
        decreases before,
    {
        if !before.rejects(parents.len(), start, end) {
            let count = min(end - start, parents.len() as int);
            assert forall|c: int| 0 <= c < after.children().len() implies (
            #[trigger] after.children()[c]).sized() by {
                Self::lemma_propagated_sized(
                    before.children()[c],
                    after.children()[c],
                    after.worlds().subrange(start, start + count),
                    start,
                    end,
                    composed,
                );
            }
        }
    }
}

} // verus!
