//! Adding, removing and copying instance slots.
//!
//! A change to the instances of a node is made to every node below as well, so
//! that a slot keeps naming the same logical instance in the whole subtree. A
//! model node whose number of instances changes is marked, so that its buffer
//! is allocated anew the next time the buffers are brought up to date.

use vstd::prelude::*;
use super::{identities, Drawable, SceneNode};
use crate::data_structures::instance::Instance;

verus! {

/// Each transform of `instances` as the pair that a new slot starts with:
/// the transform as local and as world transform.
pub open spec fn paired(instances: Seq<Instance>) -> Seq<(Instance, Instance)> {
    Seq::new(instances.len(), |i: int| (instances[i], instances[i]))
}

impl Drawable {
    /// The same, with the buffer marked for reallocation.
    pub open spec fn resized(self) -> Drawable {
        Drawable { buffer_size_needs_change: true, ..self }
    }
}

/// What a node draws once its number of instances has changed.
pub open spec fn resized(drawable: Option<Drawable>) -> Option<Drawable> {
    match drawable {
        Some(d) => Some(d.resized()),
        None => None,
    }
}

impl SceneNode {
    /// Whether `after` is `before` with one new slot for each transform of
    /// `added`, in order, at the end of the node's instances, and one new slot
    /// at the identity for each of them in every node below. A model node that
    /// got a slot is marked for reallocation.
    pub open spec fn grown(before: SceneNode, after: SceneNode, added: Seq<Instance>) -> bool
        decreases before,
    {
        &&& after.instances() == before.instances() + paired(added)
        &&& after.animations() == before.animations()
        &&& after.drawable() == (if added.len() > 0 {
            resized(before.drawable())
        } else {
            before.drawable()
        })
        &&& after.children().len() == before.children().len()
        &&& forall|c: int|
            #![trigger before.children()[c]]
            #![trigger after.children()[c]]
            0 <= c < before.children().len() ==> Self::grown(
                before.children()[c],
                after.children()[c],
                identities(added.len()),
            )
    }

    /// Appends a slot that holds `instance` as local and as world transform,
    /// and a slot at the identity to every node below.
    ///
    /// Returns the number of instances that the node then has.
    pub fn add_instance(&mut self, instance: Instance) -> (count: usize)
        ensures
            Self::grown(*old(self), *final(self), seq![instance]),
            count == old(self).instances().len() + 1,
            final(self).marked(),
            old(self).aligned(old(self).instances().len()) ==> final(self).aligned(
                old(self).instances().len() + 1,
            ),
            old(self).sized() ==> final(self).sized(),
        decreases *old(self),
    {
        let (instances, children) = match self {
            SceneNode::Container(node) => (&mut node.instances, &mut node.children),
            SceneNode::Model(node) => {
                node.buffer_size_needs_change = true;
                (&mut node.instances, &mut node.children)
            },
        };
        instances.push((instance, instance));
        let n = children.len();
        let mut c: usize = 0;
        while c < n
            invariant
                c <= n,
                n == children@.len(),
                n == old(self).children().len(),
                forall|j: int|
                    0 <= j < c ==> Self::grown(
                        #[trigger] old(self).children()[j],
                        children@[j],
                        identities(1),
                    ),
                forall|j: int| c <= j < n ==> #[trigger] children@[j] == old(self).children()[j],
            decreases n - c,
        {
            let child = &mut children[c];
            child.add_instance(Instance::new());
            proof {
                assert(seq![Instance::identity()] =~= identities(1));
            }
            c += 1;
        }
        proof {
            assert(instances@ =~= old(self).instances() + paired(seq![instance]));
        }
        let count = instances.len();
        proof {
            Self::lemma_grown_marked(*old(self), *self, seq![instance]);
            if old(self).aligned(old(self).instances().len()) {
                Self::lemma_grown_aligned(
                    *old(self),
                    *self,
                    seq![instance],
                    old(self).instances().len(),
                );
            }
            if old(self).sized() {
                Self::lemma_grown_sized(*old(self), *self, seq![instance]);
            }
        }
        count
    }

    /// Appends one slot for each transform of `instances`, in order, as
    /// [`SceneNode::add_instance`] does.
    ///
    /// Returns the number of instances that the node then has.
    pub fn add_instances(&mut self, instances: Vec<Instance>) -> (count: usize)
        ensures
            Self::grown(*old(self), *final(self), instances@),
            count == old(self).instances().len() + instances@.len(),
            instances@.len() > 0 ==> final(self).marked(),
            old(self).aligned(old(self).instances().len()) ==> final(self).aligned(
                old(self).instances().len() + instances@.len(),
            ),
            old(self).sized() ==> final(self).sized(),
    {
        let n = instances.len();
        let mut i: usize = 0;
        proof {
            Self::lemma_grown_by_nothing(*self);
        }
        while i < n
            invariant
                i <= n,
                n == instances@.len(),
                Self::grown(*old(self), *self, instances@.take(i as int)),
            decreases n - i,
        {
            let ghost between = *self;
            self.add_instance(instances[i]);
            proof {
                Self::lemma_grown_twice(
                    *old(self),
                    between,
                    *self,
                    instances@.take(i as int),
                    seq![instances@[i as int]],
                );
                assert(instances@.take(i as int) + seq![instances@[i as int]] =~= instances@.take(
                    i + 1,
                ));
            }
            i += 1;
        }
        proof {
            assert(instances@.take(n as int) =~= instances@);
            if n > 0 {
                Self::lemma_grown_marked(*old(self), *self, instances@);
            }
            if old(self).aligned(old(self).instances().len()) {
                Self::lemma_grown_aligned(
                    *old(self),
                    *self,
                    instances@,
                    old(self).instances().len(),
                );
            }
            if old(self).sized() {
                Self::lemma_grown_sized(*old(self), *self, instances@);
            }
        }
        self.instance_count()
    }

    /// Whether `after` is `before` without slot `idx`, in the node and in every
    /// node below. A node without such a slot keeps its instances; a model node
    /// that lost a slot is marked for reallocation.
    pub open spec fn removed(before: SceneNode, after: SceneNode, idx: int) -> bool
        decreases before,
    {
        &&& after.animations() == before.animations()
        &&& if 0 <= idx < before.instances().len() {
            &&& after.instances() == before.instances().remove(idx)
            &&& after.drawable() == resized(before.drawable())
        } else {
            &&& after.instances() == before.instances()
            &&& after.drawable() == before.drawable()
        }
        &&& after.children().len() == before.children().len()
        &&& forall|c: int|
            #![trigger before.children()[c]]
            #![trigger after.children()[c]]
            0 <= c < before.children().len() ==> Self::removed(
                before.children()[c],
                after.children()[c],
                idx,
            )
    }

    /// Removes slot `idx` from every node below and then from the node.
    ///
    /// Returns the number of instances that the node then has.
    pub fn remove_instance(&mut self, idx: usize) -> (count: usize)
        ensures
            Self::removed(*old(self), *final(self), idx as int),
            count == final(self).instances().len(),
            old(self).aligned(old(self).instances().len()) ==> final(self).aligned(count as nat),
            old(self).sized() ==> final(self).sized(),
        decreases *old(self),
    {
        let (instances, children) = match self {
            SceneNode::Container(node) => (&mut node.instances, &mut node.children),
            SceneNode::Model(node) => {
                if idx < node.instances.len() {
                    node.buffer_size_needs_change = true;
                }
                (&mut node.instances, &mut node.children)
            },
        };
        let n = children.len();
        let mut c: usize = 0;
        while c < n
            invariant
                c <= n,
                n == children@.len(),
                n == old(self).children().len(),
                forall|j: int|
                    0 <= j < c ==> Self::removed(
                        #[trigger] old(self).children()[j],
                        children@[j],
                        idx as int,
                    ),
                forall|j: int| c <= j < n ==> #[trigger] children@[j] == old(self).children()[j],
            decreases n - c,
        {
            let child = &mut children[c];
            child.remove_instance(idx);
            c += 1;
        }
        if idx < instances.len() {
            instances.remove(idx);
        }
        let count = instances.len();
        proof {
            if old(self).aligned(old(self).instances().len()) {
                Self::lemma_removed_aligned(
                    *old(self),
                    *self,
                    idx as int,
                    old(self).instances().len(),
                );
            }
            if old(self).sized() {
                Self::lemma_removed_sized(*old(self), *self, idx as int);
            }
        }
        count
    }

    /// Whether `after` is `before` with a copy of slot `idx` at the end of the
    /// instances, in the node and in every node below. A node without such a
    /// slot keeps its instances; a model node that got a slot is marked for
    /// reallocation.
    pub open spec fn duplicated(before: SceneNode, after: SceneNode, idx: int) -> bool
        decreases before,
    {
        &&& after.animations() == before.animations()
        &&& if 0 <= idx < before.instances().len() {
            &&& after.instances() == before.instances().push(before.instances()[idx])
            &&& after.drawable() == resized(before.drawable())
        } else {
            &&& after.instances() == before.instances()
            &&& after.drawable() == before.drawable()
        }
        &&& after.children().len() == before.children().len()
        &&& forall|c: int|
            #![trigger before.children()[c]]
            #![trigger after.children()[c]]
            0 <= c < before.children().len() ==> Self::duplicated(
                before.children()[c],
                after.children()[c],
                idx,
            )
    }

    /// Inserts a new instance which is a clone of the instance with index `i`,
    /// in every node below and then in the node.
    ///
    /// Returns the number of instances that the node then has.
    pub fn clone_instance(&mut self, i: usize) -> (count: usize)
        ensures
            Self::duplicated(*old(self), *final(self), i as int),
            count == final(self).instances().len(),
            old(self).aligned(old(self).instances().len()) ==> final(self).aligned(count as nat),
            old(self).sized() ==> final(self).sized(),
        decreases *old(self),
    {
        let (instances, children) = match self {
            SceneNode::Container(node) => (&mut node.instances, &mut node.children),
            SceneNode::Model(node) => {
                if i < node.instances.len() {
                    node.buffer_size_needs_change = true;
                }
                (&mut node.instances, &mut node.children)
            },
        };
        let n = children.len();
        let mut c: usize = 0;
        while c < n
            invariant
                c <= n,
                n == children@.len(),
                n == old(self).children().len(),
                forall|j: int|
                    0 <= j < c ==> Self::duplicated(
                        #[trigger] old(self).children()[j],
                        children@[j],
                        i as int,
                    ),
                forall|j: int| c <= j < n ==> #[trigger] children@[j] == old(self).children()[j],
            decreases n - c,
        {
            let child = &mut children[c];
            child.clone_instance(i);
            c += 1;
        }
        if i < instances.len() {
            let copy = instances[i];
            instances.push(copy);
        }
        let count = instances.len();
        proof {
            if old(self).aligned(old(self).instances().len()) {
                Self::lemma_duplicated_aligned(
                    *old(self),
                    *self,
                    i as int,
                    old(self).instances().len(),
                );
            }
            if old(self).sized() {
                Self::lemma_duplicated_sized(*old(self), *self, i as int);
            }
        }
        count
    }

    /// Adding nothing changes nothing that can be observed.
    pub proof fn lemma_grown_by_nothing(node: SceneNode)
        ensures
            Self::grown(node, node, Seq::empty()),
        decreases node,
    {
        assert forall|c: int| 0 <= c < node.children().len() implies Self::grown(
            #[trigger] node.children()[c],
            node.children()[c],
            identities(0),
        ) by {
            Self::lemma_grown_by_nothing(node.children()[c]);
        }
    }

    /// Adding `first` and then `second` is adding the two lists one after the other.
    pub proof fn lemma_grown_twice(
        before: SceneNode,
        between: SceneNode,
        after: SceneNode,
        first: Seq<Instance>,
        second: Seq<Instance>,
    )
        requires
            Self::grown(before, between, first),
            Self::grown(between, after, second),
        ensures
            Self::grown(before, after, first + second),
        decreases before,
    {
        assert(after.instances() =~= before.instances() + paired(first + second));
        assert(identities(first.len()) + identities(second.len()) =~= identities(
            (first + second).len(),
        ));
        assert forall|c: int| 0 <= c < before.children().len() implies Self::grown(
            #[trigger] before.children()[c],
            after.children()[c],
            identities((first + second).len()),
        ) by {
            Self::lemma_grown_twice(
                before.children()[c],
                between.children()[c],
                after.children()[c],
                identities(first.len()),
                identities(second.len()),
            );
        }
    }

    /// Index alignment survives adding instances: where every node of a tree
    /// has `len` instances, every node has `len` and the number added afterwards.
    pub proof fn lemma_grown_aligned(
        before: SceneNode,
        after: SceneNode,
        added: Seq<Instance>,
        len: nat,
    )
        requires
            Self::grown(before, after, added),
            before.aligned(len),
        ensures
            after.aligned(len + added.len()),
        decreases before,
    {
        assert forall|c: int| 0 <= c < after.children().len() implies (
        #[trigger] after.children()[c]).aligned(len + added.len()) by {
            Self::lemma_grown_aligned(
                before.children()[c],
                after.children()[c],
                identities(added.len()),
                len,
            );
        }
    }

    /// Index alignment survives removing a slot: every node has one instance
    /// less where the slot was there, and as many as before where it was not.
    pub proof fn lemma_removed_aligned(before: SceneNode, after: SceneNode, idx: int, len: nat)
        requires
            Self::removed(before, after, idx),
            before.aligned(len),
        ensures
            after.aligned(
                if 0 <= idx < len {
                    (len - 1) as nat
                } else {
                    len
                },
            ),
        decreases before,
    {
        let left = if 0 <= idx < len {
            (len - 1) as nat
        } else {
            len
        };
        assert forall|c: int| 0 <= c < after.children().len() implies (
        #[trigger] after.children()[c]).aligned(left) by {
            Self::lemma_removed_aligned(before.children()[c], after.children()[c], idx, len);
        }
    }

    /// Index alignment survives copying a slot: every node has one instance
    /// more where the slot was there, and as many as before where it was not.
    pub proof fn lemma_duplicated_aligned(before: SceneNode, after: SceneNode, idx: int, len: nat)
        requires
            Self::duplicated(before, after, idx),
            before.aligned(len),
        ensures
            after.aligned(
                if 0 <= idx < len {
                    len + 1
                } else {
                    len
                },
            ),
        decreases before,
    {
        let more = if 0 <= idx < len {
            len + 1
        } else {
            len
        };
        assert forall|c: int| 0 <= c < after.children().len() implies (
        #[trigger] after.children()[c]).aligned(more) by {
            Self::lemma_duplicated_aligned(before.children()[c], after.children()[c], idx, len);
        }
    }

    /// Adding an instance marks every model node of the tree for reallocation.
    pub proof fn lemma_grown_marked(before: SceneNode, after: SceneNode, added: Seq<Instance>)
        requires
            Self::grown(before, after, added),
            added.len() > 0,
        ensures
            after.marked(),
        decreases before,
    {
        assert forall|c: int| 0 <= c < after.children().len() implies (
        #[trigger] after.children()[c]).marked() by {
            Self::lemma_grown_marked(
                before.children()[c],
                after.children()[c],
                identities(added.len()),
            );
        }
    }

    /// Adding instances keeps every unmarked buffer of the right size.
    pub proof fn lemma_grown_sized(before: SceneNode, after: SceneNode, added: Seq<Instance>)
        requires
            Self::grown(before, after, added),
            before.sized(),
        ensures
            after.sized(),
        decreases before,
    {
        assert forall|c: int| 0 <= c < after.children().len() implies (
        #[trigger] after.children()[c]).sized() by {
            Self::lemma_grown_sized(
                before.children()[c],
                after.children()[c],
                identities(added.len()),
            );
        }
    }

    /// Removing a slot keeps every unmarked buffer of the right size.
    pub proof fn lemma_removed_sized(before: SceneNode, after: SceneNode, idx: int)
        requires
            Self::removed(before, after, idx),
            before.sized(),
        ensures
            after.sized(),
        decreases before,
    {
        assert forall|c: int| 0 <= c < after.children().len() implies (
        #[trigger] after.children()[c]).sized() by {
            Self::lemma_removed_sized(before.children()[c], after.children()[c], idx);
        }
    }

    /// Copying a slot keeps every unmarked buffer of the right size.
    pub proof fn lemma_duplicated_sized(before: SceneNode, after: SceneNode, idx: int)
        requires
            Self::duplicated(before, after, idx),
            before.sized(),
        ensures
            after.sized(),
        decreases before,
    {
        assert forall|c: int| 0 <= c < after.children().len() implies (
        #[trigger] after.children()[c]).sized() by {
            Self::lemma_duplicated_sized(before.children()[c], after.children()[c], idx);
        }
    }
}

} // verus!
