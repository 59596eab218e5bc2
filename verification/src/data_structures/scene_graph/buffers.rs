//! Keeping the instance buffers in step with the instances.
//!
//! Writing the world transforms of a node into its buffer is cheap and done
//! every frame. Allocating the buffer anew is expensive and done only after the
//! number of instances has changed, which the node records in a flag.

use vstd::prelude::*;
use super::SceneNode;
use crate::data_structures::instance::Instance;
use crate::gpu::{command_views, BufferCommand, BufferCommandView, FrontFace};

verus! {

/// Whether every command writes into a buffer as it is.
pub open spec fn writes_only(commands: Seq<BufferCommandView>) -> bool {
    forall|i: int| 0 <= i < commands.len() ==> (#[trigger] commands[i]) is Write
}

/// Whether every command allocates a buffer anew.
pub open spec fn recreates_only(commands: Seq<BufferCommandView>) -> bool {
    forall|i: int| 0 <= i < commands.len() ==> (#[trigger] commands[i]) is Recreate
}

impl SceneNode {
    /// Whether the node is a model node that is marked for reallocation.
    pub open spec fn needs_resize(self) -> bool {
        self.drawable() matches Some(drawable) && drawable.buffer_size_needs_change
    }

    /// Whether every model node of the subtree is marked for reallocation.
    pub open spec fn marked(self) -> bool
        decreases self,
    {
        &&& self.drawable() is Some ==> self.needs_resize()
        &&& forall|c: int|
            0 <= c < self.children().len() ==> (#[trigger] self.children()[c]).marked()
    }

    /// Whether no model node of the subtree is marked for reallocation.
    pub open spec fn clean(self) -> bool
        decreases self,
    {
        &&& !self.needs_resize()
        &&& forall|c: int| 0 <= c < self.children().len() ==> (#[trigger] self.children()[c]).clean()
    }

    /// Whether the buffer of every model node of the subtree that is not
    /// marked for reallocation has room for exactly the instances of the node.
    pub open spec fn sized(self) -> bool
        decreases self,
    {
        &&& self.drawable() matches Some(drawable) ==> {
            ||| drawable.buffer_size_needs_change
            ||| drawable.instance_buffer.capacity == self.instances().len()
        }
        &&& forall|c: int| 0 <= c < self.children().len() ==> (#[trigger] self.children()[c]).sized()
    }

    /// The buffer traffic that the node itself asks for: none for a container;
    /// for a model node its world transforms, into a new buffer where the node
    /// is marked for reallocation and into the buffer it has where it is not.
    pub open spec fn own_command(self) -> Seq<BufferCommandView> {
        match self.drawable() {
            None => Seq::empty(),
            Some(drawable) => if drawable.buffer_size_needs_change {
                seq![
                    BufferCommandView::Recreate {
                        buffer: drawable.instance_buffer.handle,
                        contents: self.worlds(),
                    },
                ]
            } else {
                seq![
                    BufferCommandView::Write {
                        buffer: drawable.instance_buffer.handle,
                        contents: self.worlds(),
                    },
                ]
            },
        }
    }

    /// The buffer traffic that the subtree asks for: that of the node, then
    /// that of each child's subtree, in order.
    pub open spec fn sync_commands(self) -> Seq<BufferCommandView>
        decreases self, 0nat,
    {
        self.own_command() + Self::sync_commands_of(self.children(), self.children().len())
    }

    /// The buffer traffic that the subtrees of the first `upto` of `nodes` ask for.
    pub open spec fn sync_commands_of(nodes: Seq<SceneNode>, upto: nat) -> Seq<BufferCommandView>
        decreases nodes, upto,
    {
        if upto == 0 || upto > nodes.len() {
            Seq::empty()
        } else {
            Self::sync_commands_of(nodes, (upto - 1) as nat) + nodes[upto - 1].sync_commands()
        }
    }

    /// Whether `after` is `before` with its buffers brought up to date.
    ///
    /// Instances and animations stay. A model node is no longer marked for
    /// reallocation; its buffer has room for exactly its instances where it was
    /// marked and the room it had where it was not; its winding order is
    /// clockwise if and only if the world transform of its first instance
    /// mirrors, and stays where it has no instance; `mirrors(world, answer)`
    /// tells whether `answer` may be given to the question whether `world`
    /// mirrors. The same holds of every node below.
    pub open spec fn synced(
        before: SceneNode,
        after: SceneNode,
        mirrors: spec_fn(Instance, bool) -> bool,
    ) -> bool
        decreases before,
    {
        &&& after.instances() == before.instances()
        &&& after.animations() == before.animations()
        &&& match before.drawable() {
            None => after.drawable() is None,
            Some(prior) => {
                &&& after.drawable() matches Some(now)
                &&& now.model == prior.model
                &&& now.id == prior.id
                &&& now.instance_buffer.handle == prior.instance_buffer.handle
                &&& if prior.buffer_size_needs_change {
                    now.instance_buffer.capacity == before.instances().len()
                } else {
                    now.instance_buffer.capacity == prior.instance_buffer.capacity
                }
                &&& !now.buffer_size_needs_change
                &&& if before.instances().len() > 0 {
                    mirrors(before.instances()[0].1, now.front_face == FrontFace::Cw)
                } else {
                    now.front_face == prior.front_face
                }
            },
        }
        &&& after.children().len() == before.children().len()
        &&& forall|c: int|
            #![trigger before.children()[c]]
            #![trigger after.children()[c]]
            0 <= c < before.children().len() ==> Self::synced(
                before.children()[c],
                after.children()[c],
                mirrors,
            )
    }

    /// Brings the GPU buffers of the subtree up to date with its world
    /// transforms, by way of the commands that it returns for the renderer to
    /// carry out in order.
    ///
    /// A model node whose number of instances has changed gets a new buffer,
    /// and is then no longer marked; any other model node has its buffer
    /// written in place. The winding order of a model node follows the world
    /// transform of its first instance: `mirrored` tells whether that transform
    /// turns triangles over.
    pub fn write_to_buffers<G: Fn(&Instance) -> bool>(&mut self, mirrored: &G) -> (commands: Vec<
        BufferCommand,
    >)
        requires
            forall|world: &Instance| mirrored.requires((world,)),
        ensures
            Self::synced(
                *old(self),
                *final(self),
                |world: Instance, answer: bool| mirrored.ensures((&world,), answer),
            ),
            command_views(commands@) == old(self).sync_commands(),
            final(self).clean(),
            old(self).clean() ==> writes_only(command_views(commands@)),
            old(self).marked() ==> recreates_only(command_views(commands@)),
            old(self).sized() ==> final(self).sized(),
    {
        let mut commands: Vec<BufferCommand> = Vec::new();
        let ghost mirrors = |world: Instance, answer: bool| mirrored.ensures((&world,), answer);
        self.sync_into(mirrored, Ghost(mirrors), &mut commands);
        proof {
            Self::lemma_synced_clean(*old(self), *self, mirrors);
            if old(self).clean() {
                Self::lemma_clean_writes_in_place(*old(self));
            }
            if old(self).marked() {
                Self::lemma_marked_recreates(*old(self));
            }
            if old(self).sized() {
                Self::lemma_synced_sized(*old(self), *self, mirrors);
            }
        }
        commands
    }

    fn sync_into<G: Fn(&Instance) -> bool>(
        &mut self,
        mirrored: &G,
        Ghost(mirrors): Ghost<spec_fn(Instance, bool) -> bool>,
        commands: &mut Vec<BufferCommand>,
    )
        requires
            forall|world: &Instance| mirrored.requires((world,)),
            forall|world: Instance, answer: bool|
                mirrored.ensures((&world,), answer) ==> mirrors(world, answer),
        ensures
            Self::synced(*old(self), *final(self), mirrors),
            command_views(final(commands)@) == command_views(old(commands)@) + old(
                self,
            ).sync_commands(),
        decreases *old(self),
    {
        let contents = self.get_world_transforms();
        let children = match self {
            SceneNode::Container(node) => &mut node.children,
            SceneNode::Model(node) => {
                if node.instances.len() > 0 {
                    let first = node.instances[0].1;
                    node.front_face = if mirrored(&first) {
                        FrontFace::Cw
                    } else {
                        FrontFace::Ccw
                    };
                }
                let buffer = node.instance_buffer.handle;
                if node.buffer_size_needs_change {
                    node.instance_buffer.capacity = node.instances.len();
                    node.buffer_size_needs_change = false;
                    commands.push(BufferCommand::Recreate { buffer, contents });
                } else {
                    commands.push(BufferCommand::Write { buffer, contents });
                }
                &mut node.children
            },
        };
        let n = children.len();
        let mut c: usize = 0;
        while c < n
            invariant
                c <= n,
                n == children@.len(),
                n == old(self).children().len(),
                forall|world: &Instance| mirrored.requires((world,)),
                forall|world: Instance, answer: bool|
                    mirrored.ensures((&world,), answer) ==> mirrors(world, answer),
                forall|j: int|
                    0 <= j < c ==> Self::synced(
                        #[trigger] old(self).children()[j],
                        children@[j],
                        mirrors,
                    ),
                forall|j: int| c <= j < n ==> #[trigger] children@[j] == old(self).children()[j],
                command_views(commands@) == command_views(old(commands)@) + old(
                    self,
                ).own_command() + Self::sync_commands_of(old(self).children(), c as nat),
            decreases n - c,
        {
            let child = &mut children[c];
            child.sync_into(mirrored, Ghost(mirrors), commands);
            c += 1;
        }
    }

    /// Bringing the buffers up to date leaves no model node marked for reallocation.
    pub proof fn lemma_synced_clean(
        before: SceneNode,
        after: SceneNode,
        mirrors: spec_fn(Instance, bool) -> bool,
    )
        requires
            Self::synced(before, after, mirrors),
        ensures
            after.clean(),
        decreases before,
    {
        assert forall|c: int| 0 <= c < after.children().len() implies (
        #[trigger] after.children()[c]).clean() by {
            Self::lemma_synced_clean(before.children()[c], after.children()[c], mirrors);
        }
    }

    /// Bringing the buffers up to date keeps every unmarked buffer of the right size.
    pub proof fn lemma_synced_sized(
        before: SceneNode,
        after: SceneNode,
        mirrors: spec_fn(Instance, bool) -> bool,
    )
        requires
            Self::synced(before, after, mirrors),
            before.sized(),
        ensures
            after.sized(),
        decreases before,
    {
        assert forall|c: int| 0 <= c < after.children().len() implies (
        #[trigger] after.children()[c]).sized() by {
            Self::lemma_synced_sized(before.children()[c], after.children()[c], mirrors);
        }
    }

    /// A tree with no model node marked for reallocation asks for writes in
    /// place only: nothing is allocated.
    pub proof fn lemma_clean_writes_in_place(node: SceneNode)
        requires
            node.clean(),
        ensures
            writes_only(node.sync_commands()),
        decreases node, 0nat,
    {
        Self::lemma_clean_children_write_in_place(node.children(), node.children().len());
    }

    /// Trees with no model node marked for reallocation ask for writes in place only.
    pub proof fn lemma_clean_children_write_in_place(nodes: Seq<SceneNode>, upto: nat)
        requires
            forall|c: int| 0 <= c < nodes.len() ==> (#[trigger] nodes[c]).clean(),
        ensures
            writes_only(Self::sync_commands_of(nodes, upto)),
        decreases nodes, upto,
    {
        if upto == 0 || upto > nodes.len() {
        } else {
            Self::lemma_clean_children_write_in_place(nodes, (upto - 1) as nat);
            Self::lemma_clean_writes_in_place(nodes[upto - 1]);
        }
    }

    /// A tree with every model node marked for reallocation asks for new
    /// buffers only.
    pub proof fn lemma_marked_recreates(node: SceneNode)
        requires
            node.marked(),
        ensures
            recreates_only(node.sync_commands()),
        decreases node, 0nat,
    {
        Self::lemma_marked_children_recreate(node.children(), node.children().len());
    }

    /// Trees with every model node marked for reallocation ask for new buffers only.
    pub proof fn lemma_marked_children_recreate(nodes: Seq<SceneNode>, upto: nat)
        requires
            forall|c: int| 0 <= c < nodes.len() ==> (#[trigger] nodes[c]).marked(),
        ensures
            recreates_only(Self::sync_commands_of(nodes, upto)),
        decreases nodes, upto,
    {
        if upto == 0 || upto > nodes.len() {
        } else {
            Self::lemma_marked_children_recreate(nodes, (upto - 1) as nat);
            Self::lemma_marked_recreates(nodes[upto - 1]);
        }
    }

    /// The buffer of a model node is reallocated once after instances were
    /// added: the first time the buffers are brought up to date clears every
    /// mark, and from then on, with no instance added or removed in between,
    /// all writes go into the buffers as they are.
    pub proof fn lemma_reallocated_once(
        before: SceneNode,
        added_to: SceneNode,
        synced_once: SceneNode,
        synced_twice: SceneNode,
        added: Seq<Instance>,
        mirrors: spec_fn(Instance, bool) -> bool,
    )
        requires
            Self::grown(before, added_to, added),
            added.len() > 0,
            Self::synced(added_to, synced_once, mirrors),
            Self::synced(synced_once, synced_twice, mirrors),
        ensures
            added_to.marked(),
            recreates_only(added_to.sync_commands()),
            synced_once.clean(),
            writes_only(synced_once.sync_commands()),
            synced_twice.clean(),
            writes_only(synced_twice.sync_commands()),
    {
        Self::lemma_grown_marked(before, added_to, added);
        Self::lemma_marked_recreates(added_to);
        Self::lemma_synced_clean(added_to, synced_once, mirrors);
        Self::lemma_clean_writes_in_place(synced_once);
        Self::lemma_synced_clean(synced_once, synced_twice, mirrors);
        Self::lemma_clean_writes_in_place(synced_twice);
    }
}

} // verus!
