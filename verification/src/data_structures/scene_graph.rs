//! Hierarchical scene organization.
//!
//! A scene is a tree of nodes. Every node carries an array of instances, each a
//! pair of a local transform (relative to the parent node) and a world
//! transform (relative to the scene root). Slot `i` of a node and slot `i` of
//! its children describe the same logical instance, so that one instance of a
//! parent fans out to the instance of each child at the same slot.
//!
//! Arithmetic on transforms is not done here: the functions that need to
//! compose two transforms, or to tell whether one mirrors, take a function that
//! does it.

use vstd::prelude::*;
use vstd::std_specs::convert::FromSpecImpl;
use crate::data_structures::animation::ModelAnimation;
use crate::data_structures::instance::Instance;
use crate::gpu::{BufferHandle, FrontFace, InstanceBuffer, ModelHandle};

mod buffers;
mod description;
mod drawing;
mod instances;
mod playback;
mod propagation;

pub use buffers::{recreates_only, writes_only};
pub use description::{
    describable, described, drawable_of, scene_root, to_scene_node, NodeDescription,
};
pub use instances::{paired, resized};
pub use playback::{keyframe_index, paths, shows, shows_after};
pub use propagation::min;

verus! {

/// What a model node holds beyond its place in the tree.
#[derive(Clone, Copy, Debug, PartialEq, Eq, Structural)]
pub struct Drawable {
    /// The model that every instance of the node draws.
    pub model: ModelHandle,
    /// The GPU buffer that holds one record per instance.
    pub instance_buffer: InstanceBuffer,
    /// Whether the number of instances has changed since the buffer was allocated.
    pub buffer_size_needs_change: bool,
    /// The winding order to draw the node with.
    pub front_face: FrontFace,
    /// The id that the node is drawn with into the pick target.
    pub id: u32,
}

/// A node that only groups its children: a pivot.
pub struct ContainerNode {
    pub children: Vec<SceneNode>,
    pub instances: Vec<(Instance, Instance)>,
    animations: Vec<ModelAnimation>,
}

/// A node that draws a model, once per instance.
pub struct ModelNode {
    children: Vec<SceneNode>,
    instance_buffer: InstanceBuffer,
    instances: Vec<(Instance, Instance)>,
    animations: Vec<ModelAnimation>,
    buffer_size_needs_change: bool,
    obj_model: ModelHandle,
    front_face: FrontFace,
    id: u32,
}

/// A node of the scene tree.
pub enum SceneNode {
    Container(ContainerNode),
    Model(ModelNode),
}

/// `amount` pairs of identity transforms.
pub open spec fn identity_pairs(amount: nat) -> Seq<(Instance, Instance)> {
    Seq::new(amount, |i: int| (Instance::identity(), Instance::identity()))
}

/// An instance array of `amount` identity pairs.
fn identity_instances(amount: u32) -> (instances: Vec<(Instance, Instance)>)
    ensures
        instances@ == identity_pairs(amount as nat),
{
    let mut instances: Vec<(Instance, Instance)> = Vec::new();
    let mut i: u32 = 0;
    while i < amount
        invariant
            i <= amount,
            instances@ == identity_pairs(i as nat),
        decreases amount - i,
    {
        instances.push((Instance::new(), Instance::new()));
        i += 1;
    }
    instances
}

/// `amount` identity transforms.
pub open spec fn identities(amount: nat) -> Seq<Instance> {
    Seq::new(amount, |i: int| Instance::identity())
}

impl ContainerNode {
    /// A container with `amount` instances at the identity and no children.
    pub fn new(amount: u32, animations: Vec<ModelAnimation>) -> (node: ContainerNode)
        ensures
            SceneNode::Container(node).instances() == identity_pairs(amount as nat),
            SceneNode::Container(node).children() == Seq::<SceneNode>::empty(),
            SceneNode::Container(node).animations() == animations@,
            SceneNode::Container(node).drawable() is None,
            SceneNode::Container(node).aligned(amount as nat),
            SceneNode::Container(node).sized(),
    {
        let instances = identity_instances(amount);
        let children = Vec::new();
        ContainerNode { instances, children, animations }
    }
}

impl ModelNode {
    /// A model node with `amount` instances at the identity and no children.
    ///
    /// `instance_buffer` names a buffer that holds `amount` instance records.
    pub fn from_model(
        amount: u32,
        instance_buffer: BufferHandle,
        obj_model: ModelHandle,
        animations: Vec<ModelAnimation>,
    ) -> (node: ModelNode)
        ensures
            SceneNode::Model(node).instances() == identity_pairs(amount as nat),
            SceneNode::Model(node).children() == Seq::<SceneNode>::empty(),
            SceneNode::Model(node).animations() == animations@,
            SceneNode::Model(node).drawable() == Some(
                Drawable {
                    model: obj_model,
                    instance_buffer: InstanceBuffer {
                        handle: instance_buffer,
                        capacity: amount as usize,
                    },
                    buffer_size_needs_change: false,
                    front_face: FrontFace::Ccw,
                    id: 0,
                },
            ),
            SceneNode::Model(node).aligned(amount as nat),
            SceneNode::Model(node).sized(),
    {
        let instances = identity_instances(amount);
        ModelNode {
            children: Vec::new(),
            instance_buffer: InstanceBuffer { handle: instance_buffer, capacity: amount as usize },
            instances,
            obj_model,
            buffer_size_needs_change: false,
            animations,
            front_face: FrontFace::Ccw,
            id: 0,
        }
    }
}

impl From<ContainerNode> for SceneNode {
    fn from(node: ContainerNode) -> (scene_node: SceneNode) {
        SceneNode::Container(node)
    }
}

impl FromSpecImpl<ContainerNode> for SceneNode {
    open spec fn obeys_from_spec() -> bool {
        true
    }

    open spec fn from_spec(node: ContainerNode) -> SceneNode {
        SceneNode::Container(node)
    }
}

impl From<ModelNode> for SceneNode {
    fn from(node: ModelNode) -> (scene_node: SceneNode) {
        SceneNode::Model(node)
    }
}

impl FromSpecImpl<ModelNode> for SceneNode {
    open spec fn obeys_from_spec() -> bool {
        true
    }

    open spec fn from_spec(node: ModelNode) -> SceneNode {
        SceneNode::Model(node)
    }
}

impl SceneNode {
    /// The instances of the node: pairs of a local and a world transform.
    pub closed spec fn instances(self) -> Seq<(Instance, Instance)> {
        match self {
            SceneNode::Container(node) => node.instances@,
            SceneNode::Model(node) => node.instances@,
        }
    }

    /// The children of the node, in the order in which they were added.
    pub closed spec fn children(self) -> Seq<SceneNode> {
        match self {
            SceneNode::Container(node) => node.children@,
            SceneNode::Model(node) => node.children@,
        }
    }

    /// The animations of the node.
    pub closed spec fn animations(self) -> Seq<ModelAnimation> {
        match self {
            SceneNode::Container(node) => node.animations@,
            SceneNode::Model(node) => node.animations@,
        }
    }

    /// What the node draws: nothing for a container.
    pub closed spec fn drawable(self) -> Option<Drawable> {
        match self {
            SceneNode::Container(_) => None,
            SceneNode::Model(node) => Some(
                Drawable {
                    model: node.obj_model,
                    instance_buffer: node.instance_buffer,
                    buffer_size_needs_change: node.buffer_size_needs_change,
                    front_face: node.front_face,
                    id: node.id,
                },
            ),
        }
    }

    /// A node has no more instances and no more children than a vector holds.
    pub proof fn lemma_counts_fit(self)
        ensures
            self.instances().len() <= usize::MAX,
            self.children().len() <= usize::MAX,
    {
        match self {
            SceneNode::Container(node) => {
                assert(node.instances.len() == node.instances@.len());
                assert(node.children.len() == node.children@.len());
            },
            SceneNode::Model(node) => {
                assert(node.instances.len() == node.instances@.len());
                assert(node.children.len() == node.children@.len());
            },
        }
    }

    /// The local transforms of the node, by slot.
    pub open spec fn locals(self) -> Seq<Instance> {
        Seq::new(self.instances().len(), |i: int| self.instances()[i].0)
    }

    /// The world transforms of the node, by slot.
    pub open spec fn worlds(self) -> Seq<Instance> {
        Seq::new(self.instances().len(), |i: int| self.instances()[i].1)
    }

    /// Whether every node of the subtree has exactly `len` instances.
    pub open spec fn aligned(self, len: nat) -> bool
        decreases self,
    {
        &&& self.instances().len() == len
        &&& forall|c: int|
            0 <= c < self.children().len() ==> (#[trigger] self.children()[c]).aligned(len)
    }

    /// Whether every node of the subtree has as many instances as the node.
    pub fn is_aligned(&self) -> (aligned: bool)
        ensures
            aligned == self.aligned(self.instances().len()),
    {
        let len = self.instance_count();
        self.aligned_to(len)
    }

    fn aligned_to(&self, len: usize) -> (aligned: bool)
        ensures
            aligned == self.aligned(len as nat),
        decreases self,
    {
        let (instances, children) = match self {
            SceneNode::Container(node) => (&node.instances, &node.children),
            SceneNode::Model(node) => (&node.instances, &node.children),
        };
        if instances.len() != len {
            return false;
        }
        let n = children.len();
        let mut c: usize = 0;
        while c < n
            invariant
                c <= n,
                n == children@.len(),
                children@ == self.children(),
                forall|j: int| 0 <= j < c ==> (#[trigger] self.children()[j]).aligned(len as nat),
            decreases n - c,
        {
            if !children[c].aligned_to(len) {
                return false;
            }
            c += 1;
        }
        true
    }

    /// The number of instances of the node.
    pub fn instance_count(&self) -> (count: usize)
        ensures
            count == self.instances().len(),
    {
        match self {
            SceneNode::Container(node) => node.instances.len(),
            SceneNode::Model(node) => node.instances.len(),
        }
    }

    /// The world transforms of the node, by slot.
    pub fn get_world_transforms(&self) -> (worlds: Vec<Instance>)
        ensures
            worlds@ == self.worlds(),
    {
        let instances = match self {
            SceneNode::Container(node) => &node.instances,
            SceneNode::Model(node) => &node.instances,
        };
        let mut worlds: Vec<Instance> = Vec::new();
        let n = instances.len();
        let mut i: usize = 0;
        while i < n
            invariant
                i <= n,
                n == instances@.len(),
                instances@ == self.instances(),
                worlds@ == self.worlds().take(i as int),
            decreases n - i,
        {
            worlds.push(instances[i].1);
            i += 1;
        }
        worlds
    }

    /// The local transform of slot `idx`, if the node has such a slot.
    pub fn get_local_transform(&self, idx: usize) -> (local: Option<Instance>)
        ensures
            local == (if idx < self.instances().len() {
                Some(self.instances()[idx as int].0)
            } else {
                None
            }),
    {
        let instances = match self {
            SceneNode::Container(node) => &node.instances,
            SceneNode::Model(node) => &node.instances,
        };
        if idx < instances.len() {
            Some(instances[idx].0)
        } else {
            None
        }
    }

    /// The children of the node.
    pub fn get_children(&self) -> (children: &Vec<SceneNode>)
        ensures
            children@ == self.children(),
    {
        match self {
            SceneNode::Container(node) => &node.children,
            SceneNode::Model(node) => &node.children,
        }
    }

    /// The children of the node, to change them in place.
    pub fn get_children_mut(&mut self) -> (children: &mut Vec<SceneNode>)
        ensures
            children@ == old(self).children(),
            final(self).children() == final(children)@,
            final(self).same_but_children(*old(self)),
    {
        match self {
            SceneNode::Container(node) => &mut node.children,
            SceneNode::Model(node) => &mut node.children,
        }
    }

    /// What the node draws: nothing for a container.
    pub fn get_drawable(&self) -> (drawable: Option<Drawable>)
        ensures
            drawable == self.drawable(),
    {
        match self {
            SceneNode::Container(_) => None,
            SceneNode::Model(node) => Some(
                Drawable {
                    model: node.obj_model,
                    instance_buffer: node.instance_buffer,
                    buffer_size_needs_change: node.buffer_size_needs_change,
                    front_face: node.front_face,
                    id: node.id,
                },
            ),
        }
    }

    /// The animations of the node.
    pub fn get_animation(&self) -> (animations: &Vec<ModelAnimation>)
        ensures
            animations@ == self.animations(),
    {
        match self {
            SceneNode::Container(node) => &node.animations,
            SceneNode::Model(node) => &node.animations,
        }
    }

    /// Whether two nodes differ at most in their children.
    pub open spec fn same_but_children(self, other: SceneNode) -> bool {
        &&& self.instances() == other.instances()
        &&& self.animations() == other.animations()
        &&& self.drawable() == other.drawable()
    }

    /// Whether two nodes differ at most in their instances.
    pub open spec fn same_but_instances(self, other: SceneNode) -> bool {
        &&& self.children() == other.children()
        &&& self.animations() == other.animations()
        &&& self.drawable() == other.drawable()
    }

    /// Puts `child` below the node, behind the children it has.
    pub fn add_child(&mut self, child: SceneNode)
        ensures
            final(self).children() == old(self).children().push(child),
            final(self).same_but_children(*old(self)),
            old(self).aligned(old(self).instances().len()) && child.aligned(
                old(self).instances().len(),
            ) ==> final(self).aligned(old(self).instances().len()),
            old(self).sized() && child.sized() ==> final(self).sized(),
    {
        match self {
            SceneNode::Container(node) => node.children.push(child),
            SceneNode::Model(node) => node.children.push(child),
        }
    }

    /// Takes the child at `idx` out of the node. Without such a child the node
    /// stays as it is.
    pub fn remove_child(&mut self, idx: usize) -> (child: Option<SceneNode>)
        ensures
            final(self).same_but_children(*old(self)),
            idx < old(self).children().len() ==> {
                &&& child == Some(old(self).children()[idx as int])
                &&& final(self).children() == old(self).children().remove(idx as int)
            },
            idx >= old(self).children().len() ==> {
                &&& child is None
                &&& *final(self) == *old(self)
            },
    {
        let children = match self {
            SceneNode::Container(node) => &mut node.children,
            SceneNode::Model(node) => &mut node.children,
        };
        if idx < children.len() {
            Some(children.remove(idx))
        } else {
            None
        }
    }

    /// Sets the local transform of slot `idx`. Without such a slot the node
    /// stays as it is.
    pub fn set_local_transform(&mut self, idx: usize, instance: Instance)
        ensures
            final(self).same_but_instances(*old(self)),
            idx < old(self).instances().len() ==> final(self).instances() == old(
                self,
            ).instances().update(idx as int, (instance, old(self).instances()[idx as int].1)),
            idx >= old(self).instances().len() ==> *final(self) == *old(self),
    {
        let instances = match self {
            SceneNode::Container(node) => &mut node.instances,
            SceneNode::Model(node) => &mut node.instances,
        };
        if idx < instances.len() {
            let world = instances[idx].1;
            instances[idx] = (instance, world);
        }
    }

    /// Replaces every local transform of the node by what `mutation` makes of it.
    pub fn set_local_transform_all<F: Fn(&Instance) -> Instance>(&mut self, mutation: &F)
        requires
            forall|local: &Instance| mutation.requires((local,)),
        ensures
            final(self).same_but_instances(*old(self)),
            final(self).instances().len() == old(self).instances().len(),
            forall|i: int|
                0 <= i < old(self).instances().len() ==> {
                    &&& mutation.ensures(
                        (&old(self).instances()[i].0,),
                        (#[trigger] final(self).instances()[i]).0,
                    )
                    &&& final(self).instances()[i].1 == old(self).instances()[i].1
                },
    {
        let instances = match self {
            SceneNode::Container(node) => &mut node.instances,
            SceneNode::Model(node) => &mut node.instances,
        };
        let n = instances.len();
        let mut i: usize = 0;
        while i < n
            invariant
                i <= n,
                n == instances@.len(),
                n == old(self).instances().len(),
                forall|local: &Instance| mutation.requires((local,)),
                forall|j: int|
                    0 <= j < i ==> {
                        &&& mutation.ensures(
                            (&old(self).instances()[j].0,),
                            (#[trigger] instances@[j]).0,
                        )
                        &&& instances@[j].1 == old(self).instances()[j].1
                    },
                forall|j: int| i <= j < n ==> #[trigger] instances@[j] == old(self).instances()[j],
            decreases n - i,
        {
            let (local, world) = instances[i];
            let changed = mutation(&local);
            instances[i] = (changed, world);
            i += 1;
        }
    }
}

/// Whether `node` is a model node with `amount` instances at the identity, no
/// children and no animations, which draws `model` from the buffer `buffer`.
pub open spec fn fresh_model(node: SceneNode, amount: nat, buffer: BufferHandle, model: ModelHandle) -> bool {
    &&& node.instances() == identity_pairs(amount)
    &&& node.children() == Seq::<SceneNode>::empty()
    &&& node.animations() == Seq::<ModelAnimation>::empty()
    &&& node.drawable() == Some(
        Drawable {
            model,
            instance_buffer: InstanceBuffer { handle: buffer, capacity: amount as usize },
            buffer_size_needs_change: false,
            front_face: FrontFace::Ccw,
            id: 0,
        },
    )
}

/// A container with `amount` instances and below it one model node for each
/// of `models`, each with `amount` instances of its own.
///
/// Each entry of `models` names the instance buffer of the node, which holds
/// `amount` instance records, and its model.
pub fn mk_flat_scene_graph(amount: u32, models: Vec<(BufferHandle, ModelHandle)>) -> (parent:
    SceneNode)
    ensures
        parent.drawable() is None,
        parent.instances() == identity_pairs(amount as nat),
        parent.animations() == Seq::<ModelAnimation>::empty(),
        parent.children().len() == models@.len(),
        forall|c: int|
            0 <= c < models@.len() ==> fresh_model(
                #[trigger] parent.children()[c],
                amount as nat,
                models@[c].0,
                models@[c].1,
            ),
        parent.aligned(amount as nat),
        parent.sized(),
{
    let mut parent = SceneNode::Container(ContainerNode::new(amount, Vec::new()));
    let n = models.len();
    let mut i: usize = 0;
    while i < n
        invariant
            i <= n,
            n == models@.len(),
            parent.drawable() is None,
            parent.instances() == identity_pairs(amount as nat),
            parent.animations() == Seq::<ModelAnimation>::empty(),
            parent.children().len() == i,
            forall|c: int|
                0 <= c < i ==> fresh_model(
                    #[trigger] parent.children()[c],
                    amount as nat,
                    models@[c].0,
                    models@[c].1,
                ),
            parent.aligned(amount as nat),
            parent.sized(),
        decreases n - i,
    {
        let (buffer, model) = models[i];
        let child = SceneNode::Model(ModelNode::from_model(amount, buffer, model, Vec::new()));
        parent.add_child(child);
        i += 1;
    }
    parent
}

} // verus!
