//! What a scene graph draws.

use vstd::prelude::*;
use super::{ContainerNode, Drawable, ModelNode, SceneNode};
use crate::data_structures::animation::ModelAnimation;
use crate::data_structures::instance::Instance;
use crate::render::Instanced;

verus! {

impl SceneNode {
    /// The drawable that the node itself describes: none for a container; for
    /// a model node its model, its buffer, the number of its instances and its id.
    pub open spec fn own_render(self) -> Seq<Instanced> {
        match self.drawable() {
            None => Seq::empty(),
            Some(drawable) => seq![
                Instanced {
                    instance: drawable.instance_buffer.handle,
                    model: drawable.model,
                    amount: self.instances().len() as usize,
                    id: drawable.id,
                },
            ],
        }
    }

    /// The drawables of the subtree: that of the node, then those of each
    /// child's subtree, in order.
    pub open spec fn render(self) -> Seq<Instanced>
        decreases self, 0nat,
    {
        self.own_render() + Self::render_of(self.children(), self.children().len())
    }

    /// The drawables of the subtrees of the first `upto` of `nodes`.
    pub open spec fn render_of(nodes: Seq<SceneNode>, upto: nat) -> Seq<Instanced>
        decreases nodes, upto,
    {
        if upto == 0 || upto > nodes.len() {
            Seq::empty()
        } else {
            Self::render_of(nodes, (upto - 1) as nat) + nodes[upto - 1].render()
        }
    }

    /// Describes what the subtree draws: one drawable per model node, parents
    /// before their children.
    pub fn get_render(&self) -> (render: Vec<Instanced>)
        ensures
            render@ == self.render(),
    {
        let mut render: Vec<Instanced> = Vec::new();
        self.render_into(&mut render);
        render
    }

    fn render_into(&self, render: &mut Vec<Instanced>)
        ensures
            final(render)@ == old(render)@ + self.render(),
        decreases self,
    {
        let children = match self {
            SceneNode::Container(node) => &node.children,
            SceneNode::Model(node) => {
                render.push(
                    Instanced {
                        instance: node.instance_buffer.handle,
                        model: node.obj_model,
                        amount: node.instances.len(),
                        id: node.id,
                    },
                );
                &node.children
            },
        };
        let n = children.len();
        let mut c: usize = 0;
        while c < n
            invariant
                c <= n,
                n == children@.len(),
                children@ == self.children(),
                render@ == old(render)@ + self.own_render() + Self::render_of(
                    self.children(),
                    c as nat,
                ),
            decreases n - c,
        {
            children[c].render_into(render);
            c += 1;
        }
    }

    /// Whether `copy` is the pick version of `node`: the same tree with the
    /// same instances, drawn with `id` by every model node, and without
    /// animations. A model node of the copy shares model and buffer with the
    /// node it was made from.
    pub open spec fn clickable(node: SceneNode, copy: SceneNode, id: u32) -> bool
        decreases node,
    {
        &&& copy.instances() == node.instances()
        &&& copy.animations() == Seq::<ModelAnimation>::empty()
        &&& copy.drawable() == (match node.drawable() {
            Some(drawable) => Some(Drawable { id, ..drawable }),
            None => None,
        })
        &&& copy.children().len() == node.children().len()
        &&& forall|c: int|
            #![trigger node.children()[c]]
            #![trigger copy.children()[c]]
            0 <= c < node.children().len() ==> Self::clickable(
                node.children()[c],
                copy.children()[c],
                id,
            )
    }

    /// Makes the pick version of the subtree: a copy in which every model node
    /// is drawn with `id`.
    pub fn to_clickable(&self, id: u32) -> (copy: SceneNode)
        ensures
            Self::clickable(*self, copy, id),
        decreases self,
    {
        let (source_instances, source_children) = match self {
            SceneNode::Container(node) => (&node.instances, &node.children),
            SceneNode::Model(node) => (&node.instances, &node.children),
        };
        let mut instances: Vec<(Instance, Instance)> = Vec::new();
        let len = source_instances.len();
        let mut i: usize = 0;
        while i < len
            invariant
                i <= len,
                len == source_instances@.len(),
                instances@ == source_instances@.take(i as int),
            decreases len - i,
        {
            instances.push(source_instances[i]);
            i += 1;
        }
        let mut children: Vec<SceneNode> = Vec::new();
        let n = source_children.len();
        let mut c: usize = 0;
        while c < n
            invariant
                c <= n,
                n == source_children@.len(),
                source_children@ == self.children(),
                children@.len() == c,
                forall|j: int|
                    0 <= j < c ==> Self::clickable(#[trigger] self.children()[j], children@[j], id),
            decreases n - c,
        {
            let child = source_children[c].to_clickable(id);
            children.push(child);
            c += 1;
        }
        proof {
            assert(instances@ =~= self.instances());
        }
        match self {
            SceneNode::Container(_) => SceneNode::Container(
                ContainerNode { children, instances, animations: Vec::new() },
            ),
            SceneNode::Model(node) => SceneNode::Model(
                ModelNode {
                    children,
                    instance_buffer: node.instance_buffer,
                    instances,
                    buffer_size_needs_change: node.buffer_size_needs_change,
                    obj_model: node.obj_model,
                    animations: Vec::new(),
                    front_face: node.front_face,
                    id,
                },
            ),
        }
    }
}

} // verus!
